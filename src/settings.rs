use vstd::prelude::*;

verus! {

/// The loader's configuration, as read from its settings file.
#[derive(Clone, Debug)]
pub struct Settings {
    pub rules_path: String,
    pub control_on: bool,
    pub control_socket_path: String,
    pub control_socket_owner: String,
    pub control_socket_chmod: u32,
    pub logs_on: bool,
    pub logs_socket_path: String,
    pub logs_socket_owner: String,
    pub logs_socket_chmod: u32,
    pub db_on: bool,
    pub db_path: String,
    pub elk_on: bool,
    pub elastic_url: String,
}

/// The loader's command-line options.
#[derive(Clone, Debug)]
pub struct Opt {
    pub cfg: String,
    pub rules: String,
    pub migrations: String,
    pub fi: bool,
    pub fo: bool,
}

} // verus!
