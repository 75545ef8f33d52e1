pub mod codec;
pub mod control;
pub mod dispatch;
pub mod doc;
pub mod eval;
pub mod events;
pub mod fanout;
pub mod filter;
pub mod frame;
pub mod hex;
pub mod log;
pub mod network;
pub mod logline;
pub mod packet;
pub mod rule;
pub mod settings;
pub mod store;
pub mod subnet;
