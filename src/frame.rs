use vstd::prelude::*;

use crate::packet::{ParseResult, PROTO_TCP, PROTO_UDP};

verus! {

/// Length of an Ethernet II header.
pub const ETH_LEN: usize = 14;

/// Length of an IPv4 header without options.
pub const IPV4_LEN: usize = 20;

/// Length of the fixed IPv6 header.
pub const IPV6_LEN: usize = 40;

/// Length of a TCP header without options.
pub const TCP_LEN: usize = 20;

/// Length of a UDP header.
pub const UDP_LEN: usize = 8;

pub const ETHERTYPE_IPV4: u16 = 0x0800;

pub const ETHERTYPE_IPV6: u16 = 0x86DD;

/// Protocol number reported when no protocol was read.
pub const PROTO_RESERVED: u8 = 255;

/// The big-endian number that the bytes `s` spell.
pub open spec fn be_value(s: Seq<u8>) -> nat
    decreases s.len(),
{
    if s.len() == 0 {
        0
    } else {
        be_value(s.drop_last()) * 256 + s.last() as nat
    }
}

pub open spec fn pow256(n: nat) -> nat
    decreases n,
{
    if n == 0 {
        1
    } else {
        256 * pow256((n - 1) as nat)
    }
}

/// The big-endian number of `n` bytes of `frame` from `off`.
pub open spec fn be_at(frame: Seq<u8>, off: int, n: int) -> nat {
    be_value(frame.subrange(off, off + n))
}

/// An IP packet whose payload is neither TCP nor UDP, with what was read of it.
#[derive(Clone, Copy, Debug)]
pub struct UnhandledProtocolError {
    pub proto: u8,
    pub dst_v4: u32,
    pub src_v4: u32,
    pub dst_v6: u128,
    pub src_v6: u128,
    pub ifindex: u32,
    pub input: bool,
    pub v4: bool,
}

impl UnhandledProtocolError {
    pub fn empty() -> (r: Self)
        ensures
            r.proto == PROTO_RESERVED,
            r.dst_v4 == 0 && r.src_v4 == 0 && r.dst_v6 == 0 && r.src_v6 == 0,
            r.ifindex == 0 && !r.input && !r.v4,
    {
        UnhandledProtocolError {
            proto: PROTO_RESERVED,
            dst_v4: 0,
            src_v4: 0,
            dst_v6: 0,
            src_v6: 0,
            ifindex: 0,
            input: false,
            v4: false,
        }
    }

    pub fn proto_as_u8(&self) -> (r: u8)
        ensures
            r == self.proto,
    {
        self.proto
    }
}

/// Why a frame yields no packet view.
#[derive(Clone, Copy, Debug)]
pub enum ParseError {
    /// A header reaches past the end of the frame.
    Truncated,
    /// The frame carries neither IPv4 nor IPv6.
    NonIp,
    /// The IP payload is neither TCP nor UDP.
    UnhandledProtocol(UnhandledProtocolError),
}

/// The outcome of parsing the IP and transport headers of `frame` as family
/// `v4` (IPv6 otherwise), received on `ifindex` in direction `input`.
pub open spec fn parse_ip_spec(frame: Seq<u8>, ifindex: u32, input: bool, v4: bool) -> Result<
    ParseResult,
    ParseError,
> {
    let ip_len: int = if v4 {
        IPV4_LEN as int
    } else {
        IPV6_LEN as int
    };
    let l4: int = ETH_LEN + ip_len;
    if frame.len() < l4 {
        Err(ParseError::Truncated)
    } else {
        let proto: u8 = if v4 {
            frame[ETH_LEN + 9]
        } else {
            frame[ETH_LEN + 6]
        };
        let src_v4: u32 = if v4 {
            be_at(frame, ETH_LEN + 12, 4) as u32
        } else {
            0
        };
        let dst_v4: u32 = if v4 {
            be_at(frame, ETH_LEN + 16, 4) as u32
        } else {
            0
        };
        let src_v6: u128 = if v4 {
            0
        } else {
            be_at(frame, ETH_LEN + 8, 16) as u128
        };
        let dst_v6: u128 = if v4 {
            0
        } else {
            be_at(frame, ETH_LEN + 24, 16) as u128
        };
        if proto != PROTO_TCP && proto != PROTO_UDP {
            Err(
                ParseError::UnhandledProtocol(
                    UnhandledProtocolError {
                        proto,
                        dst_v4,
                        src_v4,
                        dst_v6,
                        src_v6,
                        ifindex,
                        input,
                        v4,
                    },
                ),
            )
        } else if frame.len() < l4 + (if proto == PROTO_TCP {
            TCP_LEN as int
        } else {
            UDP_LEN as int
        }) {
            Err(ParseError::Truncated)
        } else {
            Ok(
                ParseResult {
                    source_port: be_at(frame, l4, 2) as u16,
                    destination_port: be_at(frame, l4 + 2, 2) as u16,
                    destination_addr_v4: dst_v4,
                    source_addr_v4: src_v4,
                    destination_addr_v6: dst_v6,
                    source_addr_v6: src_v6,
                    proto,
                    input,
                    output: !input,
                    v4,
                    ifindex,
                },
            )
        }
    }
}

/// The outcome of parsing a whole Ethernet frame.
pub open spec fn parse_spec(frame: Seq<u8>, ifindex: u32, input: bool) -> Result<
    ParseResult,
    ParseError,
> {
    if frame.len() < ETH_LEN {
        Err(ParseError::Truncated)
    } else {
        let ether_type = be_at(frame, 12, 2);
        if ether_type == ETHERTYPE_IPV4 {
            parse_ip_spec(frame, ifindex, input, true)
        } else if ether_type == ETHERTYPE_IPV6 {
            parse_ip_spec(frame, ifindex, input, false)
        } else {
            Err(ParseError::NonIp)
        }
    }
}

proof fn lemma_be_value_bound(s: Seq<u8>)
    ensures
        be_value(s) < pow256(s.len()),
    decreases s.len(),
{
    if s.len() > 0 {
        lemma_be_value_bound(s.drop_last());
        let a = be_value(s.drop_last());
        let p = pow256((s.len() - 1) as nat);
        let b = s.last() as nat;
        assert(a * 256 + b < 256 * p) by (nonlinear_arith)
            requires
                a < p,
                b < 256,
        ;
    }
}

proof fn lemma_pow256_mono(i: nat, j: nat)
    requires
        i <= j,
    ensures
        pow256(i) <= pow256(j),
    decreases j,
{
    if i < j {
        lemma_pow256_mono(i, (j - 1) as nat);
    }
}

/// Reads `n` bytes of `buf` from `off` as a big-endian number.
pub fn read_be(buf: &[u8], off: usize, n: usize) -> (r: u128)
    requires
        off + n <= buf@.len(),
        n <= 16,
    ensures
        r as nat == be_at(buf@, off as int, n as int),
        r < pow256(n as nat),
{
    let len = buf.len();
    let mut acc: u128 = 0;
    let mut i: usize = 0;
    proof {
        lemma_pow256_mono(n as nat, 16);
        reveal_with_fuel(pow256, 17);
        assert(pow256(16) == 0x1_0000_0000_0000_0000_0000_0000_0000_0000);
        assert(buf@.subrange(off as int, off as int) =~= Seq::<u8>::empty());
    }
    while i < n
        invariant
            i <= n <= 16,
            len == buf@.len(),
            off + n <= buf@.len(),
            acc as nat == be_at(buf@, off as int, i as int),
            acc < pow256(i as nat),
            pow256(n as nat) <= 0x1_0000_0000_0000_0000_0000_0000_0000_0000,
        decreases n - i,
    {
        let b = buf[off + i];
        proof {
            let s = buf@.subrange(off as int, off + i + 1);
            assert(s.drop_last() =~= buf@.subrange(off as int, off + i as int));
            lemma_pow256_mono((i + 1) as nat, n as nat);
            assert(acc * 256 + b < 256 * pow256(i as nat)) by (nonlinear_arith)
                requires
                    acc < pow256(i as nat),
                    b < 256,
            ;
        }
        acc = acc * 256 + b as u128;
        i = i + 1;
    }
    acc
}

/// A window `data..data_end` of a packet buffer, and the interface it came on.
pub struct ContextWrapper {
    pub data: usize,
    pub data_end: usize,
    pub ifindex: u32,
}

impl ContextWrapper {
    pub fn from_usize(data: usize, data_end: usize, ifindex: u32) -> (r: Self)
        ensures
            r.data == data && r.data_end == data_end && r.ifindex == ifindex,
    {
        ContextWrapper { data, data_end, ifindex }
    }

    /// The window lies inside `buf`.
    pub open spec fn fits(&self, buf: Seq<u8>) -> bool {
        self.data <= self.data_end <= buf.len()
    }

    /// The frame bytes that the window shows.
    pub open spec fn frame(&self, buf: Seq<u8>) -> Seq<u8> {
        buf.subrange(self.data as int, self.data_end as int)
    }

    /// The position of `len` bytes at `offset` into the window, if they lie
    /// within it.
    pub fn ptr_at_u(&self, offset: usize, len: usize) -> (r: Result<usize, ParseError>)
        requires
            self.data <= self.data_end,
        ensures
            self.data + offset + len <= self.data_end ==> r == Ok::<usize, ParseError>(
                (self.data + offset) as usize,
            ),
            self.data + offset + len > self.data_end ==> r matches Err(ParseError::Truncated),
    {
        let avail = self.data_end - self.data;
        if offset > avail || len > avail - offset {
            return Err(ParseError::Truncated);
        }
        Ok(self.data + offset)
    }

    /// Parses the IP and transport headers of the window's frame.
    pub fn to_parse_result(&self, buf: &[u8], v4: bool, input: bool) -> (r: Result<
        ParseResult,
        ParseError,
    >)
        requires
            self.fits(buf@),
        ensures
            r == parse_ip_spec(self.frame(buf@), self.ifindex, input, v4),
    {
        let ghost frame = self.frame(buf@);
        let ip_len: usize = if v4 {
            IPV4_LEN
        } else {
            IPV6_LEN
        };
        let base = match self.ptr_at_u(ETH_LEN, ip_len) {
            Ok(p) => p,
            Err(e) => return Err(e),
        };
        proof {
            assert forall|off: int, n: int|
                0 <= off && 0 <= n && off + n <= frame.len() implies #[trigger] be_at(
                frame,
                off,
                n,
            ) == be_at(buf@, self.data + off, n) by {
                assert(frame.subrange(off, off + n) =~= buf@.subrange(
                    self.data + off,
                    self.data + off + n,
                ));
            }
        }
        let (proto, dst_v4, src_v4, dst_v6, src_v6) = if v4 {
            let proto = buf[base + 9];
            let src = read_be(buf, base + 12, 4) as u32;
            let dst = read_be(buf, base + 16, 4) as u32;
            (proto, dst, src, 0u128, 0u128)
        } else {
            let proto = buf[base + 6];
            let src = read_be(buf, base + 8, 16);
            let dst = read_be(buf, base + 24, 16);
            (proto, 0u32, 0u32, dst, src)
        };
        if proto != PROTO_TCP && proto != PROTO_UDP {
            return Err(
                ParseError::UnhandledProtocol(
                    UnhandledProtocolError {
                        proto,
                        dst_v4,
                        src_v4,
                        dst_v6,
                        src_v6,
                        ifindex: self.ifindex,
                        input,
                        v4,
                    },
                ),
            );
        }
        let l4_len: usize = if proto == PROTO_TCP {
            TCP_LEN
        } else {
            UDP_LEN
        };
        let l4 = match self.ptr_at_u(ETH_LEN + ip_len, l4_len) {
            Ok(p) => p,
            Err(e) => return Err(e),
        };
        let source_port = read_be(buf, l4, 2) as u16;
        let destination_port = read_be(buf, l4 + 2, 2) as u16;
        Ok(
            ParseResult {
                source_port,
                destination_port,
                destination_addr_v4: dst_v4,
                source_addr_v4: src_v4,
                destination_addr_v6: dst_v6,
                source_addr_v6: src_v6,
                proto,
                input,
                output: !input,
                v4,
                ifindex: self.ifindex,
            },
        )
    }

    /// Parses the window's Ethernet frame into a packet view.
    pub fn parse(&self, buf: &[u8], input: bool) -> (r: Result<ParseResult, ParseError>)
        requires
            self.fits(buf@),
        ensures
            r == parse_spec(self.frame(buf@), self.ifindex, input),
    {
        let ghost frame = self.frame(buf@);
        let base = match self.ptr_at_u(0, ETH_LEN) {
            Ok(p) => p,
            Err(e) => return Err(e),
        };
        let ether_type = read_be(buf, base + 12, 2) as u16;
        proof {
            reveal_with_fuel(pow256, 3);
            assert(frame.subrange(12, 14) =~= buf@.subrange(self.data + 12, self.data + 14));
        }
        if ether_type == ETHERTYPE_IPV4 {
            self.to_parse_result(buf, true, input)
        } else if ether_type == ETHERTYPE_IPV6 {
            self.to_parse_result(buf, false, input)
        } else {
            Err(ParseError::NonIp)
        }
    }
}

} // verus!
