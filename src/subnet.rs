use vstd::prelude::*;

verus! {

/// `ip` lies in the IPv4 subnet `network/prefix_len`: the two agree on their
/// `prefix_len` leading bits. A prefix of 0 holds every address, a prefix of
/// 32 or more asks for equality.
pub open spec fn in_subnet_v4(ip: u32, network: u32, prefix_len: u8) -> bool {
    if prefix_len == 0 {
        true
    } else if prefix_len >= 32 {
        ip == network
    } else {
        (ip >> (32 - prefix_len) as u32) == (network >> (32 - prefix_len) as u32)
    }
}

/// `ip` lies in the IPv6 subnet `network/prefix_len`, read the same way over
/// 128 bits.
pub open spec fn in_subnet_v6(ip: u128, network: u128, prefix_len: u8) -> bool {
    if prefix_len == 0 {
        true
    } else if prefix_len >= 128 {
        ip == network
    } else {
        (ip >> (128 - prefix_len) as u128) == (network >> (128 - prefix_len) as u128)
    }
}

/// The high and low 64-bit halves of a 128-bit address.
pub struct Ipv6Parts {
    pub high: u64,
    pub low: u64,
}

pub open spec fn high_of(addr: u128) -> u64 {
    (addr >> 64u128) as u64
}

pub open spec fn low_of(addr: u128) -> u64 {
    addr as u64
}

pub fn u128_to_parts(addr: u128) -> (r: Ipv6Parts)
    ensures
        r.high == high_of(addr),
        r.low == low_of(addr),
        addr == (r.high as u128) * 0x1_0000_0000_0000_0000u128 + (r.low as u128),
{
    let r = Ipv6Parts { high: (addr >> 64u128) as u64, low: addr as u64 };
    assert(addr == (((addr >> 64u128) as u64) as u128) * 0x1_0000_0000_0000_0000u128 + ((
    addr as u64) as u128)) by (bit_vector);
    r
}

/// The address whose halves are `high` and `low`.
pub open spec fn join_parts(high: u64, low: u64) -> u128 {
    ((high as u128) * 0x1_0000_0000_0000_0000u128 + (low as u128)) as u128
}

pub fn parts_to_u128(high: u64, low: u64) -> (r: u128)
    ensures
        r == join_parts(high, low),
        high_of(r) == high,
        low_of(r) == low,
{
    let r = ((high as u128) << 64u128) | (low as u128);
    assert(((high as u128) << 64u128) | (low as u128) == (high as u128)
        * 0x1_0000_0000_0000_0000u128 + (low as u128)) by (bit_vector);
    assert((((((high as u128) << 64u128) | (low as u128)) >> 64u128) as u64) == high)
        by (bit_vector);
    assert(((((high as u128) << 64u128) | (low as u128)) as u64) == low) by (bit_vector);
    r
}

pub fn is_ip_in_subnet_v4(ip: u32, network: u32, prefix_len: u8) -> (r: bool)
    ensures
        r == in_subnet_v4(ip, network, prefix_len),
{
    if prefix_len == 0 {
        return true;
    }
    if prefix_len >= 32 {
        return ip == network;
    }
    let shift: u32 = 32 - prefix_len as u32;
    let mask: u32 = (!0u32) << shift;
    let r = (ip & mask) == (network & mask);
    assert(r == ((ip >> shift) == (network >> shift))) by (bit_vector)
        requires
            0 < shift < 32,
            mask == (!0u32) << shift,
            r == ((ip & mask) == (network & mask)),
    ;
    r
}

pub fn is_ip_in_subnet_v6(ip: u128, network: u128, prefix_len: u8) -> (r: bool)
    ensures
        r == in_subnet_v6(ip, network, prefix_len),
{
    if prefix_len == 0 {
        return true;
    }
    if prefix_len >= 128 {
        return ip == network;
    }
    let ip_parts = u128_to_parts(ip);
    let net_parts = u128_to_parts(network);
    let ih = ip_parts.high;
    let il = ip_parts.low;
    let nh = net_parts.high;
    let nl = net_parts.low;
    if prefix_len <= 64 {
        let shift: u64 = 64 - prefix_len as u64;
        let mask: u64 = (!0u64) << shift;
        let r = (ih & mask) == (nh & mask);
        let s128: u128 = 128 - prefix_len as u128;
        assert(r == ((ip >> s128) == (network >> s128))) by (bit_vector)
            requires
                0 <= shift < 64,
                s128 == shift + 64,
                mask == (!0u64) << shift,
                ih == (ip >> 64u128) as u64,
                nh == (network >> 64u128) as u64,
                r == ((ih & mask) == (nh & mask)),
        ;
        r
    } else {
        let shift: u64 = 128 - prefix_len as u64;
        let mask_low: u64 = (!0u64) << shift;
        let r = ih == nh && (il & mask_low) == (nl & mask_low);
        let s128: u128 = shift as u128;
        assert(r == ((ip >> s128) == (network >> s128))) by (bit_vector)
            requires
                0 < shift < 64,
                s128 == shift,
                mask_low == (!0u64) << shift,
                ih == (ip >> 64u128) as u64,
                nh == (network >> 64u128) as u64,
                il == ip as u64,
                nl == network as u64,
                r == (ih == nh && (il & mask_low) == (nl & mask_low)),
        ;
        r
    }
}

} // verus!
