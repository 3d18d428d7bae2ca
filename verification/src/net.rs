//! IP addresses as numbers, address prefixes, and the prefixes that
//! Cloudflare proxies from.
use vstd::prelude::*;

verus! {

/// An IP address as the big-endian number of its octets.
#[derive(Clone, Copy, PartialEq, Eq, Structural, Debug)]
pub enum IpAddress {
    V4(u32),
    V6(u128),
}

/// Whether the top `len` bits of two 32-bit numbers agree.
pub open spec fn top_bits_agree_u32(a: u32, b: u32, len: u8) -> bool {
    len == 0 || a >> ((32 - len) as u32) == b >> ((32 - len) as u32)
}

/// Whether the top `len` bits of two 128-bit numbers agree.
pub open spec fn top_bits_agree_u128(a: u128, b: u128, len: u8) -> bool {
    len == 0 || a >> ((128 - len) as u32) == b >> ((128 - len) as u32)
}

/// Whether `ip` lies in the prefix of length `len` at `base`; addresses of
/// different families never do.
pub open spec fn in_prefix(ip: IpAddress, base: IpAddress, len: u8) -> bool {
    match (ip, base) {
        (IpAddress::V4(a), IpAddress::V4(b)) => top_bits_agree_u32(a, b, len),
        (IpAddress::V6(a), IpAddress::V6(b)) => top_bits_agree_u128(a, b, len),
        _ => false,
    }
}

/// Whether a prefix length fits the family of the base address.
pub open spec fn prefix_len_fits(base: IpAddress, len: u8) -> bool {
    match base {
        IpAddress::V4(_) => len <= 32,
        IpAddress::V6(_) => len <= 128,
    }
}

/// Whether `ip` lies in the prefix of length `prefix_len` at `base`.
pub fn ip_in_prefix(ip: &IpAddress, base: &IpAddress, prefix_len: u8) -> (inside: bool)
    requires
        prefix_len_fits(*base, prefix_len),
    ensures
        inside == in_prefix(*ip, *base, prefix_len),
{
    match (ip, base) {
        (IpAddress::V4(ip), IpAddress::V4(base)) => {
            let ip = *ip;
            let base = *base;
            let mask: u32 = if prefix_len == 0 {
                0
            } else {
                u32::MAX << (32 - prefix_len)
            };
            let inside = (ip & mask) == (base & mask);
            proof {
                if prefix_len > 0 {
                    let s: u32 = (32 - prefix_len) as u32;
                    assert(s < 32);
                    assert(mask == u32::MAX << s);
                    assert(((ip & (u32::MAX << s)) == (base & (u32::MAX << s))) == (ip >> s == base >> s))
                        by (bit_vector)
                        requires
                            s < 32,
                    ;
                }
                if prefix_len == 0 {
                    assert(ip & 0 == 0 && base & 0 == 0) by (bit_vector);
                }
                assert(inside == top_bits_agree_u32(ip, base, prefix_len));
            }
            inside
        },
        (IpAddress::V6(ip), IpAddress::V6(base)) => {
            let ip = *ip;
            let base = *base;
            let mask: u128 = if prefix_len == 0 {
                0
            } else {
                u128::MAX << (128 - prefix_len)
            };
            let inside = (ip & mask) == (base & mask);
            proof {
                if prefix_len > 0 {
                    let s: u32 = (128 - prefix_len) as u32;
                    assert(s < 128);
                    assert(mask == u128::MAX << s);
                    lemma_mask_u128(ip, s);
                    lemma_mask_u128(base, s);
                    lemma_shift_round_trip_u128(ip, s);
                    lemma_shift_round_trip_u128(base, s);
                    lemma_shift_back_u128(ip >> s, base >> s, s);
                    assert(inside == (ip >> s == base >> s));
                }
                if prefix_len == 0 {
                    assert(ip & 0 == 0 && base & 0 == 0) by (bit_vector);
                }
                assert(inside == top_bits_agree_u128(ip, base, prefix_len));
            }
            inside
        },
        _ => false,
    }
}

proof fn lemma_mask_u128(x: u128, s: u32)
    requires
        s < 128,
    ensures
        x & (u128::MAX << s) == (x >> s) << s,
{
    assert(x & (u128::MAX << s) == (x >> s) << s) by (bit_vector)
        requires
            s < 128,
    ;
}

proof fn lemma_shift_round_trip_u128(x: u128, s: u32)
    requires
        s < 128,
    ensures
        (x >> s) << s >> s == x >> s,
{
    assert((x >> s) << s >> s == x >> s) by (bit_vector)
        requires
            s < 128,
    ;
}

proof fn lemma_shift_back_u128(a: u128, b: u128, s: u32)
    requires
        s < 128,
        a == a << s >> s,
        b == b << s >> s,
    ensures
        (a << s == b << s) == (a == b),
{
}

/// The prefixes that Cloudflare proxies from, as (base, length).
pub open spec fn cloudflare_prefixes() -> Seq<(IpAddress, u8)> {
    seq![
        (IpAddress::V4(0xadf53000), 20),
        (IpAddress::V4(0x6715f400), 22),
        (IpAddress::V4(0x6716c800), 22),
        (IpAddress::V4(0x671f0400), 22),
        (IpAddress::V4(0x8d654000), 18),
        (IpAddress::V4(0x6ca2c000), 18),
        (IpAddress::V4(0xbe5df000), 20),
        (IpAddress::V4(0xbc726000), 20),
        (IpAddress::V4(0xc5eaf000), 22),
        (IpAddress::V4(0xc6298000), 17),
        (IpAddress::V4(0xa29e0000), 15),
        (IpAddress::V4(0x68100000), 13),
        (IpAddress::V4(0x68180000), 14),
        (IpAddress::V4(0xac400000), 13),
        (IpAddress::V4(0x83004800), 22),
        (IpAddress::V6(0x2400cb00000000000000000000000000), 32),
        (IpAddress::V6(0x26064700000000000000000000000000), 32),
        (IpAddress::V6(0x2803f800000000000000000000000000), 32),
        (IpAddress::V6(0x2405b500000000000000000000000000), 32),
        (IpAddress::V6(0x24058100000000000000000000000000), 32),
        (IpAddress::V6(0x2a0698c0000000000000000000000000), 29),
        (IpAddress::V6(0x2c0ff248000000000000000000000000), 32),
    ]
}

/// The prefixes that Cloudflare proxies from: 173.245.48.0/20,
/// 103.21.244.0/22, 103.22.200.0/22, 103.31.4.0/22, 141.101.64.0/18,
/// 108.162.192.0/18, 190.93.240.0/20, 188.114.96.0/20, 197.234.240.0/22,
/// 198.41.128.0/17, 162.158.0.0/15, 104.16.0.0/13, 104.24.0.0/14,
/// 172.64.0.0/13, 131.0.72.0/22, 2400:cb00::/32, 2606:4700::/32,
/// 2803:f800::/32, 2405:b500::/32, 2405:8100::/32, 2a06:98c0::/29 and
/// 2c0f:f248::/32.
pub fn cloudflare_ranges() -> (ranges: Vec<(IpAddress, u8)>)
    ensures
        ranges@ == cloudflare_prefixes(),
{
    let ranges: Vec<(IpAddress, u8)> = vec![
        (IpAddress::V4(0xadf53000), 20),
        (IpAddress::V4(0x6715f400), 22),
        (IpAddress::V4(0x6716c800), 22),
        (IpAddress::V4(0x671f0400), 22),
        (IpAddress::V4(0x8d654000), 18),
        (IpAddress::V4(0x6ca2c000), 18),
        (IpAddress::V4(0xbe5df000), 20),
        (IpAddress::V4(0xbc726000), 20),
        (IpAddress::V4(0xc5eaf000), 22),
        (IpAddress::V4(0xc6298000), 17),
        (IpAddress::V4(0xa29e0000), 15),
        (IpAddress::V4(0x68100000), 13),
        (IpAddress::V4(0x68180000), 14),
        (IpAddress::V4(0xac400000), 13),
        (IpAddress::V4(0x83004800), 22),
        (IpAddress::V6(0x2400cb00000000000000000000000000), 32),
        (IpAddress::V6(0x26064700000000000000000000000000), 32),
        (IpAddress::V6(0x2803f800000000000000000000000000), 32),
        (IpAddress::V6(0x2405b500000000000000000000000000), 32),
        (IpAddress::V6(0x24058100000000000000000000000000), 32),
        (IpAddress::V6(0x2a0698c0000000000000000000000000), 29),
        (IpAddress::V6(0x2c0ff248000000000000000000000000), 32),
    ];
    assert(ranges@ =~= cloudflare_prefixes());
    ranges
}

/// Whether `ip` lies in one of Cloudflare's prefixes.
pub fn is_cloudflare_ip(ip: &IpAddress) -> (proxied: bool)
    ensures
        proxied == exists|i: int|
            0 <= i < cloudflare_prefixes().len() && in_prefix(
                *ip,
                #[trigger] cloudflare_prefixes()[i].0,
                cloudflare_prefixes()[i].1,
            ),
{
    let ranges = cloudflare_ranges();
    let mut i: usize = 0;
    while i < ranges.len()
        invariant
            ranges@ == cloudflare_prefixes(),
            i <= ranges@.len(),
            forall|j: int| 0 <= j < i ==> !in_prefix(*ip, #[trigger] ranges@[j].0, ranges@[j].1),
        decreases ranges.len() - i,
    {
        let (base, len) = ranges[i];
        assert(prefix_len_fits(base, len));
        if ip_in_prefix(ip, &base, len) {
            return true;
        }
        i = i + 1;
    }
    false
}

/// The address that a request most likely came from. `remote` is the
/// candidate: the `x-real-ip` header where the request has one, else the
/// peer's address. Where the candidate is a Cloudflare address, the
/// `cf-connecting-ip` header is taken if present, else the peer's address.
pub fn choose_public_ip(
    remote: String,
    remote_is_cloudflare: bool,
    cf_connecting_ip: Option<String>,
    peer_ip: String,
) -> (ip: String)
    ensures
        ip@ == (if remote_is_cloudflare {
            match cf_connecting_ip {
                Some(cf) => cf@,
                None => peer_ip@,
            }
        } else {
            remote@
        }),
{
    if remote_is_cloudflare {
        match cf_connecting_ip {
            Some(cf) => cf,
            None => peer_ip,
        }
    } else {
        remote
    }
}

/// The addresses recognised as Cloudflare's are exactly those inside its
/// published prefixes: 173.245.48.0/20, 103.21.244.0/22, 103.22.200.0/22,
/// 103.31.4.0/22, 141.101.64.0/18, 108.162.192.0/18, 190.93.240.0/20,
/// 188.114.96.0/20, 197.234.240.0/22, 198.41.128.0/17, 162.158.0.0/15,
/// 104.16.0.0/13, 104.24.0.0/14, 172.64.0.0/13, 131.0.72.0/22,
/// 2400:cb00::/32, 2606:4700::/32, 2803:f800::/32, 2405:b500::/32,
/// 2405:8100::/32, 2a06:98c0::/29 and 2c0f:f248::/32.
pub proof fn law_cloudflare_addresses(ip: IpAddress)
    ensures
        (exists|i: int|
            0 <= i < cloudflare_prefixes().len() && in_prefix(
                ip,
                #[trigger] cloudflare_prefixes()[i].0,
                cloudflare_prefixes()[i].1,
            )) <==> (
            in_prefix(ip, IpAddress::V4(0xadf53000), 20) ||
            in_prefix(ip, IpAddress::V4(0x6715f400), 22) ||
            in_prefix(ip, IpAddress::V4(0x6716c800), 22) ||
            in_prefix(ip, IpAddress::V4(0x671f0400), 22) ||
            in_prefix(ip, IpAddress::V4(0x8d654000), 18) ||
            in_prefix(ip, IpAddress::V4(0x6ca2c000), 18) ||
            in_prefix(ip, IpAddress::V4(0xbe5df000), 20) ||
            in_prefix(ip, IpAddress::V4(0xbc726000), 20) ||
            in_prefix(ip, IpAddress::V4(0xc5eaf000), 22) ||
            in_prefix(ip, IpAddress::V4(0xc6298000), 17) ||
            in_prefix(ip, IpAddress::V4(0xa29e0000), 15) ||
            in_prefix(ip, IpAddress::V4(0x68100000), 13) ||
            in_prefix(ip, IpAddress::V4(0x68180000), 14) ||
            in_prefix(ip, IpAddress::V4(0xac400000), 13) ||
            in_prefix(ip, IpAddress::V4(0x83004800), 22) ||
            in_prefix(ip, IpAddress::V6(0x2400cb00000000000000000000000000), 32) ||
            in_prefix(ip, IpAddress::V6(0x26064700000000000000000000000000), 32) ||
            in_prefix(ip, IpAddress::V6(0x2803f800000000000000000000000000), 32) ||
            in_prefix(ip, IpAddress::V6(0x2405b500000000000000000000000000), 32) ||
            in_prefix(ip, IpAddress::V6(0x24058100000000000000000000000000), 32) ||
            in_prefix(ip, IpAddress::V6(0x2a0698c0000000000000000000000000), 29) ||
            in_prefix(ip, IpAddress::V6(0x2c0ff248000000000000000000000000), 32)
        ),
{
    let ps = cloudflare_prefixes();
    assert(ps.len() == 22);
    assert(ps[0] == (IpAddress::V4(0xadf53000), 20u8));
    assert(ps[1] == (IpAddress::V4(0x6715f400), 22u8));
    assert(ps[2] == (IpAddress::V4(0x6716c800), 22u8));
    assert(ps[3] == (IpAddress::V4(0x671f0400), 22u8));
    assert(ps[4] == (IpAddress::V4(0x8d654000), 18u8));
    assert(ps[5] == (IpAddress::V4(0x6ca2c000), 18u8));
    assert(ps[6] == (IpAddress::V4(0xbe5df000), 20u8));
    assert(ps[7] == (IpAddress::V4(0xbc726000), 20u8));
    assert(ps[8] == (IpAddress::V4(0xc5eaf000), 22u8));
    assert(ps[9] == (IpAddress::V4(0xc6298000), 17u8));
    assert(ps[10] == (IpAddress::V4(0xa29e0000), 15u8));
    assert(ps[11] == (IpAddress::V4(0x68100000), 13u8));
    assert(ps[12] == (IpAddress::V4(0x68180000), 14u8));
    assert(ps[13] == (IpAddress::V4(0xac400000), 13u8));
    assert(ps[14] == (IpAddress::V4(0x83004800), 22u8));
    assert(ps[15] == (IpAddress::V6(0x2400cb00000000000000000000000000), 32u8));
    assert(ps[16] == (IpAddress::V6(0x26064700000000000000000000000000), 32u8));
    assert(ps[17] == (IpAddress::V6(0x2803f800000000000000000000000000), 32u8));
    assert(ps[18] == (IpAddress::V6(0x2405b500000000000000000000000000), 32u8));
    assert(ps[19] == (IpAddress::V6(0x24058100000000000000000000000000), 32u8));
    assert(ps[20] == (IpAddress::V6(0x2a0698c0000000000000000000000000), 29u8));
    assert(ps[21] == (IpAddress::V6(0x2c0ff248000000000000000000000000), 32u8));
    if in_prefix(ip, IpAddress::V4(0xadf53000), 20) {
        assert(in_prefix(ip, ps[0].0, ps[0].1));
    }
    if in_prefix(ip, IpAddress::V4(0x6715f400), 22) {
        assert(in_prefix(ip, ps[1].0, ps[1].1));
    }
    if in_prefix(ip, IpAddress::V4(0x6716c800), 22) {
        assert(in_prefix(ip, ps[2].0, ps[2].1));
    }
    if in_prefix(ip, IpAddress::V4(0x671f0400), 22) {
        assert(in_prefix(ip, ps[3].0, ps[3].1));
    }
    if in_prefix(ip, IpAddress::V4(0x8d654000), 18) {
        assert(in_prefix(ip, ps[4].0, ps[4].1));
    }
    if in_prefix(ip, IpAddress::V4(0x6ca2c000), 18) {
        assert(in_prefix(ip, ps[5].0, ps[5].1));
    }
    if in_prefix(ip, IpAddress::V4(0xbe5df000), 20) {
        assert(in_prefix(ip, ps[6].0, ps[6].1));
    }
    if in_prefix(ip, IpAddress::V4(0xbc726000), 20) {
        assert(in_prefix(ip, ps[7].0, ps[7].1));
    }
    if in_prefix(ip, IpAddress::V4(0xc5eaf000), 22) {
        assert(in_prefix(ip, ps[8].0, ps[8].1));
    }
    if in_prefix(ip, IpAddress::V4(0xc6298000), 17) {
        assert(in_prefix(ip, ps[9].0, ps[9].1));
    }
    if in_prefix(ip, IpAddress::V4(0xa29e0000), 15) {
        assert(in_prefix(ip, ps[10].0, ps[10].1));
    }
    if in_prefix(ip, IpAddress::V4(0x68100000), 13) {
        assert(in_prefix(ip, ps[11].0, ps[11].1));
    }
    if in_prefix(ip, IpAddress::V4(0x68180000), 14) {
        assert(in_prefix(ip, ps[12].0, ps[12].1));
    }
    if in_prefix(ip, IpAddress::V4(0xac400000), 13) {
        assert(in_prefix(ip, ps[13].0, ps[13].1));
    }
    if in_prefix(ip, IpAddress::V4(0x83004800), 22) {
        assert(in_prefix(ip, ps[14].0, ps[14].1));
    }
    if in_prefix(ip, IpAddress::V6(0x2400cb00000000000000000000000000), 32) {
        assert(in_prefix(ip, ps[15].0, ps[15].1));
    }
    if in_prefix(ip, IpAddress::V6(0x26064700000000000000000000000000), 32) {
        assert(in_prefix(ip, ps[16].0, ps[16].1));
    }
    if in_prefix(ip, IpAddress::V6(0x2803f800000000000000000000000000), 32) {
        assert(in_prefix(ip, ps[17].0, ps[17].1));
    }
    if in_prefix(ip, IpAddress::V6(0x2405b500000000000000000000000000), 32) {
        assert(in_prefix(ip, ps[18].0, ps[18].1));
    }
    if in_prefix(ip, IpAddress::V6(0x24058100000000000000000000000000), 32) {
        assert(in_prefix(ip, ps[19].0, ps[19].1));
    }
    if in_prefix(ip, IpAddress::V6(0x2a0698c0000000000000000000000000), 29) {
        assert(in_prefix(ip, ps[20].0, ps[20].1));
    }
    if in_prefix(ip, IpAddress::V6(0x2c0ff248000000000000000000000000), 32) {
        assert(in_prefix(ip, ps[21].0, ps[21].1));
    }
    if exists|i: int| 0 <= i < ps.len() && in_prefix(ip, #[trigger] ps[i].0, ps[i].1) {
        let i = choose|i: int| 0 <= i < ps.len() && in_prefix(ip, #[trigger] ps[i].0, ps[i].1);
        assert(0 <= i < 22);
    }
}

} // verus!
