//! Target expansion: a single address, a CIDR block or an `A-B` range becomes
//! the ordered list of addresses to scan.
use vstd::prelude::*;
use vstd::arithmetic::power2::{pow2, lemma_pow2_pos};
use crate::address::{
    Address, strictly_increasing, v4_run, v6_run, v4_range, v6_range, lemma_v4_run_ascending,
    lemma_v6_run_ascending,
};

verus! {

/// Why a target specification was refused.
#[derive(Clone, Copy, Debug, PartialEq, Eq, Structural)]
pub enum TargetError {
    /// The text is none of the accepted forms for the requested family.
    InvalidTarget,
}

/// `k` is the position of the first `-` of `s`.
pub open spec fn first_dash_at(s: Seq<char>, k: int) -> bool {
    &&& 0 <= k < s.len()
    &&& s[k] == '-'
    &&& forall|i: int| 0 <= i < k ==> s[i] != '-'
}

/// The text before and after the first `-`, if there is one.
pub open spec fn dash_split(s: Seq<char>) -> Option<(Seq<char>, Seq<char>)> {
    if exists|k: int| first_dash_at(s, k) {
        let k = choose|k: int| first_dash_at(s, k);
        Some((s.take(k), s.skip(k + 1)))
    } else {
        None
    }
}

/// Relies on `str::split_once`: it splits at the first occurrence of the
/// pattern and returns `None` when there is none.
#[verifier::external_body]
fn split_at_dash(s: &str) -> (r: Option<(&str, &str)>)
    ensures
        r is None <==> dash_split(s@) is None,
        r matches Some((a, b)) ==> dash_split(s@) == Some((a@, b@)),
{
    s.split_once('-')
}

/// What cidr's parser makes of a text: the block's first address and its
/// network length.
pub uninterp spec fn ipv4_cidr_of(s: Seq<char>) -> Option<(u32, u8)>;

/// What cidr's parser makes of a text: the block's first address and its
/// network length.
pub uninterp spec fn ipv6_cidr_of(s: Seq<char>) -> Option<(u128, u8)>;

/// Relies on `Ipv4Cidr::from_str` of the cidr crate (re-exported by
/// cidr_utils): `a.b.c.d/n` with a zero host part, or a bare address as a
/// block of length 32; and on `first_address` / `last_address`, which bound
/// the 2^(32-n) addresses of the block.
#[verifier::external_body]
fn parse_ipv4_block(s: &str) -> (r: Option<(u32, u32, u8)>)
    ensures
        r is None <==> ipv4_cidr_of(s@) is None,
        r matches Some((f, l, n)) ==> ipv4_cidr_of(s@) == Some((f, n)) && n <= 32 && l as int
            == f as int + pow2((32 - n) as nat) - 1,
{
    match <cidr_utils::cidr::Ipv4Cidr as std::str::FromStr>::from_str(s) {
        Ok(c) => Some((u32::from(c.first_address()), u32::from(c.last_address()), c.network_length())),
        Err(_) => None,
    }
}

/// Relies on `Ipv6Cidr::from_str` of the cidr crate (re-exported by
/// cidr_utils): a bare address parses as a block of length 128.
#[verifier::external_body]
fn parse_ipv6_block(s: &str) -> (r: Option<(u128, u8)>)
    ensures
        r == ipv6_cidr_of(s@),
        r matches Some((f, n)) ==> n <= 128,
{
    match <cidr_utils::cidr::Ipv6Cidr as std::str::FromStr>::from_str(s) {
        Ok(c) => Some((u128::from(c.first_address()), c.network_length())),
        Err(_) => None,
    }
}

/// The integer form of a text that names a single address of the family.
pub open spec fn host_of(s: Seq<char>, ipv6: bool) -> Option<int> {
    if ipv6 {
        match ipv6_cidr_of(s) {
            Some((f, n)) => if n == 128 { Some(f as int) } else { None },
            None => None,
        }
    } else {
        match ipv4_cidr_of(s) {
            Some((f, n)) => if n == 32 { Some(f as int) } else { None },
            None => None,
        }
    }
}

/// The addresses from `x` to `y` of the family.
pub open spec fn run_of(x: int, y: int, ipv6: bool) -> Seq<Address> {
    if ipv6 { v6_run(x, y) } else { v4_run(x, y) }
}

/// The ends of an `A-B` range, when both name an address of the family.
pub open spec fn range_ends(s: Seq<char>, ipv6: bool) -> Option<(int, int)> {
    match dash_split(s) {
        Some((a, b)) => match (host_of(a, ipv6), host_of(b, ipv6)) {
            (Some(x), Some(y)) => Some((x, y)),
            _ => None,
        },
        None => None,
    }
}

/// The expansion of an `A-B` range; a descending range is refused.
pub open spec fn range_expansion(s: Seq<char>, ipv6: bool) -> Result<Seq<Address>, TargetError> {
    match range_ends(s, ipv6) {
        Some((x, y)) => if x <= y { Ok(run_of(x, y, ipv6)) } else { Err(TargetError::InvalidTarget) },
        None => Err(TargetError::InvalidTarget),
    }
}

/// The addresses a target text stands for. IPv4: a CIDR block (a bare address
/// is a block of one), else a range. IPv6: a range, else a single address.
pub open spec fn expansion(s: Seq<char>, ipv6: bool) -> Result<Seq<Address>, TargetError> {
    if !ipv6 {
        match ipv4_cidr_of(s) {
            Some((f, n)) => Ok(v4_run(f as int, f as int + pow2((32 - n) as nat) - 1)),
            None => range_expansion(s, false),
        }
    } else if dash_split(s) is Some {
        range_expansion(s, true)
    } else {
        match host_of(s, true) {
            Some(x) => Ok(seq![Address::V6(x as u128)]),
            None => Err(TargetError::InvalidTarget),
        }
    }
}

/// The address of a text that names a single address of the family.
fn parse_host(s: &str, ipv6: bool) -> (r: Option<u128>)
    ensures
        r matches Some(x) ==> host_of(s@, ipv6) == Some(x as int),
        r is None ==> host_of(s@, ipv6) is None,
        !ipv6 ==> (r matches Some(x) ==> x <= u32::MAX),
{
    if ipv6 {
        match parse_ipv6_block(s) {
            Some((f, n)) => if n == 128 { Some(f) } else { None },
            None => None,
        }
    } else {
        match parse_ipv4_block(s) {
            Some((f, _l, n)) => if n == 32 { Some(f as u128) } else { None },
            None => None,
        }
    }
}

/// The addresses from `x` to `y` of the family, ascending. Refused when the
/// range descends, or when an IPv4 end does not fit in 32 bits.
pub fn expand_range(x: u128, y: u128, ipv6: bool) -> (r: Result<Vec<Address>, TargetError>)
    ensures
        match r {
            Ok(v) => x <= y && (ipv6 || y <= u32::MAX) && v@ == run_of(x as int, y as int, ipv6),
            Err(e) => e == TargetError::InvalidTarget && (x > y || (!ipv6 && y > u32::MAX)),
        },
{
    if x > y {
        Err(TargetError::InvalidTarget)
    } else if ipv6 {
        Ok(v6_range(x, y))
    } else if y > u32::MAX as u128 {
        Err(TargetError::InvalidTarget)
    } else {
        Ok(v4_range(x as u32, y as u32))
    }
}

/// Expands an `A-B` range of the family.
fn parse_range(target: &str, ipv6: bool) -> (r: Result<Vec<Address>, TargetError>)
    ensures
        match r {
            Ok(v) => range_expansion(target@, ipv6) == Ok::<Seq<Address>, TargetError>(v@),
            Err(e) => range_expansion(target@, ipv6) == Err::<Seq<Address>, TargetError>(e),
        },
{
    match split_at_dash(target) {
        Some((a, b)) => match (parse_host(a, ipv6), parse_host(b, ipv6)) {
            (Some(x), Some(y)) => expand_range(x, y, ipv6),
            _ => Err(TargetError::InvalidTarget),
        },
        None => Err(TargetError::InvalidTarget),
    }
}

/// Expands a target text into the addresses to scan, in ascending order.
pub fn parse_targets(target: &str, ipv6: bool) -> (r: Result<Vec<Address>, TargetError>)
    ensures
        match r {
            Ok(v) => expansion(target@, ipv6) == Ok::<Seq<Address>, TargetError>(v@),
            Err(e) => expansion(target@, ipv6) == Err::<Seq<Address>, TargetError>(e),
        },
        r matches Ok(v) ==> strictly_increasing(v@),
        !ipv6 ==> (ipv4_cidr_of(target@) matches Some((f, n)) ==> (r matches Ok(v) && v@.len()
            == pow2((32 - n) as nat))),
        ipv6 || ipv4_cidr_of(target@) is None ==> (range_ends(target@, ipv6) matches Some((x, y))
            ==> (x <= y ==> (r matches Ok(v) && v@.len() == y - x + 1))),
{
    if !ipv6 {
        match parse_ipv4_block(target) {
            Some((f, l, n)) => {
                proof {
                    lemma_pow2_pos((32 - n) as nat);
                    lemma_v4_run_ascending(f, l);
                }
                return Ok(v4_range(f, l));
            },
            None => {},
        }
        let r = parse_range(target, false);
        proof {
            if let Some((x, y)) = range_ends(target@, false) {
                if x <= y {
                    lemma_v4_run_ascending(x as u32, y as u32);
                }
            }
        }
        r
    } else {
        match split_at_dash(target) {
            Some(_) => {
                let r = parse_range(target, true);
                proof {
                    if let Some((x, y)) = range_ends(target@, true) {
                        if x <= y {
                            lemma_v6_run_ascending(x as u128, y as u128);
                        }
                    }
                }
                r
            },
            None => match parse_host(target, true) {
                Some(x) => {
                    let mut v: Vec<Address> = Vec::new();
                    v.push(Address::V6(x));
                    assert(v@ =~= seq![Address::V6(x)]);
                    Ok(v)
                },
                None => Err(TargetError::InvalidTarget),
            },
        }
    }
}

} // verus!
