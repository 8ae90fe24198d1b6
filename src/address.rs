//! Addresses of both families as plain integers.
use vstd::prelude::*;

verus! {

/// An IP address held as its integer form.
#[derive(Clone, Copy, Debug, PartialEq, Eq, Structural)]
pub enum Address {
    V4(u32),
    V6(u128),
}

/// The integer form of an address.
pub open spec fn addr_value(a: Address) -> int {
    match a {
        Address::V4(x) => x as int,
        Address::V6(x) => x as int,
    }
}

/// Addresses in strictly ascending integer order, hence without duplicates.
pub open spec fn strictly_increasing(s: Seq<Address>) -> bool {
    forall|i: int, j: int| 0 <= i < j < s.len() ==> addr_value(s[i]) < addr_value(s[j])
}

/// Every IPv4 address from `first` to `last`, both included.
pub open spec fn v4_run(first: int, last: int) -> Seq<Address> {
    Seq::new((last - first + 1) as nat, |i: int| Address::V4((first + i) as u32))
}

/// Every IPv6 address from `first` to `last`, both included.
pub open spec fn v6_run(first: int, last: int) -> Seq<Address> {
    Seq::new((last - first + 1) as nat, |i: int| Address::V6((first + i) as u128))
}

/// A run of IPv4 addresses is ascending and has `last - first + 1` elements.
pub proof fn lemma_v4_run_ascending(first: u32, last: u32)
    requires
        first <= last,
    ensures
        v4_run(first as int, last as int).len() == last - first + 1,
        strictly_increasing(v4_run(first as int, last as int)),
{
}

/// A run of IPv6 addresses is ascending and has `last - first + 1` elements.
pub proof fn lemma_v6_run_ascending(first: u128, last: u128)
    requires
        first <= last,
    ensures
        v6_run(first as int, last as int).len() == last - first + 1,
        strictly_increasing(v6_run(first as int, last as int)),
{
}

impl Address {
    /// True for an IPv6 address.
    pub fn is_v6(&self) -> (r: bool)
        ensures
            r == (*self matches Address::V6(_)),
    {
        match self {
            Address::V4(_) => false,
            Address::V6(_) => true,
        }
    }
}

/// Every IPv4 address from `first` to `last`, ascending.
pub fn v4_range(first: u32, last: u32) -> (r: Vec<Address>)
    requires
        first <= last,
    ensures
        r@ == v4_run(first as int, last as int),
{
    let mut out: Vec<Address> = Vec::new();
    let mut cur: u32 = first;
    loop
        invariant_except_break
            out@ == v4_run(first as int, cur as int - 1),
        invariant
            first <= cur <= last,
        ensures
            out@ == v4_run(first as int, last as int),
        decreases last - cur,
    {
        out.push(Address::V4(cur));
        assert(out@ =~= v4_run(first as int, cur as int));
        if cur == last {
            break;
        }
        cur = cur + 1;
    }
    out
}

/// Every IPv6 address from `first` to `last`, ascending.
pub fn v6_range(first: u128, last: u128) -> (r: Vec<Address>)
    requires
        first <= last,
    ensures
        r@ == v6_run(first as int, last as int),
{
    let mut out: Vec<Address> = Vec::new();
    let mut cur: u128 = first;
    loop
        invariant_except_break
            out@ == v6_run(first as int, cur as int - 1),
        invariant
            first <= cur <= last,
        ensures
            out@ == v6_run(first as int, last as int),
        decreases last - cur,
    {
        out.push(Address::V6(cur));
        assert(out@ =~= v6_run(first as int, cur as int));
        if cur == last {
            break;
        }
        cur = cur + 1;
    }
    out
}

} // verus!
