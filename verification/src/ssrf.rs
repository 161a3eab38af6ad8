//! DNS policies that keep requests off private networks.

use vstd::prelude::*;

verus! {

/// An address that a host name resolved to, and why it is private, if it is.
#[derive(Debug)]
pub struct ResolvedAddress {
    pub ip: String,
    pub private_reason: Option<String>,
}

/// The kind of a resolution error.
#[derive(Debug, Clone, Copy, PartialEq, Eq, Structural)]
pub enum ResolveErrorKind {
    PermissionDenied,
    NotFound,
}

/// Why a host name is not resolved.
#[derive(Debug)]
pub struct ResolveError {
    pub kind: ResolveErrorKind,
    pub message: String,
}

/// The address is on a public network.
pub open spec fn is_public(a: ResolvedAddress) -> bool {
    a.private_reason is None
}

/// Every address is on a public network.
pub open spec fn all_public(addresses: Seq<ResolvedAddress>) -> bool {
    forall|i: int| 0 <= i < addresses.len() ==> is_public(#[trigger] addresses[i])
}

/// `i` is the position of the first private address.
pub open spec fn first_private(addresses: Seq<ResolvedAddress>, i: int) -> bool {
    &&& 0 <= i < addresses.len()
    &&& !is_public(addresses[i])
    &&& forall|j: int| 0 <= j < i ==> is_public(#[trigger] addresses[j])
}

/// The positions of the public addresses, in order.
pub open spec fn public_positions(addresses: Seq<ResolvedAddress>) -> Seq<usize>
    decreases addresses.len(),
{
    if addresses.len() == 0 {
        Seq::empty()
    } else {
        let before = public_positions(addresses.drop_last());
        if is_public(addresses.last()) {
            before.push((addresses.len() - 1) as usize)
        } else {
            before
        }
    }
}

/// The position of the first private address, if there is one.
pub fn find_private(addresses: &Vec<ResolvedAddress>) -> (r: Option<usize>)
    ensures
        match r {
            Some(i) => first_private(addresses@, i as int),
            None => all_public(addresses@),
        },
{
    let mut i: usize = 0;
    while i < addresses.len()
        invariant
            i <= addresses.len(),
            forall|j: int| 0 <= j < i ==> is_public(#[trigger] addresses@[j]),
        decreases addresses.len() - i,
    {
        if addresses[i].private_reason.is_some() {
            return Some(i);
        }
        i += 1;
    }
    None
}

/// The positions of the public addresses; an error where there is none.
pub fn keep_public(addresses: &Vec<ResolvedAddress>) -> (r: Result<Vec<usize>, ResolveError>)
    ensures
        match r {
            Ok(kept) => kept@.len() > 0 && kept@ == public_positions(addresses@),
            Err(e) => {
                &&& public_positions(addresses@).len() == 0
                &&& e.kind == ResolveErrorKind::PermissionDenied
                &&& e.message@
                    == "all resolved addresses are private/internal (SSRF protection)"@
            },
        },
{
    let mut kept: Vec<usize> = Vec::new();
    let ghost all = addresses@;
    let mut i: usize = 0;
    assert(kept@ =~= public_positions(all.take(0)));
    while i < addresses.len()
        invariant
            i <= addresses.len(),
            all == addresses@,
            kept@ == public_positions(all.take(i as int)),
        decreases addresses.len() - i,
    {
        assert(all.take(i + 1).drop_last() =~= all.take(i as int));
        if addresses[i].private_reason.is_none() {
            kept.push(i);
        }
        i += 1;
    }
    assert(all.take(all.len() as int) =~= all);
    if kept.len() == 0 {
        return Err(
            ResolveError {
                kind: ResolveErrorKind::PermissionDenied,
                message: "all resolved addresses are private/internal (SSRF protection)".to_owned(),
            },
        );
    }
    Ok(kept)
}

/// A resolver that refuses a host name as soon as one of its addresses is
/// private.
#[derive(Debug, Clone, Copy)]
pub struct ProxySsrfSafeResolver;

impl ProxySsrfSafeResolver {
    /// Admits the addresses that a host name resolved to, all of them or none.
    pub fn resolve(&self, addresses: &Vec<ResolvedAddress>) -> (r: Result<(), ResolveError>)
        ensures
            r is Ok <==> addresses@.len() > 0 && all_public(addresses@),
            r matches Err(e) ==> if all_public(addresses@) {
                &&& e.kind == ResolveErrorKind::NotFound
                &&& e.message@ == "credential proxy SSRF policy blocked all resolved IPs"@
            } else {
                &&& e.kind == ResolveErrorKind::PermissionDenied
                &&& e.message@
                    == "credential proxy SSRF policy blocked DNS resolution to private IP"@
            },
    {
        if find_private(addresses).is_some() {
            return Err(
                ResolveError {
                    kind: ResolveErrorKind::PermissionDenied,
                    message:
                        "credential proxy SSRF policy blocked DNS resolution to private IP".to_owned(),
                },
            );
        }
        if addresses.len() == 0 {
            return Err(
                ResolveError {
                    kind: ResolveErrorKind::NotFound,
                    message: "credential proxy SSRF policy blocked all resolved IPs".to_owned(),
                },
            );
        }
        Ok(())
    }
}

/// A position is among the public ones exactly where a public address stands.
pub proof fn law_only_public_addresses_are_kept(addresses: Seq<ResolvedAddress>, i: usize)
    requires
        addresses.len() <= usize::MAX,
    ensures
        public_positions(addresses).contains(i) <==> i < addresses.len() && is_public(
            addresses[i as int],
        ),
    decreases addresses.len(),
{
    if addresses.len() > 0 {
        let rest = addresses.drop_last();
        law_only_public_addresses_are_kept(rest, i);
        let before = public_positions(rest);
        let last = (addresses.len() - 1) as usize;
        if is_public(addresses.last()) {
            let after = before.push(last);
            if after.contains(i) && i != last {
                let k = choose|k: int| 0 <= k < after.len() && after[k] == i;
                assert(before[k] == i);
            }
            if before.contains(i) {
                let k = choose|k: int| 0 <= k < before.len() && before[k] == i;
                assert(after[k] == i);
            }
            assert(after[before.len() as int] == last);
        }
        if i < rest.len() {
            assert(rest[i as int] == addresses[i as int]);
        }
    } else {
        assert(!public_positions(addresses).contains(i));
    }
}

/// An address is public exactly where there is no reason for which it is private.
pub proof fn law_public_means_no_private_reason(addresses: Seq<ResolvedAddress>, i: int)
    ensures
        all_public(addresses) <==> forall|j: int|
            0 <= j < addresses.len() ==> (#[trigger] addresses[j]).private_reason is None,
        first_private(addresses, i) <==> 0 <= i < addresses.len() && addresses[i].private_reason is Some
            && forall|j: int| 0 <= j < i ==> (#[trigger] addresses[j]).private_reason is None,
{
    if forall|j: int|
        0 <= j < addresses.len() ==> (#[trigger] addresses[j]).private_reason is None {
        assert forall|j: int| 0 <= j < addresses.len() implies is_public(
            #[trigger] addresses[j],
        ) by {}
    }
    if all_public(addresses) {
        assert forall|j: int|
            0 <= j < addresses.len() implies (#[trigger] addresses[j]).private_reason is None by {
            assert(is_public(addresses[j]));
        }
    }
    if first_private(addresses, i) {
        assert forall|j: int| 0 <= j < i implies (#[trigger] addresses[j]).private_reason is None by {
            assert(is_public(addresses[j]));
        }
    }
}

/// One more address adds its position exactly where it is public.
pub proof fn law_each_public_address_is_kept(
    addresses: Seq<ResolvedAddress>,
    last: ResolvedAddress,
)
    ensures
        public_positions(Seq::<ResolvedAddress>::empty()).len() == 0,
        last.private_reason is None ==> public_positions(addresses.push(last)) == public_positions(
            addresses,
        ).push(addresses.len() as usize),
        last.private_reason is Some ==> public_positions(addresses.push(last)) == public_positions(
            addresses,
        ),
{
    assert(addresses.push(last).drop_last() =~= addresses);
}

} // verus!
