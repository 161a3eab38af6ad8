//! The DNS policy that tells why a host name was refused.

use crate::ssrf;
use crate::ssrf::{ResolveError, ResolveErrorKind, ResolvedAddress};
use vstd::prelude::*;

verus! {

/// A resolver that refuses a host name as soon as one of its addresses is
/// private, and says which and why.
#[derive(Debug, Clone, Copy)]
pub struct ProxySsrfSafeResolver;

impl ProxySsrfSafeResolver {
    /// Admits the addresses that a host name resolved to, all of them or none.
    pub fn resolve(&self, addresses: &Vec<ResolvedAddress>) -> (r: Result<(), ResolveError>)
        ensures
            r is Ok <==> addresses@.len() > 0 && ssrf::all_public(addresses@),
            r matches Err(e) ==> if addresses@.len() == 0 {
                &&& e.kind == ResolveErrorKind::NotFound
                &&& e.message@ == "resolved no addresses"@
            } else {
                &&& e.kind == ResolveErrorKind::PermissionDenied
                &&& exists|i: int|
                    {
                        &&& #[trigger] ssrf::first_private(addresses@, i)
                        &&& e.message@ == "credential proxy DNS resolution blocked request to "@
                            + addresses@[i].private_reason->0@ + ": "@ + addresses@[i].ip@
                    }
            },
    {
        if let Some(i) = ssrf::find_private(addresses) {
            let mut message = "credential proxy DNS resolution blocked request to ".to_owned();
            if let Some(reason) = &addresses[i].private_reason {
                message.append(reason.as_str());
            }
            message.append(": ");
            message.append(addresses[i].ip.as_str());
            assert(ssrf::first_private(addresses@, i as int));
            return Err(ResolveError { kind: ResolveErrorKind::PermissionDenied, message });
        }
        if addresses.len() == 0 {
            return Err(
                ResolveError {
                    kind: ResolveErrorKind::NotFound,
                    message: "resolved no addresses".to_owned(),
                },
            );
        }
        Ok(())
    }
}

} // verus!
