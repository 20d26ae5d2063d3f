//! Bounded XDR vectors.

use vstd::prelude::*;
use stellar_xdr::VecM;
use crate::text::concat;

verus! {

/// `stellar_xdr::VecM`, a `Vec` whose length is bounded by `MAX`.
#[verifier::external_type_specification]
#[verifier::external_body]
#[verifier::reject_recursive_types(T)]
pub struct ExVecM<T, const MAX: u32>(VecM<T, MAX>);

/// `<VecM<T, N> as TryFrom<Vec<T>>>::try_from`: succeeds exactly when the
/// vector holds at most `N` items; its error renders as
/// `xdr value max length exceeded`.
#[verifier::external_body]
fn vecm_try_from<T, const N: u32>(items: Vec<T>) -> (r: Result<VecM<T, N>, String>)
    ensures
        r is Ok <==> items.len() <= N,
        r matches Err(e) ==> e@ == "xdr value max length exceeded"@,
{
    match VecM::<T, N>::try_from(items) {
        Ok(v) => Ok(v),
        Err(e) => Err(e.to_string()),
    }
}

pub open spec fn too_many_elements_message() -> Seq<char> {
    "too many elements for XDR vector: xdr value max length exceeded"@
}

/// A bounded `VecM` from a `Vec`: refused, with a readable error, exactly
/// when it holds more than `N` items.
pub fn vecm<T, const N: u32>(items: Vec<T>) -> (r: Result<VecM<T, N>, String>)
    ensures
        r is Ok <==> items.len() <= N,
        r matches Err(e) ==> e@ == too_many_elements_message(),
{
    match vecm_try_from::<T, N>(items) {
        Ok(v) => Ok(v),
        Err(e) => {
            let msg = concat("too many elements for XDR vector: ", e.as_str());
            proof {
                reveal_strlit("too many elements for XDR vector: ");
                reveal_strlit("xdr value max length exceeded");
                reveal_strlit("too many elements for XDR vector: xdr value max length exceeded");
                assert(msg@ =~= too_many_elements_message());
            }
            Err(msg)
        },
    }
}

} // verus!
