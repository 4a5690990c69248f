//! The authorization gate: who may act on whose behalf.
//!
//! Identities are compared as text. The bridge-origin test in particular
//! looks only at how the caller's name begins; it does not authenticate where
//! a message came from, and an embedding that receives messages from another
//! chain has to establish that by other means before it calls in.

use vstd::prelude::*;
use crate::text::has_prefix;
use crate::text::str_eq;
use crate::text::str_starts_with;

verus! {

/// The identity that may replace the ledger's configuration.
pub open spec fn admin_principal() -> Seq<char> {
    "admin_principal_here"@
}

/// Whether `caller`'s name marks it as a bridge origin.
pub open spec fn valid_cross_chain_caller(caller: Seq<char>) -> bool {
    has_prefix(caller, "axelar"@) || has_prefix(caller, "injective"@)
}

/// A caller acts for itself when it names its own identity.
pub fn is_self(caller: &str, principal: &str) -> (allowed: bool)
    ensures
        allowed == (caller@ == principal@),
{
    str_eq(caller, principal)
}

/// Whether `caller` is the administrator.
pub fn is_admin(caller: &str) -> (allowed: bool)
    ensures
        allowed == (caller@ == admin_principal()),
{
    str_eq(caller, "admin_principal_here")
}

/// Whether `caller` may forward deposits from the other chain: its name
/// begins with `axelar` or with `injective`.
pub fn is_valid_cross_chain_caller(caller: &str) -> (allowed: bool)
    ensures
        allowed == valid_cross_chain_caller(caller@),
{
    str_starts_with(caller, "axelar") || str_starts_with(caller, "injective")
}

} // verus!
