//! Keys of the desktop client's local key-value store. Everything the
//! client keeps lives under the `mpgs.` namespace, except the session
//! token, which belongs in the platform's credential store.
use vstd::prelude::*;
use crate::text::{owned, seq_starts_with, str_eq, str_starts_with};

verus! {

/// The key the session token was once stored under.
pub const SESSION_KEY: &'static str = "mpgs.session.v1";

/// Why a key cannot be written or removed, if it cannot.
pub open spec fn client_key_problem(key: Seq<char>) -> Option<Seq<char>> {
    if key == "mpgs.session.v1"@ {
        Some("session tokens must use secure credential storage"@)
    } else if seq_starts_with(key, "mpgs."@) {
        None
    } else {
        Some("client storage key must use the mpgs namespace"@)
    }
}

/// Check a key of the client store: the session key is refused, and every
/// other key must start with `mpgs.`.
pub fn validate_client_key(key: &str) -> (r: Result<(), String>)
    ensures
        match client_key_problem(key@) {
            Some(m) => r matches Err(s) && s@ == m,
            None => r is Ok,
        },
{
    if str_eq(key, SESSION_KEY) {
        Err(owned("session tokens must use secure credential storage"))
    } else if str_starts_with(key, "mpgs.") {
        Ok(())
    } else {
        Err(owned("client storage key must use the mpgs namespace"))
    }
}

/// A client store key may be written or removed exactly when it starts with
/// "mpgs." and is not the session token's key "mpgs.session.v1".
pub proof fn lemma_client_key_rule(key: Seq<char>)
    ensures
        client_key_problem(key) is None <==> (seq_starts_with(key, "mpgs."@) && key != "mpgs.session.v1"@),
{
    reveal_strlit("mpgs.");
    reveal_strlit("mpgs.session.v1");
    if key == "mpgs.session.v1"@ {
        assert(key.subrange(0, 5) =~= "mpgs."@);
    }
}

} // verus!
