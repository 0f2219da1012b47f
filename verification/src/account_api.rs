//! Where the account operations are served.

use crate::text::ends_with;
use vstd::prelude::*;

verus! {

/// The path under which all account operations stand.
pub const ACCOUNT_PATH: &'static str = "/v1/account";

/// Sign-up, below `ACCOUNT_PATH`.
pub const SIGN_UP_PATH: &'static str = "/signUp";

/// Sign-in, below `ACCOUNT_PATH`.
pub const SIGN_IN_PATH: &'static str = "/signIn";

/// Deletion, which is `ACCOUNT_PATH` itself.
pub const DELETE_ACCOUNT_PATH: &'static str = "";

/// Refresh, below `ACCOUNT_PATH`.
pub const REFRESH_TOKEN_PATH: &'static str = "/refreshToken";

/// Whether `path` leads to one of the operations that hand out tokens:
/// sign-up, sign-in and refresh. They are the only way to come by a token,
/// so they are open to callers who have none.
pub open spec fn is_open_path(path: Seq<char>) -> bool {
    SIGN_UP_PATH@.is_suffix_of(path) || SIGN_IN_PATH@.is_suffix_of(path)
        || REFRESH_TOKEN_PATH@.is_suffix_of(path)
}

/// Whether `path` leads to one of the operations that hand out tokens.
pub fn is_open_route(path: &str) -> (open: bool)
    ensures
        open == is_open_path(path@),
{
    ends_with(path, SIGN_UP_PATH) || ends_with(path, SIGN_IN_PATH) || ends_with(
        path,
        REFRESH_TOKEN_PATH,
    )
}

} // verus!
