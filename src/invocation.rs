use vstd::prelude::*;
use crate::error::PasswdError;

verus! {

/// The account a command acts on: the login given on the command line, or
/// else the name of the invoking user, looked up from the real user id. An
/// invoking user without an account entry is `IdentityNotFound`.
pub fn resolve_account(login: Option<String>, own_name: Option<String>) -> (r: Result<
    String,
    PasswdError,
>)
    ensures
        login matches Some(l) ==> r == Ok::<String, PasswdError>(l),
        login is None ==> (own_name matches Some(n) ==> r == Ok::<String, PasswdError>(n)),
        login is None ==> (own_name is None ==> r == Err::<String, PasswdError>(
            PasswdError::IdentityNotFound,
        )),
{
    match login {
        Some(l) => Ok(l),
        None => match own_name {
            Some(n) => Ok(n),
            None => Err(PasswdError::IdentityNotFound),
        },
    }
}

/// Whether a requested operation may go on: one that needs elevated rights
/// is refused with `PermissionDenied` unless the effective user is root.
pub fn check_privilege(needs_root: bool, effective_root: bool) -> (r: Result<(), PasswdError>)
    ensures
        r is Ok <==> (!needs_root || effective_root),
        r matches Err(e) ==> e == PasswdError::PermissionDenied,
{
    if needs_root && !effective_root {
        Err(PasswdError::PermissionDenied)
    } else {
        Ok(())
    }
}

} // verus!
