use passwd::anchor::{anchor_start, anchor_step, AnchorAction, AnchorState};
use passwd::error::{PasswdError, E_FAILURE, E_NOPERM};
use passwd::invocation::{check_privilege, resolve_account};

#[test]
fn relative_root_is_refused_first() {
    let (s, a) = anchor_start("relative/dir");
    assert_eq!(s, AnchorState::Failed);
    assert_eq!(a, AnchorAction::Abort(PasswdError::NotAbsolute("relative/dir".to_string())));
    let (s, a) = anchor_start("");
    assert_eq!(s, AnchorState::Failed);
    assert_eq!(a, AnchorAction::Abort(PasswdError::NotAbsolute(String::new())));
}

#[test]
fn absolute_root_is_probed_first() {
    assert_eq!(anchor_start("/srv/jail"), (AnchorState::Probing, AnchorAction::Probe));
}

#[test]
fn failed_probe_aborts_without_changing_directory() {
    let (s, a) = anchor_step(AnchorState::Probing, Err("No such file or directory".to_string()));
    assert_eq!(s, AnchorState::Failed);
    assert_eq!(
        a,
        AnchorAction::Abort(PasswdError::Inaccessible("No such file or directory".to_string()))
    );
}

#[test]
fn anchor_runs_probe_chdir_chroot_in_order() {
    let (s, a) = anchor_step(AnchorState::Probing, Ok(()));
    assert_eq!((s, a), (AnchorState::ChangingDir, AnchorAction::ChangeDir));
    let (s, a) = anchor_step(AnchorState::ChangingDir, Ok(()));
    assert_eq!((s, a), (AnchorState::ChangingRoot, AnchorAction::ChangeRoot));
    let (s, a) = anchor_step(AnchorState::ChangingRoot, Ok(()));
    assert_eq!((s, a), (AnchorState::Anchored, AnchorAction::Finish));
}

#[test]
fn failed_chdir_or_chroot_is_io() {
    let (s, a) = anchor_step(AnchorState::ChangingDir, Err("denied".to_string()));
    assert_eq!(s, AnchorState::Failed);
    assert_eq!(a, AnchorAction::Abort(PasswdError::Io("denied".to_string())));
    let (_, a) = anchor_step(AnchorState::ChangingRoot, Err("EPERM".to_string()));
    assert_eq!(a, AnchorAction::Abort(PasswdError::Io("EPERM".to_string())));
}

#[test]
fn account_from_login_or_identity() {
    assert_eq!(resolve_account(Some("bob".to_string()), None), Ok("bob".to_string()));
    assert_eq!(
        resolve_account(Some("bob".to_string()), Some("me".to_string())),
        Ok("bob".to_string())
    );
    assert_eq!(resolve_account(None, Some("me".to_string())), Ok("me".to_string()));
    assert_eq!(resolve_account(None, None), Err(PasswdError::IdentityNotFound));
}

#[test]
fn privilege_and_exit_codes() {
    assert_eq!(check_privilege(true, false), Err(PasswdError::PermissionDenied));
    assert_eq!(check_privilege(true, true), Ok(()));
    assert_eq!(check_privilege(false, false), Ok(()));
    assert_eq!(PasswdError::PermissionDenied.exit_code(), E_NOPERM);
    assert_eq!(PasswdError::CorruptEntry("x".to_string()).exit_code(), E_FAILURE);
    assert_eq!(PasswdError::IdentityNotFound.exit_code(), E_FAILURE);
    assert_eq!(PasswdError::NotAbsolute("a".to_string()).exit_code(), E_FAILURE);
}
