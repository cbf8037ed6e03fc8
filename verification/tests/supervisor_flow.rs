use vaultvisor::error::Error;
use vaultvisor::release::ClientRelease;
use vaultvisor::retry::{next_retry_delay, RetryPolicy};
use vaultvisor::supervisor::{plan_bootstrap, TickAction, Vaultvisor};

fn release(uri: &str, fill: u8) -> ClientRelease {
    ClientRelease {
        uri: uri.as_bytes().to_vec(),
        code_hash: vec![fill; 32],
    }
}

fn started(pid: u32) -> Vaultvisor {
    let mut v = Vaultvisor::new(vec![], b".".to_vec());
    let rel = plan_bootstrap(Ok(Some(release("http://fake/vault-1.0", 0)))).unwrap();
    let plan = v.plan_download_binary(&rel).unwrap();
    v.record_download_binary(rel, plan);
    v.record_spawned(pid);
    v
}

#[test]
fn cold_start_single_release() {
    let mut v = Vaultvisor::new(vec![], b".".to_vec());
    let rel = plan_bootstrap(Ok(Some(release("http://fake/vault-1.0", 0)))).unwrap();
    assert_eq!(rel.uri, b"http://fake/vault-1.0".to_vec());

    let plan = v.plan_download_binary(&rel).unwrap();
    assert_eq!(plan.bin_name, b"vault-1.0".to_vec());
    assert_eq!(plan.bin_path, b"./vault-1.0".to_vec());
    assert_eq!(plan.mode, 0o700);
    v.record_download_binary(rel, plan);

    let cmd = v.plan_run_binary().unwrap();
    assert_eq!(cmd, b"./vault-1.0".to_vec());
    v.record_spawned(4242);
    assert_eq!(v.child_proc, Some(4242));

    // A shutdown signal terminates and reaps the child.
    let pid = v.plan_terminate().unwrap();
    assert_eq!(pid, 4242);
    v.record_terminated();
    assert!(v.child_proc.is_none());
}

#[test]
fn rolling_upgrade_replaces_child() {
    let mut v = started(100);

    // Two ticks with the chain unchanged: nothing happens.
    for _ in 0..2 {
        let act = v.plan_tick(Ok(Some(release("http://fake/vault-1.0", 0))));
        assert_eq!(act, TickAction::Noop);
        assert_eq!(v.child_proc, Some(100));
    }

    // The chain switches to a new release.
    let act = v.plan_tick(Ok(Some(release("http://fake/vault-1.1", 1))));
    let newer = match act {
        TickAction::Upgrade(u) => u,
        other => panic!("expected an upgrade, got {:?}", other),
    };

    let pid = v.plan_terminate().unwrap();
    assert_eq!(pid, 100);
    v.record_terminated();
    let removed = v.plan_delete_download().unwrap();
    assert_eq!(removed, b"./vault-1.0".to_vec());
    v.record_deleted();
    let plan = v.plan_download_binary(&newer).unwrap();
    assert_eq!(plan.bin_path, b"./vault-1.1".to_vec());
    v.record_download_binary(newer, plan);
    v.record_spawned(101);

    assert_eq!(v.child_proc, Some(101));
    assert_eq!(
        v.downloaded_release.as_ref().unwrap().bin_name,
        b"vault-1.1".to_vec()
    );
}

#[test]
fn rpc_flaps_leave_child_alone() {
    let mut v = started(7);
    let policy = RetryPolicy::Bounded {
        delay_ms: 1000,
        max_attempts: 5,
    };

    // Three consecutive failures are all retried.
    for made in 0..3u32 {
        assert_eq!(next_retry_delay(&policy, made), Some(1000));
    }

    // Then the chain answers with the unchanged release.
    let act = v.plan_tick(Ok(Some(release("http://fake/vault-1.0", 0))));
    assert_eq!(act, TickAction::Noop);
    assert_eq!(v.child_proc, Some(7));

    // A tick whose read failed for good surfaces the error.
    let act = v.plan_tick(Err(Error::TransientRpc));
    assert_eq!(act, TickAction::Fail(Error::TransientRpc));
}

#[test]
fn startup_with_no_release_fails_fast() {
    let v = Vaultvisor::new(vec![], b".".to_vec());
    let r = plan_bootstrap(Ok(None));
    assert_eq!(r, Err(Error::NoCurrentRelease));
    assert!(v.downloaded_release.is_none());
    assert!(v.child_proc.is_none());
}

#[test]
fn delete_on_empty_state_is_error() {
    let v = Vaultvisor::new(vec![], b".".to_vec());
    let r = v.plan_delete_download();
    assert_eq!(r, Err(Error::NoDownloadedRelease));
    assert!(v.downloaded_release.is_none());
    assert!(v.child_proc.is_none());
    // Calling it again reports the same and still changes nothing.
    let r = v.plan_delete_download();
    assert_eq!(r, Err(Error::NoDownloadedRelease));
    assert!(v.downloaded_release.is_none());
}

#[test]
fn same_uri_tick_is_noop() {
    let v = started(9);
    // The same URI under a different code hash is still no change.
    let act = v.plan_tick(Ok(Some(release("http://fake/vault-1.0", 3))));
    assert_eq!(act, TickAction::Noop);
}

#[test]
fn missing_value_after_success_is_no_change() {
    let v = started(9);
    let act = v.plan_tick(Ok(None));
    assert_eq!(act, TickAction::Noop);
}

#[test]
fn spawn_refused_while_child_lives() {
    let mut v = started(9);
    assert_eq!(v.plan_run_binary(), Err(Error::ChildProcessExists));
    v.plan_terminate().unwrap();
    v.record_terminated();
    assert!(v.plan_run_binary().is_ok());
}

#[test]
fn spawn_refused_without_download() {
    let v = Vaultvisor::new(vec![], b".".to_vec());
    assert_eq!(v.plan_run_binary(), Err(Error::NoDownloadedRelease));
}

#[test]
fn terminate_without_child_is_error() {
    let v = Vaultvisor::new(vec![], b".".to_vec());
    assert_eq!(v.plan_terminate(), Err(Error::NoChildProcess));
}

#[test]
fn spawn_command_is_the_installed_path() {
    // The child is launched from the download directory, not the CWD.
    let mut v = Vaultvisor::new(vec![], b"/opt/bin".to_vec());
    let rel = release("http://fake/vault-1.0", 0);
    let plan = v.plan_download_binary(&rel).unwrap();
    assert_eq!(plan.bin_path, b"/opt/bin/vault-1.0".to_vec());
    v.record_download_binary(rel, plan);
    assert_eq!(v.plan_run_binary().unwrap(), b"/opt/bin/vault-1.0".to_vec());
}

#[test]
fn failed_effects_leave_the_books_alone() {
    // Planning a termination without recording it, as after a failed
    // signal, keeps the child on the books.
    let mut v = started(55);
    assert_eq!(v.plan_terminate(), Ok(55));
    assert_eq!(v.child_proc, Some(55));
    // Planning a deletion without recording it, as after a failed
    // removal, keeps the download on the books.
    v.record_terminated();
    assert_eq!(v.plan_delete_download(), Ok(b"./vault-1.0".to_vec()));
    assert!(v.downloaded_release.is_some());
}

#[test]
fn tick_without_download_fails() {
    let v = Vaultvisor::new(vec![], b".".to_vec());
    let act = v.plan_tick(Ok(Some(release("http://fake/vault-1.0", 0))));
    assert_eq!(act, TickAction::Fail(Error::NoDownloadedRelease));
}

#[test]
fn bootstrap_passes_errors_through() {
    let r = plan_bootstrap(Err(Error::DecodeError));
    assert_eq!(r, Err(Error::DecodeError));
}

#[test]
fn unbounded_policy_always_retries() {
    let policy = RetryPolicy::ConstantUnbounded { delay_ms: 500 };
    assert_eq!(next_retry_delay(&policy, 0), Some(500));
    assert_eq!(next_retry_delay(&policy, 1_000_000), Some(500));
}

#[test]
fn bounded_policy_exhausts() {
    let policy = RetryPolicy::Bounded {
        delay_ms: 250,
        max_attempts: 2,
    };
    assert_eq!(next_retry_delay(&policy, 0), Some(250));
    assert_eq!(next_retry_delay(&policy, 1), Some(250));
    assert_eq!(next_retry_delay(&policy, 2), None);
    assert_eq!(next_retry_delay(&policy, 3), None);
}
