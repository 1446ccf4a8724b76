use provisioner::remote::{
    collect_payload, compose_create_command, compose_delete_command, conclude_deletion_run,
    conclude_run, join_lines, strip_marker, ExecError, SessionEnding,
};

fn lines(raw: &[&str]) -> Vec<Vec<u8>> {
    raw.iter().map(|l| l.as_bytes().to_vec()).collect()
}

#[test]
fn marked_lines_are_stripped_and_joined_in_order() {
    let out = lines(&[
        "starting up",
        "[KUBECONFIG] apiVersion: v1",
        "progress 50%",
        "[KUBECONFIG] clusters:",
        "[KUBECONFIG] - name: c1",
        "done",
    ]);
    let payload = conclude_run(&out, SessionEnding::Exited { code: 0 }).expect("payload owed");
    assert_eq!(payload, b"apiVersion: v1\nclusters:\n- name: c1".to_vec());
}

#[test]
fn unmarked_lines_never_appear_in_the_payload() {
    let out = lines(&["plain", "KUBECONFIG without brackets", " [KUBECONFIG] indented"]);
    assert_eq!(
        conclude_run(&out, SessionEnding::Exited { code: 0 }),
        Err(ExecError::EmptyPayload)
    );
}

#[test]
fn marker_must_be_a_prefix_with_trailing_space() {
    assert_eq!(strip_marker(&b"[KUBECONFIG] x".to_vec()), Some(b"x".to_vec()));
    assert_eq!(strip_marker(&b"[KUBECONFIG]x".to_vec()), None);
    assert_eq!(strip_marker(&b"[KUBECONFIG] ".to_vec()), Some(Vec::new()));
    assert_eq!(strip_marker(&b"[KUBECONFIG".to_vec()), None);
}

#[test]
fn collect_and_join_compose_the_payload() {
    let out = lines(&["[KUBECONFIG] a", "x", "[KUBECONFIG] b"]);
    let fragments = collect_payload(&out);
    assert_eq!(fragments, vec![b"a".to_vec(), b"b".to_vec()]);
    assert_eq!(join_lines(&fragments), b"a\nb".to_vec());
}

#[test]
fn timeout_error_is_distinct_from_exit_failure() {
    let out = lines(&["[KUBECONFIG] a"]);
    let timed_out = conclude_run(&out, SessionEnding::TimedOut).unwrap_err();
    let failed = conclude_run(&out, SessionEnding::Exited { code: 2 }).unwrap_err();
    assert_eq!(timed_out, ExecError::TimedOut);
    assert_eq!(failed, ExecError::ScriptFailed { code: 2 });
    assert_ne!(timed_out, failed);
}

#[test]
fn each_failure_condition_is_distinct() {
    let out: Vec<Vec<u8>> = Vec::new();
    let endings = [
        (SessionEnding::ConnectFailed, ExecError::ConnectFailed),
        (SessionEnding::SpawnFailed, ExecError::SpawnFailed),
        (SessionEnding::CaptureFailed, ExecError::CaptureFailed),
        (SessionEnding::TimedOut, ExecError::TimedOut),
        (SessionEnding::WaitFailed, ExecError::WaitFailed),
        (SessionEnding::Exited { code: 7 }, ExecError::ScriptFailed { code: 7 }),
    ];
    for (ending, expected) in endings {
        assert_eq!(conclude_run(&out, ending), Err(expected));
    }
    assert_eq!(conclude_run(&out, SessionEnding::Exited { code: 0 }), Err(ExecError::EmptyPayload));
}

#[test]
fn deletion_wants_only_a_clean_exit() {
    assert_eq!(conclude_deletion_run(SessionEnding::Exited { code: 0 }), Ok(()));
    assert_eq!(
        conclude_deletion_run(SessionEnding::Exited { code: 1 }),
        Err(ExecError::ScriptFailed { code: 1 })
    );
    assert_eq!(conclude_deletion_run(SessionEnding::TimedOut), Err(ExecError::TimedOut));
}

#[test]
fn create_command_is_composed_exactly() {
    let cmd = compose_create_command(
        &b"/opt/scripts/create-cluster.sh".to_vec(),
        &b"c1".to_vec(),
        4,
        8,
        50,
    );
    assert_eq!(
        cmd,
        b"bash /opt/scripts/create-cluster.sh -n 'c1' -c 4 -m '8g' -d '50g'".to_vec()
    );
}

#[test]
fn create_command_quotes_a_hostile_name() {
    let cmd = compose_create_command(&b"/s.sh".to_vec(), &b"a'; rm -rf /'".to_vec(), 1, 2, 3);
    assert_eq!(
        cmd,
        b"bash /s.sh -n 'a'\\''; rm -rf /'\\''' -c 1 -m '2g' -d '3g'".to_vec()
    );
}

#[test]
fn create_command_renders_negative_sizes() {
    let cmd = compose_create_command(&b"/s.sh".to_vec(), &b"n".to_vec(), -2, 0, 10);
    assert_eq!(cmd, b"bash /s.sh -n 'n' -c -2 -m '0g' -d '10g'".to_vec());
}

#[test]
fn delete_command_is_composed_exactly() {
    let cmd = compose_delete_command(&b"/opt/scripts/delete-cluster.sh".to_vec(), &b"c1".to_vec());
    assert_eq!(cmd, b"bash /opt/scripts/delete-cluster.sh 'c1'".to_vec());
}
