use devbox_core::error::{AppError, OperationData};
use devbox_core::escape::{spawn_plan, SpawnPlan};
use devbox_core::process::{ProcessRecord, ProcessRegistry, StreamKind, WaitOutcome};
use devbox_core::session::{command_line, export_line, SessionRecord, SessionRegistry};

fn rt() -> tokio::runtime::Runtime {
    tokio::runtime::Builder::new_multi_thread().enable_all().build().unwrap()
}

#[test]
fn test_exec_records_interleaved_streams() {
    // One line on each stream, the way the log pumps hand them over:
    // both land in the ring with their tags, and a successful exit marks
    // the record completed with exit code 0.
    let mut reg = ProcessRegistry::new();
    reg.register(ProcessRecord::new(
        "p1".to_string(),
        Some(12345),
        "sh".to_string(),
        None,
        1700000000,
    ));

    let entry = reg.append_line("p1", StreamKind::Stdout, "hi\n").unwrap();
    assert_eq!(entry, "[stdout] hi\n");
    let entry = reg.append_line("p1", StreamKind::Stderr, "err\n").unwrap();
    assert_eq!(entry, "[stderr] err\n");
    assert!(reg.append_line("gone", StreamKind::Stdout, "x\n").is_none());

    reg.apply_wait(
        "p1",
        &WaitOutcome::Exited { code: Some(0), signal: None },
        1700000001,
    );

    let logs = reg.logs_snapshot("p1", None).unwrap();
    assert_eq!(logs.process_status, "completed");
    assert_eq!(logs.exit_code, Some(0));
    assert!(logs.logs.contains(&"[stdout] hi\n".to_string()));
    assert!(logs.logs.contains(&"[stderr] err\n".to_string()));
}

#[test]
fn test_failed_exit_records_its_code() {
    // The waiter writing a non-zero exit, as running `false` reports it.
    let mut reg = ProcessRegistry::new();
    reg.register(ProcessRecord::new(
        "p2".to_string(),
        Some(12346),
        "false".to_string(),
        None,
        1700000000,
    ));
    reg.apply_wait(
        "p2",
        &WaitOutcome::Exited { code: Some(1), signal: None },
        1700000001,
    );
    let st = reg.status_of("p2").unwrap();
    assert_eq!(st.process_status, "failed");
    assert_eq!(st.exit_code, Some(1));
}

#[test]
fn test_missing_binary_is_127() {
    let app_err = devbox_core::process::sync_spawn_failure(
        "definitely-not-a-binary",
        true,
        "No such file or directory (os error 2)",
        5,
        "1970-01-01T00:00:00Z".to_string(),
        "1970-01-01T00:00:00Z".to_string(),
    );
    assert_eq!(app_err.status().code(), 1600);
    match app_err {
        AppError::OperationError(msg, OperationData::SyncExec(data)) => {
            assert_eq!(msg, "");
            assert_eq!(data.exit_code, Some(127));
            assert_eq!(data.stdout, "");
            assert_eq!(
                data.stderr,
                "exec: \"definitely-not-a-binary\": executable file not found in $PATH"
            );
        }
        _ => panic!("expected an operation error with sync-exec data"),
    }
}

#[test]
fn test_timeout_kill_converges_nonzero() {
    // A child killed at its deadline: the OS reports the terminating
    // signal, the record converges to killed with 128 + signal.
    let mut reg = ProcessRegistry::new();
    reg.register(ProcessRecord::new(
        "p3".to_string(),
        Some(12347),
        "sleep 10".to_string(),
        None,
        1700000000,
    ));
    reg.apply_wait(
        "p3",
        &WaitOutcome::Exited { code: None, signal: Some(9) },
        1700000002,
    );
    let st = reg.status_of("p3").unwrap();
    assert_eq!(st.process_status, "killed");
    assert_eq!(st.exit_code, Some(128 + 9));
    assert_eq!(st.end_time, Some("2023-11-14T22:13:22Z".to_string()));
}

#[test]
fn test_kill_then_kill_conflicts() {
    // A real child, killed through the registry: the first kill is
    // delivered and marks the record killed, the second conflicts.
    rt().block_on(async {
        let plan = spawn_plan("sleep", &Some(vec!["10".to_string()]), &None);
        let mut cmd = match plan {
            SpawnPlan::Direct { program, args } => {
                let mut c = tokio::process::Command::new(program);
                c.args(args);
                c
            }
            SpawnPlan::Shell { .. } => panic!("expected a direct plan"),
        };
        let mut child = cmd.spawn().expect("spawn sleep");
        let pid = child.id();
        assert!(pid.is_some());

        let mut reg = ProcessRegistry::new();
        reg.register(ProcessRecord::new(
            "p4".to_string(),
            pid,
            "sleep".to_string(),
            None,
            1700000000,
        ));

        // No signal name means SIGKILL; a delivered SIGKILL marks the
        // record killed at once.
        let first = reg.kill("p4", None);
        assert!(matches!(first, Ok(resp) if resp.success));
        assert_eq!(reg.status_of("p4").unwrap().process_status, "killed");

        // A second kill on the same id is a conflict.
        match reg.kill("p4", None) {
            Err(AppError::Conflict(m)) => assert_eq!(m, "Process is not running"),
            _ => panic!("second kill must conflict"),
        }

        // An unknown id is not found.
        assert!(matches!(reg.kill("nope", None), Err(AppError::NotFound(_))));

        // The waiter still owns the exit; the status stays killed even
        // after its write.
        let _ = child.wait().await;
        reg.apply_wait(
            "p4",
            &WaitOutcome::Exited { code: None, signal: Some(9) },
            1700000003,
        );
        assert_eq!(reg.status_of("p4").unwrap().process_status, "killed");
        assert_eq!(reg.status_of("p4").unwrap().exit_code, Some(137));
    });
}

#[test]
fn test_kill_with_sigterm_leaves_status_to_waiter() {
    rt().block_on(async {
        let mut cmd = tokio::process::Command::new("sleep");
        cmd.arg("10");
        let mut child = cmd.spawn().expect("spawn sleep");
        let pid = child.id();

        let mut reg = ProcessRegistry::new();
        reg.register(ProcessRecord::new(
            "p5".to_string(),
            pid,
            "sleep".to_string(),
            None,
            1700000000,
        ));

        // A SIGTERM is delivered but does not mark the record killed;
        // the waiter performs the terminal transition.
        let first = reg.kill("p5", Some("SIGTERM"));
        assert!(matches!(first, Ok(resp) if resp.success));
        assert_eq!(reg.status_of("p5").unwrap().process_status, "running");

        let _ = child.wait().await;
        reg.apply_wait(
            "p5",
            &WaitOutcome::Exited { code: None, signal: Some(15) },
            1700000004,
        );
        let st = reg.status_of("p5").unwrap();
        assert_eq!(st.process_status, "killed");
        assert_eq!(st.exit_code, Some(143));
    });
}

#[test]
fn test_session_exec_and_logs() {
    // The session substrate without a live shell: the injected command
    // is logged as a `[exec]` line, the pumped output follows, and the
    // stub reply carries no output.
    let mut reg = SessionRegistry::new();
    let rec = SessionRecord::new(
        "s1".to_string(),
        Some(4242),
        "/bin/bash".to_string(),
        "/tmp".to_string(),
        vec![],
        None,
        None,
        1700000000,
    );
    reg.register(rec);

    let created = reg.status_of("s1").unwrap();
    assert_eq!(created.session_id, "s1");
    assert_eq!(created.shell, "/bin/bash");
    assert_eq!(created.cwd, "/tmp");
    assert_eq!(created.session_status, "active");

    assert_eq!(command_line("pwd"), "pwd\n");
    let entry = reg.log_exec("s1", "pwd").unwrap();
    assert_eq!(entry, "[exec] pwd");
    reg.append_line("s1", StreamKind::Stdout, "/tmp\n");

    let stub = devbox_core::session::session_exec_stub();
    assert_eq!(stub.exit_code, 0);
    assert_eq!(stub.stdout, "");
    assert_eq!(stub.stderr, "");
    assert_eq!(stub.duration, 0);

    let logs = reg.logs_snapshot("s1", Some(10)).unwrap();
    assert_eq!(logs.session_id, "s1");
    assert_eq!(logs.logs, vec!["[exec] pwd", "[stdout] /tmp\n"]);

    // Once the record is cleaned up, every session operation misses.
    reg.apply_exit("s1");
    assert_eq!(reg.status_of("s1").unwrap().session_status, "terminated");
    reg.remove("s1");
    assert!(matches!(reg.status_of("s1"), Err(AppError::NotFound(_))));
    assert!(matches!(reg.has_stdin("s1"), Err(AppError::NotFound(_))));
    assert!(matches!(reg.cd_plan("s1", "src", "/tmp"), Err(AppError::NotFound(_))));
    assert!(matches!(
        reg.update_env("s1", &vec![("A".to_string(), "1".to_string())], 1700000005),
        Err(AppError::NotFound(_))
    ));
    assert!(matches!(reg.logs_snapshot("s1", None), Err(AppError::NotFound(_))));
}

#[test]
fn test_session_env_and_cd() {
    let mut reg = SessionRegistry::new();
    let rec = SessionRecord::new(
        "s2".to_string(),
        None,
        "/bin/bash".to_string(),
        "/ws".to_string(),
        vec![("HOME".to_string(), "/root".to_string())],
        None,
        None,
        1700000000,
    );
    reg.register(rec);

    // Environment updates merge and come back as export lines in order.
    let lines = reg
        .update_env(
            "s2",
            &vec![
                ("HOME".to_string(), "/home/dev".to_string()),
                ("LANG".to_string(), "C".to_string()),
            ],
            1700000001,
        )
        .unwrap();
    assert_eq!(lines, vec!["export HOME=/home/dev\n", "export LANG=C\n"]);
    let st = reg.status_of("s2").unwrap();
    assert_eq!(
        st.env,
        vec![
            ("HOME".to_string(), "/home/dev".to_string()),
            ("LANG".to_string(), "C".to_string())
        ]
    );
    assert_eq!(export_line("K", "V"), "export K=V\n");

    // A relative cd resolves against the session's cwd, an absolute one
    // against the workspace root.
    let resolved = reg.cd_plan("s2", "sub/dir", "/workspace").unwrap();
    assert_eq!(resolved, "/ws/sub/dir");
    let entry = reg.cd_commit("s2", &resolved).unwrap();
    assert_eq!(entry, "[cd] /ws/sub/dir");
    assert_eq!(reg.status_of("s2").unwrap().cwd, "/ws/sub/dir");

    let resolved = reg.cd_plan("s2", "/etc", "/workspace").unwrap();
    assert_eq!(resolved, "/etc");

    // The shell child exiting flips the session to terminated.
    reg.apply_exit("s2");
    assert_eq!(reg.status_of("s2").unwrap().session_status, "terminated");
}

#[test]
fn test_process_status_views_and_list() {
    let mut reg = ProcessRegistry::new();
    reg.register(ProcessRecord::new(
        "pa".to_string(),
        Some(42),
        "sleep 99".to_string(),
        None,
        0,
    ));
    let st = reg.status_of("pa").unwrap();
    assert_eq!(st.process_id, "pa");
    assert_eq!(st.pid, Some(42));
    assert_eq!(st.command, "sleep 99");
    assert_eq!(st.process_status, "running");
    assert_eq!(st.start_time, "1970-01-01T00:00:00Z");
    assert_eq!(st.end_time, None);
    assert_eq!(st.exit_code, None);

    reg.apply_wait("pa", &WaitOutcome::Exited { code: Some(3), signal: None }, 86399);
    let st = reg.status_of("pa").unwrap();
    assert_eq!(st.process_status, "failed");
    assert_eq!(st.exit_code, Some(3));
    assert_eq!(st.end_time, Some("1970-01-01T23:59:59Z".to_string()));

    assert_eq!(reg.list().len(), 1);
    reg.remove("pa");
    assert_eq!(reg.list().len(), 0);
    assert!(matches!(reg.logs_snapshot("pa", None), Err(AppError::NotFound(_))));

    // A wait on a failing OS call keeps the record failed without an
    // invented exit code.
    let mut reg = ProcessRegistry::new();
    reg.register(ProcessRecord::new("pb".to_string(), None, "x".to_string(), None, 0));
    reg.apply_wait("pb", &WaitOutcome::WaitFailed, 1);
    let st = reg.status_of("pb").unwrap();
    assert_eq!(st.process_status, "failed");
    assert_eq!(st.exit_code, None);
}

#[test]
fn test_started_and_created_responses() {
    let r = devbox_core::process::exec_started_response("p9".to_string(), Some(7));
    assert_eq!(r.process_id, "p9");
    assert_eq!(r.pid, Some(7));
    assert_eq!(r.process_status, "running");

    let r = devbox_core::session::session_created_response(
        "s9".to_string(),
        "/bin/bash".to_string(),
        "/home/devbox/project".to_string(),
    );
    assert_eq!(r.session_id, "s9");
    assert_eq!(r.shell, "/bin/bash");
    assert_eq!(r.cwd, "/home/devbox/project");
    assert_eq!(r.session_status, "active");
}
