use devbox_core::config::{mask_token, resolve_config, ConfigEnv};
use devbox_core::escape::{shell_escape, spawn_plan, SpawnPlan};
use devbox_core::fileio::parse_mode;
use devbox_core::auth::check_auth;
use devbox_core::error::AppError;
use devbox_core::response::{ApiResponse, Status};
use devbox_core::timefmt::format_time;

#[test]
fn test_format_time_epoch_and_leap_years() {
    assert_eq!(format_time(0), "1970-01-01T00:00:00Z");
    assert_eq!(format_time(86399), "1970-01-01T23:59:59Z");
    assert_eq!(format_time(1672531200), "2023-01-01T00:00:00Z");
    // 2000 is a leap year (divisible by 400).
    assert_eq!(format_time(951826154), "2000-02-29T12:09:14Z");
    // 2100 is not a leap year (divisible by 100, not 400).
    assert_eq!(format_time(4107542399), "2100-02-28T23:59:59Z");
}

#[test]
fn test_shell_escape() {
    assert_eq!(shell_escape(""), "''");
    assert_eq!(shell_escape("abc_123"), "abc_123");
    assert_eq!(shell_escape("a/b.c:d@e,f+g-h"), "a/b.c:d@e,f+g-h");
    assert_eq!(shell_escape("hello world"), "'hello world'");
    assert_eq!(shell_escape("it's"), "'it'\\''s'");
    assert_eq!(shell_escape("$HOME"), "'$HOME'");
}

#[test]
fn test_spawn_plan_shapes() {
    // A shell request becomes one `-c` script with escaped arguments.
    let plan = spawn_plan(
        "echo",
        &Some(vec!["a b".to_string(), "c".to_string()]),
        &Some("/bin/sh".to_string()),
    );
    match plan {
        SpawnPlan::Shell { shell, script } => {
            assert_eq!(shell, "/bin/sh");
            assert_eq!(script, "echo 'a b' c");
        }
        _ => panic!("expected a shell plan"),
    }

    // Explicit arguments pass through unchanged.
    let plan = spawn_plan("printf", &Some(vec!["%s".to_string()]), &None);
    match plan {
        SpawnPlan::Direct { program, args } => {
            assert_eq!(program, "printf");
            assert_eq!(args, vec!["%s".to_string()]);
        }
        _ => panic!("expected a direct plan"),
    }

    // A bare command with whitespace is split into tokens.
    let plan = spawn_plan("echo hi there", &None, &None);
    match plan {
        SpawnPlan::Direct { program, args } => {
            assert_eq!(program, "echo");
            assert_eq!(args, vec!["hi".to_string(), "there".to_string()]);
        }
        _ => panic!("expected a direct plan"),
    }

    // A bare single token runs as it is.
    let plan = spawn_plan("false", &None, &None);
    match plan {
        SpawnPlan::Direct { program, args } => {
            assert_eq!(program, "false");
            assert!(args.is_empty());
        }
        _ => panic!("expected a direct plan"),
    }
}

#[test]
fn test_parse_mode_forms() {
    assert_eq!(parse_mode("755").unwrap(), 0o755);
    assert_eq!(parse_mode("0755").unwrap(), 0o755);
    assert_eq!(parse_mode("0o644").unwrap(), 0o644);
    assert_eq!(parse_mode(" 700 ").unwrap(), 0o700);
    match parse_mode("") {
        Err(AppError::BadRequest(m)) => assert_eq!(m, "Mode cannot be empty"),
        _ => panic!("empty mode must be rejected"),
    }
    match parse_mode("9x") {
        Err(AppError::BadRequest(m)) => assert_eq!(m, "Invalid mode (expect octal like 755)"),
        _ => panic!("non-octal mode must be rejected"),
    }
}

#[test]
fn test_check_auth() {
    // Health endpoints bypass authentication.
    assert!(check_auth("/health", None, Some("tok")));
    assert!(check_auth("/health/ready", None, Some("tok")));
    // Everything else needs the exact bearer token.
    assert!(check_auth("/api/v1/process/list", Some("Bearer tok"), Some("tok")));
    assert!(!check_auth("/api/v1/process/list", Some("Bearer wrong"), Some("tok")));
    assert!(!check_auth("/api/v1/process/list", Some("tok"), Some("tok")));
    assert!(!check_auth("/api/v1/process/list", None, Some("tok")));
    assert!(!check_auth("/api/v1/process/list", Some("Bearer tok"), None));
}

#[test]
fn test_resolve_config_precedence() {
    // Flags override the environment; the token falls back in order.
    let env = ConfigEnv {
        addr: Some("1.2.3.4:1000".to_string()),
        workspace_path: None,
        max_file_size: Some("1234".to_string()),
        token: None,
        token_fallback: Some("fallback_tok".to_string()),
    };
    let args = vec![
        "server".to_string(),
        "--addr=0.0.0.0:2000".to_string(),
        "--max-file-size=not-a-number".to_string(),
    ];
    let cfg = resolve_config(env, &args, "minted00".to_string());
    assert_eq!(cfg.addr, "0.0.0.0:2000");
    assert_eq!(cfg.workspace_path, "/home/devbox/project");
    assert_eq!(cfg.max_file_size, 1234);
    assert_eq!(cfg.token, Some("fallback_tok".to_string()));

    // Defaults apply when nothing is set, and the minted token fills in.
    let env = ConfigEnv {
        addr: None,
        workspace_path: None,
        max_file_size: None,
        token: None,
        token_fallback: None,
    };
    let cfg = resolve_config(env, &vec![], "minted00".to_string());
    assert_eq!(cfg.addr, "0.0.0.0:9757");
    assert_eq!(cfg.max_file_size, 104857600);
    assert_eq!(cfg.token, Some("minted00".to_string()));

    // TOKEN beats the fallback variable.
    let env = ConfigEnv {
        addr: None,
        workspace_path: None,
        max_file_size: None,
        token: Some("test_token_1".to_string()),
        token_fallback: Some("test_jwt_1".to_string()),
    };
    let cfg = resolve_config(env, &vec![], "minted00".to_string());
    assert_eq!(cfg.token, Some("test_token_1".to_string()));
}

#[test]
fn test_mask_token() {
    assert_eq!(mask_token("abcdefghij"), "abc******hij");
    assert_eq!(mask_token("abc"), "******");
    assert_eq!(mask_token("abcdef"), "******");
}

#[test]
fn test_status_codes_and_envelope() {
    assert_eq!(Status::Success.code(), 0);
    assert_eq!(Status::Panic.code(), 500);
    assert_eq!(Status::ValidationError.code(), 1400);
    assert_eq!(Status::Unauthorized.code(), 1401);
    assert_eq!(Status::Forbidden.code(), 1403);
    assert_eq!(Status::NotFound.code(), 1404);
    assert_eq!(Status::Conflict.code(), 1409);
    assert_eq!(Status::InvalidRequest.code(), 1422);
    assert_eq!(Status::InternalError.code(), 1500);
    assert_eq!(Status::OperationError.code(), 1600);
    // The HTTP status stays 200 for everything except a panic.
    assert_eq!(Status::Panic.http_status(), 500);
    assert_eq!(Status::NotFound.http_status(), 200);
    assert_eq!(Status::OperationError.http_status(), 200);

    let ok = ApiResponse::success(42u32);
    assert_eq!(ok.status, Status::Success);
    assert_eq!(ok.message, "success");
    assert_eq!(ok.data, 42);
    let err = ApiResponse::error(Status::NotFound, "missing".to_string(), 0u32);
    assert_eq!(err.status, Status::NotFound);
    assert_eq!(err.message, "missing");
}

#[test]
fn test_app_error_mapping() {
    assert_eq!(AppError::NotFound("x".to_string()).status(), Status::NotFound);
    assert_eq!(AppError::Conflict("x".to_string()).status(), Status::Conflict);
    assert_eq!(AppError::BadRequest("x".to_string()).status(), Status::InvalidRequest);
    assert_eq!(AppError::Validation("x".to_string()).status(), Status::ValidationError);
    let e = AppError::Conflict("Process is not running".to_string());
    assert_eq!(e.message(), "Process is not running");
    assert_eq!(e.describe(), "Conflict: Process is not running");
}

#[test]
fn test_health_payloads() {
    let h = devbox_core::health::health_response(73, "0.1.0".to_string());
    assert_eq!(h.health_status, "ok");
    assert_eq!(h.uptime, "73s");
    assert_eq!(h.version, "0.1.0");
    let r = devbox_core::health::readiness_response(true);
    assert_eq!(r.readiness_status, "ready");
    assert!(r.workspace);
    let r = devbox_core::health::readiness_response(false);
    assert_eq!(r.readiness_status, "not_ready");
}
