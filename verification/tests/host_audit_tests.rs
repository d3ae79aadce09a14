use rcw::audit::AuditCategory;
use rcw::host_audit::{
    command_audit_details, sanitize_audit_text, upload_audit_details, CommandArgs, HostAuditRecord, JsonKind,
    JsonShape,
};
use rcw::protocol::{ExecArgs, KeyboardTypeArgs, UploadArgs, COMMAND_EXEC, COMMAND_KEYBOARD_TYPE};

#[test]
fn keyboard_type_audit_records_only_text_length() {
    let args = CommandArgs::KeyboardType(KeyboardTypeArgs { text: "password=super-secret".to_owned() });
    let shape = JsonShape::Object(vec![("text".to_owned(), JsonKind::String)]);
    let details = command_audit_details(COMMAND_KEYBOARD_TYPE, &args, &shape);

    assert_eq!(details.category, AuditCategory::Input);
    assert_eq!(details.args_summary.as_deref(), Some("text_len=21 text_bytes=21"));
    assert_eq!(details.bytes, Some(21));
    assert!(!details.args_summary.as_deref().unwrap().contains("super-secret"));
}

#[test]
fn exec_audit_summarizes_program_without_argv_values() {
    let args = CommandArgs::Exec(ExecArgs {
        program: "C:\\Tools\\pwsh.exe".to_owned(),
        argv: vec!["-Command".to_owned(), "Write-Host token=abc".to_owned()],
        cwd: Some("C:\\Users\\Alice\\Documents".to_owned()),
        timeout_ms: Some(1000),
    });
    let shape = JsonShape::Object(vec![
        ("program".to_owned(), JsonKind::String),
        ("argv".to_owned(), JsonKind::Array),
        ("cwd".to_owned(), JsonKind::String),
        ("timeout_ms".to_owned(), JsonKind::Number),
    ]);
    let details = command_audit_details(COMMAND_EXEC, &args, &shape);

    assert_eq!(details.category, AuditCategory::Exec);
    assert_eq!(details.args_summary.as_deref(), Some("program=pwsh.exe argv_count=2 timeout_ms=1000"));
    assert_eq!(details.path_summary.as_deref(), Some("cwd_basename=Documents"));
    assert!(!details.args_summary.unwrap().contains("Write-Host"));
}

#[test]
fn upload_audit_uses_basename_and_structured_size_hash() {
    let args = UploadArgs {
        remote_path: "C:\\Users\\Alice\\Secrets\\report.txt".to_owned(),
        overwrite: false,
        sha256: "abc123".to_owned(),
        size: 42,
    };
    let details = upload_audit_details(&args);

    assert_eq!(details.category, AuditCategory::Transfer);
    assert_eq!(details.path_summary.as_deref(), Some("basename=report.txt"));
    assert_eq!(details.size, Some(42));
    assert_eq!(details.sha256.as_deref(), Some("abc123"));
}

#[test]
fn sensitive_assignments_are_redacted() {
    let sanitized = sanitize_audit_text("token=abc password:hunter2 api-key=secret Bearer raw-token");

    assert_eq!(sanitized, "token=[redacted] password:[redacted] api-key=[redacted] Bearer [redacted]");
}

#[test]
fn host_record_maps_to_common_audit_event() {
    let mut record = HostAuditRecord::new(AuditCategory::Exec, "command.complete");
    record.request_id = Some("req".to_owned());
    record.task_id = Some("task".to_owned());
    record.command = Some(COMMAND_EXEC.to_owned());
    record.command_kind = Some(COMMAND_EXEC.to_owned());
    record.args_summary = Some("token=abc".to_owned());

    let event = record.into_audit_event("machine".to_owned(), "host".to_owned());

    assert_eq!(event.category, Some(AuditCategory::Exec));
    assert_eq!(event.machine_id.as_deref(), Some("machine"));
    assert_eq!(event.host_id.as_deref(), Some("host"));
    assert_eq!(event.args_summary.as_deref(), Some("token=[redacted]"));
}

#[test]
fn typed_texts_of_equal_length_are_audited_alike() {
    let shape = JsonShape::Object(vec![("text".to_owned(), JsonKind::String)]);
    let one = command_audit_details(
        COMMAND_KEYBOARD_TYPE,
        &CommandArgs::KeyboardType(KeyboardTypeArgs { text: "hunter22".to_owned() }),
        &shape,
    );
    let two = command_audit_details(
        COMMAND_KEYBOARD_TYPE,
        &CommandArgs::KeyboardType(KeyboardTypeArgs { text: "abcdefgh".to_owned() }),
        &shape,
    );
    assert_eq!(one.args_summary, two.args_summary);
    assert_eq!(one.bytes, two.bytes);
    assert_eq!(one.args_summary.as_deref(), Some("text_len=8 text_bytes=8"));
}

#[test]
fn exec_argument_values_do_not_change_the_audit() {
    let shape = JsonShape::Object(vec![("program".to_owned(), JsonKind::String)]);
    let exec = |argv: Vec<String>| {
        command_audit_details(
            COMMAND_EXEC,
            &CommandArgs::Exec(ExecArgs {
                program: "/usr/bin/ssh".to_owned(),
                argv,
                cwd: None,
                timeout_ms: None,
            }),
            &shape,
        )
    };
    let one = exec(vec!["-p".to_owned(), "secret".to_owned()]);
    let two = exec(vec!["x".to_owned(), "y".to_owned()]);
    assert_eq!(one.args_summary, two.args_summary);
    assert_eq!(one.path_summary, two.path_summary);
    assert_eq!(one.args_summary.as_deref(), Some("program=ssh argv_count=2"));
}

#[test]
fn sanitizing_twice_changes_nothing() {
    let once = sanitize_audit_text("  run\tthis\n\nwith  token=abc and Bearer xyz  ");
    assert_eq!(once, "run this with token=[redacted] and Bearer [redacted]");
    assert_eq!(sanitize_audit_text(&once), once);
    let long = "word ".repeat(100);
    let cut = sanitize_audit_text(&long);
    assert_eq!(cut.chars().count(), 259);
    assert!(cut.ends_with("..."));
    assert!(!cut.contains("  "));
}
