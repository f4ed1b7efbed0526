use openclaw_installer::run::{Invocation, ProcessOutput};
use openclaw_installer::security::{
    audit_command, decode_audit, decode_finding, decode_findings, decode_report, decode_summary,
    decode_with_fix, fix_command, parse_report, run_audit, run_fix, AuditFinding, AuditReport, AuditSummary,
};

fn ran(status: Option<i32>, stdout: &str, stderr: &str) -> Result<ProcessOutput, String> {
    Ok(ProcessOutput { status, stdout: stdout.as_bytes().to_vec(), stderr: stderr.as_bytes().to_vec() })
}

fn json(text: &str) -> serde_json::Value {
    serde_json::from_str(text).unwrap()
}

fn finding(check_id: &str, severity: &str, title: &str, detail: &str, remediation: Option<&str>) -> AuditFinding {
    AuditFinding {
        check_id: check_id.to_string(),
        severity: severity.to_string(),
        title: title.to_string(),
        detail: detail.to_string(),
        remediation: remediation.map(|r| r.to_string()),
    }
}

fn args_of(list: &[&str]) -> Vec<String> {
    list.iter().map(|s| s.to_string()).collect()
}

const SHAPE_A: &str = r#"{"report":{"summary":{"critical":1,"warn":2,"info":3},"findings":[]}}"#;
const SHAPE_B: &str = r#"{"summary":{"critical":1,"warn":2,"info":3},"findings":[]}"#;

#[test]
fn both_shapes_give_the_same_report() {
    let a = parse_report(SHAPE_A);
    let b = parse_report(SHAPE_B);
    let expected = AuditReport { summary: AuditSummary { critical: 1, warn: 2, info: 3 }, findings: vec![] };
    assert_eq!(a, Some(expected));
    assert_eq!(a, b);
}

#[test]
fn both_shapes_give_the_same_result() {
    let a = run_audit(ran(Some(0), SHAPE_A, "")).unwrap();
    let b = run_audit(ran(Some(0), SHAPE_B, "")).unwrap();
    assert_eq!(a, b);
    assert_eq!(a.score, 62);
    assert_eq!(a.label, "Review recommended");
    assert_eq!((a.critical, a.warn, a.info), (1, 2, 3));
    assert_eq!(a.message, "1 critical, 2 warn, 3 info");
    assert!(a.findings.is_empty());
}

#[test]
fn shape_with_fix_comes_first() {
    let text = r#"{
        "fix": {"applied": 2},
        "report": {"summary": {"critical": 0, "warn": 1, "info": 0}, "findings": []},
        "summary": {"critical": 9, "warn": 9, "info": 9},
        "findings": []
    }"#;
    let report = parse_report(text).unwrap();
    assert_eq!(report.summary, AuditSummary { critical: 0, warn: 1, info: 0 });
}

#[test]
fn broken_fix_shape_falls_back_to_the_top_level() {
    let text = r#"{
        "report": {"summary": {"critical": 0, "warn": 1}, "findings": []},
        "summary": {"critical": 2, "warn": 0, "info": 0},
        "findings": []
    }"#;
    let report = parse_report(text).unwrap();
    assert_eq!(report.summary, AuditSummary { critical: 2, warn: 0, info: 0 });
    let text = r#"{"report": "none", "summary": {"critical": 0, "warn": 0, "info": 5}, "findings": []}"#;
    assert_eq!(parse_report(text).unwrap().summary.info, 5);
}

#[test]
fn findings_keep_their_order_and_fields() {
    let text = r#"{
        "summary": {"critical": 1, "warn": 1, "info": 1, "total": 3},
        "findings": [
            {"check_id": "z.last", "severity": "info", "title": "T1", "detail": "D1"},
            {"check_id": "a.first", "severity": "critical", "title": "T2", "detail": "D2", "remediation": "Do it", "extra": [1, 2]},
            {"check_id": "m.mid", "severity": "warn", "title": "", "detail": "D3", "remediation": null}
        ],
        "generated_at": "now"
    }"#;
    let report = parse_report(text).unwrap();
    assert_eq!(report.summary, AuditSummary { critical: 1, warn: 1, info: 1 });
    assert_eq!(
        report.findings,
        vec![
            finding("z.last", "info", "T1", "D1", None),
            finding("a.first", "critical", "T2", "D2", Some("Do it")),
            finding("m.mid", "warn", "", "D3", None),
        ]
    );
    let result = run_audit(ran(Some(0), text, "")).unwrap();
    assert_eq!(result.findings, report.findings);
    assert_eq!(result.score, 69);
    assert_eq!(result.label, "Review recommended");
}

#[test]
fn missing_required_fields_fail() {
    for text in [
        r#"{"summary":{"critical":1,"warn":2},"findings":[]}"#,
        r#"{"summary":{"critical":1,"warn":2,"info":3}}"#,
        r#"{"findings":[]}"#,
        r#"{}"#,
        r#"{"summary":{"critical":1,"warn":2,"info":3},"findings":[{"check_id":"a","severity":"b","title":"c"}]}"#,
        r#"{"summary":{"critical":1,"warn":2,"info":3},"findings":[{"severity":"b","title":"c","detail":"d"}]}"#,
        r#"{"report":{"summary":{"critical":1,"warn":2,"info":3}}}"#,
    ] {
        assert_eq!(parse_report(text), None, "{}", text);
    }
}

#[test]
fn fields_of_the_wrong_kind_fail() {
    for text in [
        r#"{"summary":{"critical":-1,"warn":2,"info":3},"findings":[]}"#,
        r#"{"summary":{"critical":1.5,"warn":2,"info":3},"findings":[]}"#,
        r#"{"summary":{"critical":"1","warn":2,"info":3},"findings":[]}"#,
        r#"{"summary":{"critical":4294967296,"warn":2,"info":3},"findings":[]}"#,
        r#"{"summary":{"critical":1,"warn":2,"info":null},"findings":[]}"#,
        r#"{"summary":[1,2,3],"findings":[]}"#,
        r#"{"summary":{"critical":1,"warn":2,"info":3},"findings":{}}"#,
        r#"{"summary":{"critical":1,"warn":2,"info":3},"findings":null}"#,
        r#"{"summary":{"critical":1,"warn":2,"info":3},"findings":["x"]}"#,
        r#"{"summary":{"critical":1,"warn":2,"info":3},"findings":[{"check_id":1,"severity":"b","title":"c","detail":"d"}]}"#,
        r#"{"summary":{"critical":1,"warn":2,"info":3},"findings":[{"check_id":"a","severity":"b","title":"c","detail":"d","remediation":7}]}"#,
        r#"[]"#,
        r#"null"#,
        r#"3"#,
        r#""text""#,
    ] {
        assert_eq!(parse_report(text), None, "{}", text);
    }
}

#[test]
fn largest_count_is_read() {
    let text = r#"{"summary":{"critical":4294967295,"warn":0,"info":0},"findings":[]}"#;
    assert_eq!(parse_report(text).unwrap().summary.critical, u32::MAX);
}

#[test]
fn text_that_is_no_json_fails() {
    for text in ["", "   ", "Error: gateway not running", "{", r#"{"summary":}"#, "{} {}", "{} trailing"] {
        assert_eq!(parse_report(text), None, "{:?}", text);
    }
}

#[test]
fn white_space_round_the_document_is_accepted() {
    let text = format!("\n  {}\r\n", SHAPE_B);
    assert!(parse_report(&text).is_some());
}

#[test]
fn decoding_reads_each_part() {
    assert_eq!(
        decode_summary(&json(r#"{"critical":7,"warn":8,"info":9}"#)),
        Some(AuditSummary { critical: 7, warn: 8, info: 9 })
    );
    assert_eq!(decode_summary(&json(r#"{"critical":7,"warn":8}"#)), None);
    assert_eq!(decode_summary(&json(r#"[7,8,9]"#)), None);
    assert_eq!(
        decode_finding(&json(r#"{"check_id":"a","severity":"b","title":"c","detail":"d","remediation":"e"}"#)),
        Some(finding("a", "b", "c", "d", Some("e")))
    );
    assert_eq!(decode_finding(&json(r#"{"check_id":"a","severity":"b","title":"c","detail":null}"#)), None);
    let list = json(r#"[{"check_id":"a","severity":"b","title":"c","detail":"d"}]"#);
    assert_eq!(decode_findings(list.as_array().unwrap()), Some(vec![finding("a", "b", "c", "d", None)]));
    assert_eq!(decode_findings(json("[]").as_array().unwrap()), Some(vec![]));
    assert_eq!(decode_findings(json("[{}]").as_array().unwrap()), None);
}

#[test]
fn decoding_tells_the_shapes_apart() {
    let a = json(SHAPE_A);
    let b = json(SHAPE_B);
    assert!(decode_with_fix(&a).is_some());
    assert!(decode_with_fix(&b).is_none());
    assert!(decode_report(&a).is_none());
    assert!(decode_report(&b).is_some());
    assert_eq!(decode_with_fix(&a).unwrap().report, decode_report(&b).unwrap());
    assert_eq!(decode_audit(&a), decode_audit(&b));
    assert_eq!(decode_audit(&a), decode_report(&b));
}

#[test]
fn non_zero_exit_with_a_report_is_no_failure() {
    let result = run_audit(ran(Some(1), SHAPE_B, "warning: degraded")).unwrap();
    assert_eq!(result.score, 62);
    let result = run_audit(ran(None, SHAPE_A, "")).unwrap();
    assert_eq!(result.score, 62);
}

#[test]
fn output_that_is_no_json_quotes_both_streams() {
    let err = run_audit(ran(Some(0), "  Error: not JSON\n", "\n boom \t")).unwrap_err();
    assert_eq!(err, "Could not parse audit JSON. stdout: Error: not JSON stderr: boom");
    assert!(err.contains("Error: not JSON"));
    assert!(err.contains("boom"));
}

#[test]
fn empty_output_gives_the_bare_parse_error() {
    let err = run_audit(ran(Some(2), "", "")).unwrap_err();
    assert_eq!(err, "Could not parse audit JSON. stdout:  stderr: ");
}

#[test]
fn json_of_another_shape_is_a_parse_error() {
    let err = run_audit(ran(Some(0), r#"{"ok":true}"#, "")).unwrap_err();
    assert_eq!(err, r#"Could not parse audit JSON. stdout: {"ok":true} stderr: "#);
}

#[test]
fn invalid_bytes_in_the_output_are_replaced() {
    let out = ProcessOutput { status: Some(0), stdout: vec![b' ', 0xC3, b'x'], stderr: vec![0xFF, b'\n'] };
    let err = run_audit(Ok(out)).unwrap_err();
    assert_eq!(err, "Could not parse audit JSON. stdout: \u{FFFD}x stderr: \u{FFFD}");
}

#[test]
fn audit_that_cannot_start_says_so() {
    let err = run_audit(Err("program not found".to_string())).unwrap_err();
    assert_eq!(err, "Failed to run openclaw: program not found");
}

#[test]
fn audit_invocation_follows_the_depth() {
    assert_eq!(
        audit_command(false, false),
        Invocation { program: "openclaw".to_string(), args: args_of(&["security", "audit", "--json"]) }
    );
    assert_eq!(
        audit_command(true, false),
        Invocation { program: "openclaw".to_string(), args: args_of(&["security", "audit", "--json", "--deep"]) }
    );
    assert_eq!(
        audit_command(true, true),
        Invocation {
            program: "cmd".to_string(),
            args: args_of(&["/C", "openclaw", "security", "audit", "--json", "--deep"]),
        }
    );
}

#[test]
fn fix_invocation_is_fixed() {
    assert_eq!(
        fix_command(false),
        Invocation { program: "openclaw".to_string(), args: args_of(&["security", "audit", "--fix"]) }
    );
    assert_eq!(
        fix_command(true),
        Invocation { program: "cmd".to_string(), args: args_of(&["/C", "openclaw", "security", "audit", "--fix"]) }
    );
}

#[test]
fn fix_success_returns_trimmed_stdout() {
    assert_eq!(run_fix(ran(Some(0), "  fixed 2 issues\n", "noise")), (true, "fixed 2 issues".to_string()));
    assert_eq!(run_fix(ran(Some(0), "", "")), (true, String::new()));
}

#[test]
fn fix_failure_puts_stderr_first() {
    assert_eq!(run_fix(ran(Some(1), " out \n", " err \n")), (false, "err out".to_string()));
    assert_eq!(run_fix(ran(Some(1), "", "")), (false, " ".to_string()));
    assert_eq!(run_fix(ran(None, "out", "")), (false, " out".to_string()));
}

#[test]
fn fix_that_cannot_start_returns_the_error() {
    assert_eq!(run_fix(Err("No such file".to_string())), (false, "No such file".to_string()));
}

#[test]
fn fix_does_not_read_json() {
    assert_eq!(run_fix(ran(Some(0), SHAPE_A, "")), (true, SHAPE_A.to_string()));
}

#[test]
fn fix_success_is_trimmed_of_invalid_bytes_too() {
    let out = ProcessOutput { status: Some(0), stdout: vec![b' ', 0x80, b' '], stderr: vec![] };
    assert_eq!(run_fix(Ok(out)), (true, "\u{FFFD}".to_string()));
}
