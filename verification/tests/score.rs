use openclaw_installer::security::{build_result, compute_score, score_label, AuditFinding, AuditReport, AuditSummary};

fn counts(critical: u32, warn: u32, info: u32) -> AuditSummary {
    AuditSummary { critical, warn, info }
}

#[test]
fn clean_report_scores_100_and_is_good() {
    let score = compute_score(&counts(0, 0, 0));
    assert_eq!(score, 100);
    assert_eq!(score_label(score), "Good");
}

#[test]
fn one_critical_costs_25() {
    assert_eq!(compute_score(&counts(1, 0, 0)), 75);
}

#[test]
fn four_criticals_reach_the_floor() {
    assert_eq!(compute_score(&counts(4, 0, 0)), 1);
}

#[test]
fn ten_warnings_are_on_the_review_boundary() {
    let score = compute_score(&counts(0, 10, 0));
    assert_eq!(score, 50);
    assert_eq!(score_label(score), "Review recommended");
}

#[test]
fn eleven_warnings_need_action() {
    let score = compute_score(&counts(0, 11, 0));
    assert_eq!(score, 45);
    assert_eq!(score_label(score), "Action needed");
}

#[test]
fn each_info_costs_one() {
    assert_eq!(compute_score(&counts(0, 0, 7)), 93);
    assert_eq!(compute_score(&counts(0, 0, 98)), 2);
    assert_eq!(compute_score(&counts(0, 0, 99)), 1);
    assert_eq!(compute_score(&counts(0, 0, 100)), 1);
}

#[test]
fn mixed_counts_add_up() {
    assert_eq!(compute_score(&counts(1, 2, 3)), 62);
    assert_eq!(compute_score(&counts(3, 4, 3)), 2);
    assert_eq!(compute_score(&counts(3, 4, 4)), 1);
}

#[test]
fn score_stays_in_range_for_huge_counts() {
    let samples = [
        counts(u32::MAX, u32::MAX, u32::MAX),
        counts(u32::MAX, 0, 0),
        counts(0, u32::MAX, 0),
        counts(0, 0, u32::MAX),
        counts(171_798_692, 0, 0),
        counts(85_899_346, 0, 0),
        counts(0, 0, 4_294_967_196),
        counts(5000, 5000, 5000),
    ];
    for s in samples.iter() {
        assert_eq!(compute_score(s), 1);
    }
}

#[test]
fn score_stays_in_range_for_small_counts() {
    for critical in 0..6u32 {
        for warn in 0..25u32 {
            for info in 0..110u32 {
                let score = compute_score(&counts(critical, warn, info));
                assert!(1 <= score && score <= 100);
                let raw = 100i64 - (critical as i64 * 25 + warn as i64 * 5 + info as i64);
                assert_eq!(score as i64, raw.clamp(1, 100));
            }
        }
    }
}

#[test]
fn label_bands_are_inclusive_below() {
    assert_eq!(score_label(100), "Good");
    assert_eq!(score_label(80), "Good");
    assert_eq!(score_label(79), "Review recommended");
    assert_eq!(score_label(50), "Review recommended");
    assert_eq!(score_label(49), "Action needed");
    assert_eq!(score_label(1), "Action needed");
    assert_eq!(score_label(0), "Action needed");
    assert_eq!(score_label(u32::MAX), "Good");
}

#[test]
fn result_is_built_from_the_report() {
    let finding = AuditFinding {
        check_id: "gateway.bind".to_string(),
        severity: "critical".to_string(),
        title: "Gateway is public".to_string(),
        detail: "Listening on 0.0.0.0".to_string(),
        remediation: Some("Bind to loopback".to_string()),
    };
    let report = AuditReport { summary: counts(1, 2, 3), findings: vec![finding.clone()] };
    let result = build_result(report);
    assert_eq!(result.score, 62);
    assert_eq!(result.label, "Review recommended");
    assert_eq!(result.critical, 1);
    assert_eq!(result.warn, 2);
    assert_eq!(result.info, 3);
    assert_eq!(result.message, "1 critical, 2 warn, 3 info");
    assert_eq!(result.findings, vec![finding]);
}

#[test]
fn message_writes_large_counts_in_full() {
    let report = AuditReport { summary: counts(4294967295, 1000, 10), findings: vec![] };
    let result = build_result(report);
    assert_eq!(result.message, "4294967295 critical, 1000 warn, 10 info");
    assert_eq!(result.score, 1);
    assert_eq!(result.label, "Action needed");
}
