//! Security audit: the report of `openclaw security audit --json`, its score
//! from 1 to 100, and what the audit and fix commands come to.

use vstd::prelude::*;
use crate::json::{
    as_array, as_str, as_u64, is_null, json_document, json_tree, json_trees, member, parse,
    JsonTree,
};
use crate::run::{command, command_plan, texts, Invocation, ProcessOutput};
use crate::text::{contains_text, decimal, decimal_string, occurs_at, trim, trimmed};

verus! {

/// Counts of findings by severity.
#[derive(Clone, Copy, Debug, PartialEq, Eq, Structural)]
pub struct AuditSummary {
    pub critical: u32,
    pub warn: u32,
    pub info: u32,
}

/// One issue that the audit found.
#[derive(Debug, PartialEq, Eq)]
pub struct AuditFinding {
    pub check_id: String,
    pub severity: String,
    pub title: String,
    pub detail: String,
    pub remediation: Option<String>,
}

/// A finding as plain text.
pub struct FindingView {
    pub check_id: Seq<char>,
    pub severity: Seq<char>,
    pub title: Seq<char>,
    pub detail: Seq<char>,
    pub remediation: Option<Seq<char>>,
}

/// The view of a text that may be absent.
pub open spec fn optional_text(s: Option<String>) -> Option<Seq<char>> {
    match s {
        Some(t) => Some(t@),
        None => None,
    }
}

impl View for AuditFinding {
    type V = FindingView;

    open spec fn view(&self) -> FindingView {
        FindingView {
            check_id: self.check_id@,
            severity: self.severity@,
            title: self.title@,
            detail: self.detail@,
            remediation: optional_text(self.remediation),
        }
    }
}

impl Clone for AuditFinding {
    fn clone(&self) -> (copy: Self)
        ensures
            copy@ == self@,
    {
        AuditFinding {
            check_id: self.check_id.clone(),
            severity: self.severity.clone(),
            title: self.title.clone(),
            detail: self.detail.clone(),
            remediation: match &self.remediation {
                Some(t) => Some(t.clone()),
                None => None,
            },
        }
    }
}

/// The views of a list of findings, in order.
pub open spec fn finding_views(list: Seq<AuditFinding>) -> Seq<FindingView> {
    Seq::new(list.len(), |i: int| list[i]@)
}

/// Copies a list of findings.
pub fn clone_findings(list: &Vec<AuditFinding>) -> (copy: Vec<AuditFinding>)
    ensures
        finding_views(copy@) == finding_views(list@),
{
    let mut copy: Vec<AuditFinding> = Vec::new();
    let mut i: usize = 0;
    while i < list.len()
        invariant
            i <= list.len(),
            copy.len() == i,
            forall|j: int| 0 <= j < i ==> (#[trigger] copy@[j])@ == list@[j]@,
        decreases list.len() - i,
    {
        copy.push(list[i].clone());
        i += 1;
    }
    assert(finding_views(copy@) =~= finding_views(list@));
    copy
}

/// The body of an audit report: the counts and the findings, in the order given.
#[derive(Debug, PartialEq, Eq)]
pub struct AuditReport {
    pub summary: AuditSummary,
    pub findings: Vec<AuditFinding>,
}

/// A report as plain values.
pub struct ReportView {
    pub summary: AuditSummary,
    pub findings: Seq<FindingView>,
}

impl View for AuditReport {
    type V = ReportView;

    open spec fn view(&self) -> ReportView {
        ReportView { summary: self.summary, findings: finding_views(self.findings@) }
    }
}

/// The shape that the tool prints when it also returns a fix: the report
/// under the member `report`.
#[derive(Debug, PartialEq, Eq)]
pub struct AuditWithFix {
    pub report: AuditReport,
}

impl View for AuditWithFix {
    type V = ReportView;

    open spec fn view(&self) -> ReportView {
        self.report@
    }
}

/// What an audit comes to: the score and its label, the counts, a one-line
/// message and the findings.
#[derive(Debug, PartialEq, Eq)]
pub struct AuditResult {
    pub score: u32,
    pub label: String,
    pub critical: u32,
    pub warn: u32,
    pub info: u32,
    pub message: String,
    pub findings: Vec<AuditFinding>,
}

/// An audit result as plain values.
pub struct AuditResultView {
    pub score: u32,
    pub label: Seq<char>,
    pub critical: u32,
    pub warn: u32,
    pub info: u32,
    pub message: Seq<char>,
    pub findings: Seq<FindingView>,
}

impl AuditResultView {
    /// Whether the result is what its own counts come to: the score is theirs
    /// and lies from 1 to 100, the label is that of the score, and the message
    /// is that of the counts.
    pub open spec fn well_formed(self) -> bool {
        let summary = AuditSummary { critical: self.critical, warn: self.warn, info: self.info };
        &&& 1 <= self.score <= 100
        &&& self.score == score_of(summary)
        &&& self.label == label_of(self.score as int)
        &&& self.message == summary_message(summary)
    }
}

impl View for AuditResult {
    type V = AuditResultView;

    open spec fn view(&self) -> AuditResultView {
        AuditResultView {
            score: self.score,
            label: self.label@,
            critical: self.critical,
            warn: self.warn,
            info: self.info,
            message: self.message@,
            findings: finding_views(self.findings@),
        }
    }
}

impl Clone for AuditResult {
    fn clone(&self) -> (copy: Self)
        ensures
            copy@ == self@,
    {
        AuditResult {
            score: self.score,
            label: self.label.clone(),
            critical: self.critical,
            warn: self.warn,
            info: self.info,
            message: self.message.clone(),
            findings: clone_findings(&self.findings),
        }
    }
}

/// Points taken off a clean score of 100: 25 for each critical finding,
/// 5 for each warning and 1 for each informational finding.
pub open spec fn deduction(summary: AuditSummary) -> int {
    summary.critical * 25 + summary.warn * 5 + summary.info
}

/// The health score of a summary: 100 less the deduction, kept within 1 and 100.
pub open spec fn score_of(summary: AuditSummary) -> int {
    let raw = 100 - deduction(summary);
    if raw < 1 {
        1
    } else if raw > 100 {
        100
    } else {
        raw
    }
}

/// Computes the score of a summary. No count is large enough to make the
/// arithmetic wrap: the score of a summary with many findings is 1.
pub fn compute_score(summary: &AuditSummary) -> (score: u32)
    ensures
        score == score_of(*summary),
        1 <= score <= 100,
{
    let critical = summary.critical as u64;
    let warn = summary.warn as u64;
    let info = summary.info as u64;
    let deduct: u64 = critical * 25 + warn * 5 + info;
    if deduct >= 99 {
        1
    } else {
        (100 - deduct) as u32
    }
}

/// The label of a score: `Good` from 80, `Review recommended` from 50,
/// `Action needed` below.
pub open spec fn label_of(score: int) -> Seq<char> {
    if score >= 80 {
        "Good"@
    } else if score >= 50 {
        "Review recommended"@
    } else {
        "Action needed"@
    }
}

/// Names the band that a score falls in.
pub fn score_label(score: u32) -> (label: &'static str)
    ensures
        label@ == label_of(score as int),
{
    if score >= 80 {
        "Good"
    } else if score >= 50 {
        "Review recommended"
    } else {
        "Action needed"
    }
}

/// The count that a JSON value holds: an integer from 0 that fits in 32 bits.
pub open spec fn count_of(v: JsonTree) -> Option<u32> {
    match v.natural() {
        Some(n) => if n <= u32::MAX {
            Some(n as u32)
        } else {
            None
        },
        None => None,
    }
}

/// The count under `key` in an object.
pub open spec fn count_member(v: JsonTree, key: Seq<char>) -> Option<u32> {
    match v.member(key) {
        Some(m) => count_of(m),
        None => None,
    }
}

/// The text under `key` in an object.
pub open spec fn text_member(v: JsonTree, key: Seq<char>) -> Option<Seq<char>> {
    match v.member(key) {
        Some(m) => m.text(),
        None => None,
    }
}

/// The text under `key` that an object may leave out or set to `null`. The
/// outer option is the outcome: nothing where the member is of another kind.
pub open spec fn optional_text_member(v: JsonTree, key: Seq<char>) -> Option<Option<Seq<char>>> {
    match v.member(key) {
        None => Some(None),
        Some(JsonTree::Null) => Some(None),
        Some(JsonTree::Text(t)) => Some(Some(t)),
        Some(_) => None,
    }
}

/// The summary that a JSON value holds: an object with the three counts.
pub open spec fn summary_of(v: JsonTree) -> Option<AuditSummary> {
    match (count_member(v, "critical"@), count_member(v, "warn"@), count_member(v, "info"@)) {
        (Some(critical), Some(warn), Some(info)) => Some(AuditSummary { critical, warn, info }),
        _ => None,
    }
}

/// The finding that a JSON value holds: an object with the four texts, and
/// `remediation` where it is given. Members of other names are passed over.
pub open spec fn finding_of(v: JsonTree) -> Option<FindingView> {
    match (
        text_member(v, "check_id"@),
        text_member(v, "severity"@),
        text_member(v, "title"@),
        text_member(v, "detail"@),
        optional_text_member(v, "remediation"@),
    ) {
        (Some(check_id), Some(severity), Some(title), Some(detail), Some(remediation)) => Some(
            FindingView { check_id, severity, title, detail, remediation },
        ),
        _ => None,
    }
}

/// The findings that a list of JSON values holds, in its order: all of them, or
/// nothing where one element is no finding.
pub open spec fn findings_of(list: Seq<JsonTree>) -> Option<Seq<FindingView>> {
    if forall|i: int| 0 <= i < list.len() ==> (#[trigger] finding_of(list[i])) is Some {
        Some(Seq::new(list.len(), |i: int| finding_of(list[i])->0))
    } else {
        None
    }
}

/// The report that a JSON value holds: an object with a summary under
/// `summary` and an array of findings under `findings`. Members of other
/// names are passed over.
pub open spec fn report_of(v: JsonTree) -> Option<ReportView> {
    match (v.member("summary"@), v.member("findings"@)) {
        (Some(s), Some(f)) => match (summary_of(s), f.elements()) {
            (Some(summary), Some(list)) => match findings_of(list) {
                Some(findings) => Some(ReportView { summary, findings }),
                None => None,
            },
            _ => None,
        },
        _ => None,
    }
}

/// The report of the shape with a fix: the one under the member `report`.
pub open spec fn with_fix_of(v: JsonTree) -> Option<ReportView> {
    match v.member("report"@) {
        Some(r) => report_of(r),
        None => None,
    }
}

/// The report of a document of either shape. The shape with a fix is tried
/// first; the document itself is read as a report where that fails.
pub open spec fn audit_report_of(v: JsonTree) -> Option<ReportView> {
    match with_fix_of(v) {
        Some(r) => Some(r),
        None => report_of(v),
    }
}

/// The report that a text holds: that of the JSON document it is.
pub open spec fn parsed_report(text: Seq<char>) -> Option<ReportView> {
    match json_document(text) {
        Some(v) => audit_report_of(v),
        None => None,
    }
}

/// The two shapes agree: an object that holds a report document under
/// `report`, whatever its other members, reads as that document itself does,
/// where that one is of the plain shape.
pub proof fn lemma_shapes_agree(body: JsonTree, others: Map<Seq<char>, JsonTree>)
    requires
        report_of(body) is Some,
        with_fix_of(body) is None,
    ensures
        audit_report_of(JsonTree::Object(others.insert("report"@, body))) == audit_report_of(body),
{
}

/// Members that are not asked for are passed over: a member of another name,
/// whatever it holds, changes neither the report that an object reads as, nor
/// the summary, nor the finding.
pub proof fn lemma_other_members_are_passed_over(
    members: Map<Seq<char>, JsonTree>,
    key: Seq<char>,
    value: JsonTree,
)
    ensures
        key != "report"@ && key != "summary"@ && key != "findings"@ ==> audit_report_of(
            JsonTree::Object(members.insert(key, value)),
        ) == audit_report_of(JsonTree::Object(members)),
        key != "critical"@ && key != "warn"@ && key != "info"@ ==> summary_of(
            JsonTree::Object(members.insert(key, value)),
        ) == summary_of(JsonTree::Object(members)),
        key != "check_id"@ && key != "severity"@ && key != "title"@ && key != "detail"@ && key
            != "remediation"@ ==> finding_of(JsonTree::Object(members.insert(key, value)))
            == finding_of(JsonTree::Object(members)),
{
}

/// A report needs its two members, a summary its three counts, and a finding
/// its four texts: an object that lacks one of them reads as nothing.
pub proof fn lemma_missing_member_fails(members: Map<Seq<char>, JsonTree>)
    ensures
        !members.dom().contains("summary"@) || !members.dom().contains("findings"@) ==> report_of(
            JsonTree::Object(members),
        ) is None,
        !members.dom().contains("critical"@) || !members.dom().contains("warn"@)
            || !members.dom().contains("info"@) ==> summary_of(JsonTree::Object(members)) is None,
        !members.dom().contains("check_id"@) || !members.dom().contains("severity"@)
            || !members.dom().contains("title"@) || !members.dom().contains("detail"@)
            ==> finding_of(JsonTree::Object(members)) is None,
{
}

/// The view of a report that may be absent.
pub open spec fn optional_report(r: Option<AuditReport>) -> Option<ReportView> {
    match r {
        Some(report) => Some(report@),
        None => None,
    }
}

/// Reads the count under `key`.
fn decode_count(v: &serde_json::Value, key: &str) -> (r: Option<u32>)
    ensures
        r == count_member(json_tree(*v), key@),
{
    match member(v, key) {
        Some(m) => match as_u64(m) {
            Some(n) => if n <= u32::MAX as u64 {
                Some(n as u32)
            } else {
                None
            },
            None => None,
        },
        None => None,
    }
}

/// Reads the text under `key`.
fn decode_text(v: &serde_json::Value, key: &str) -> (r: Option<String>)
    ensures
        optional_text(r) == text_member(json_tree(*v), key@),
{
    match member(v, key) {
        Some(m) => match as_str(m) {
            Some(s) => Some(s.to_owned()),
            None => None,
        },
        None => None,
    }
}

/// Reads the text under `key` that may be left out or `null`.
fn decode_optional_text(v: &serde_json::Value, key: &str) -> (r: Option<Option<String>>)
    ensures
        r is Some == optional_text_member(json_tree(*v), key@) is Some,
        r matches Some(t) ==> optional_text_member(json_tree(*v), key@) == Some(optional_text(t)),
{
    match member(v, key) {
        None => Some(None),
        Some(m) => if is_null(m) {
            Some(None)
        } else {
            match as_str(m) {
                Some(s) => Some(Some(s.to_owned())),
                None => None,
            }
        },
    }
}

/// Reads a summary from a JSON value.
pub fn decode_summary(v: &serde_json::Value) -> (r: Option<AuditSummary>)
    ensures
        r == summary_of(json_tree(*v)),
{
    let critical = decode_count(v, "critical");
    let warn = decode_count(v, "warn");
    let info = decode_count(v, "info");
    match (critical, warn, info) {
        (Some(critical), Some(warn), Some(info)) => Some(AuditSummary { critical, warn, info }),
        _ => None,
    }
}

/// Reads a finding from a JSON value.
pub fn decode_finding(v: &serde_json::Value) -> (r: Option<AuditFinding>)
    ensures
        r is Some == finding_of(json_tree(*v)) is Some,
        r matches Some(f) ==> finding_of(json_tree(*v)) == Some(f@),
{
    let check_id = decode_text(v, "check_id");
    let severity = decode_text(v, "severity");
    let title = decode_text(v, "title");
    let detail = decode_text(v, "detail");
    let remediation = decode_optional_text(v, "remediation");
    match (check_id, severity, title, detail, remediation) {
        (Some(check_id), Some(severity), Some(title), Some(detail), Some(remediation)) => Some(
            AuditFinding { check_id, severity, title, detail, remediation },
        ),
        _ => None,
    }
}

/// Reads the findings from the elements of a JSON array.
pub fn decode_findings(list: &Vec<serde_json::Value>) -> (r: Option<Vec<AuditFinding>>)
    ensures
        r is Some == findings_of(json_trees(list@)) is Some,
        r matches Some(f) ==> findings_of(json_trees(list@)) == Some(finding_views(f@)),
{
    let ghost trees = json_trees(list@);
    let mut findings: Vec<AuditFinding> = Vec::new();
    let mut i: usize = 0;
    while i < list.len()
        invariant
            i <= list.len(),
            findings.len() == i,
            trees == json_trees(list@),
            forall|j: int| 0 <= j < i ==> finding_of(trees[j]) == Some((#[trigger] findings@[j])@),
        decreases list.len() - i,
    {
        assert(trees[i as int] == json_tree(list@[i as int]));
        match decode_finding(&list[i]) {
            Some(f) => {
                findings.push(f);
            },
            None => {
                assert(!(finding_of(trees[i as int]) is Some));
                return None;
            },
        }
        i += 1;
    }
    proof {
        assert forall|j: int| 0 <= j < trees.len() implies (#[trigger] finding_of(trees[j])) is Some by {
            assert(finding_of(trees[j]) == Some(findings@[j]@));
        }
        assert(findings_of(trees)->0 =~= finding_views(findings@)) by {
            assert forall|j: int| 0 <= j < trees.len() implies findings_of(trees)->0[j]
                == finding_views(findings@)[j] by {
                assert(finding_of(trees[j]) == Some(findings@[j]@));
            }
        }
    }
    Some(findings)
}

/// Reads a report from a JSON value.
pub fn decode_report(v: &serde_json::Value) -> (r: Option<AuditReport>)
    ensures
        optional_report(r) == report_of(json_tree(*v)),
{
    let summary = match member(v, "summary") {
        Some(s) => decode_summary(s),
        None => None,
    };
    let findings = match member(v, "findings") {
        Some(f) => match as_array(f) {
            Some(list) => decode_findings(list),
            None => None,
        },
        None => None,
    };
    match (summary, findings) {
        (Some(summary), Some(findings)) => Some(AuditReport { summary, findings }),
        _ => None,
    }
}

/// Reads the shape with a fix from a JSON value.
pub fn decode_with_fix(v: &serde_json::Value) -> (r: Option<AuditWithFix>)
    ensures
        r is Some == with_fix_of(json_tree(*v)) is Some,
        r matches Some(w) ==> with_fix_of(json_tree(*v)) == Some(w@),
{
    match member(v, "report") {
        Some(inner) => match decode_report(inner) {
            Some(report) => Some(AuditWithFix { report }),
            None => None,
        },
        None => None,
    }
}

/// Reads a report from a JSON document of either shape.
pub fn decode_audit(v: &serde_json::Value) -> (r: Option<AuditReport>)
    ensures
        optional_report(r) == audit_report_of(json_tree(*v)),
{
    match decode_with_fix(v) {
        Some(with_fix) => Some(with_fix.report),
        None => decode_report(v),
    }
}

/// Reads a report from the text that the audit printed.
pub fn parse_report(text: &str) -> (r: Option<AuditReport>)
    ensures
        optional_report(r) == parsed_report(text@),
{
    match parse(text) {
        Some(v) => decode_audit(&v),
        None => None,
    }
}

/// The one-line message of a summary: the three counts in decimal, each with its name.
pub open spec fn summary_message(summary: AuditSummary) -> Seq<char> {
    decimal(summary.critical as nat) + " critical, "@ + decimal(summary.warn as nat) + " warn, "@
        + decimal(summary.info as nat) + " info"@
}

/// The result that a report comes to: its score and label, its counts as
/// they are, the message of the counts, and its findings in their order.
pub open spec fn result_of(report: ReportView) -> AuditResultView {
    AuditResultView {
        score: score_of(report.summary) as u32,
        label: label_of(score_of(report.summary)),
        critical: report.summary.critical,
        warn: report.summary.warn,
        info: report.summary.info,
        message: summary_message(report.summary),
        findings: report.findings,
    }
}

/// Scores a report and puts the result together.
pub fn build_result(report: AuditReport) -> (result: AuditResult)
    ensures
        result@ == result_of(report@),
        result@.well_formed(),
{
    let score = compute_score(&report.summary);
    let label = score_label(score).to_owned();
    let mut message = decimal_string(report.summary.critical as u64);
    message.append(" critical, ");
    message.append(decimal_string(report.summary.warn as u64).as_str());
    message.append(" warn, ");
    message.append(decimal_string(report.summary.info as u64).as_str());
    message.append(" info");
    AuditResult {
        score,
        label,
        critical: report.summary.critical,
        warn: report.summary.warn,
        info: report.summary.info,
        message,
        findings: report.findings,
    }
}

/// The arguments of the audit: `security audit --json`, and `--deep` for a deep audit.
pub open spec fn audit_args(deep: bool) -> Seq<Seq<char>> {
    if deep {
        seq!["security"@, "audit"@, "--json"@, "--deep"@]
    } else {
        seq!["security"@, "audit"@, "--json"@]
    }
}

/// The arguments of the fix: `security audit --fix`.
pub open spec fn fix_args() -> Seq<Seq<char>> {
    seq!["security"@, "audit"@, "--fix"@]
}

/// Plans the audit: `openclaw security audit --json`, with `--deep` where asked.
pub fn audit_command(deep: bool, windows: bool) -> (inv: Invocation)
    ensures
        inv@ == command_plan("openclaw"@, audit_args(deep), windows),
{
    let mut args: Vec<String> = Vec::new();
    args.push("security".to_owned());
    args.push("audit".to_owned());
    args.push("--json".to_owned());
    if deep {
        args.push("--deep".to_owned());
    }
    assert(texts(args@) =~= audit_args(deep));
    command("openclaw", args, windows)
}

/// Plans the fix: `openclaw security audit --fix`.
pub fn fix_command(windows: bool) -> (inv: Invocation)
    ensures
        inv@ == command_plan("openclaw"@, fix_args(), windows),
{
    let mut args: Vec<String> = Vec::new();
    args.push("security".to_owned());
    args.push("audit".to_owned());
    args.push("--fix".to_owned());
    assert(texts(args@) =~= fix_args());
    command("openclaw", args, windows)
}

/// The message for output that is no report of either shape: it quotes both
/// streams, each without the white space round it.
pub open spec fn parse_failure(stdout: Seq<char>, stderr: Seq<char>) -> Seq<char> {
    "Could not parse audit JSON. stdout: "@ + trimmed(stdout) + " stderr: "@ + trimmed(stderr)
}

/// What an audit comes to.
///
/// Where the program could not be started, the error says so. Where it ran,
/// its exit code is not looked at: the result is that of the report on its
/// standard output, and an error only where that output holds none.
pub open spec fn audit_outcome(
    outcome: Result<ProcessOutput, String>,
) -> Result<AuditResultView, Seq<char>> {
    match outcome {
        Err(e) => Err("Failed to run openclaw: "@ + e@),
        Ok(output) => match parsed_report(output.stdout_text()) {
            Some(report) => Ok(result_of(report)),
            None => Err(parse_failure(output.stdout_text(), output.stderr_text())),
        },
    }
}

/// The audit fails on output that is no JSON, and the error then quotes what
/// both streams held, each trimmed and otherwise as it was.
pub proof fn lemma_unparsed_output_is_quoted(output: ProcessOutput)
    requires
        json_document(output.stdout_text()) is None,
    ensures
        audit_outcome(Ok(output)) matches Err(message) && contains_text(
            message,
            trimmed(output.stdout_text()),
        ) && contains_text(message, trimmed(output.stderr_text())),
{
    let out = trimmed(output.stdout_text());
    let err = trimmed(output.stderr_text());
    let message = parse_failure(output.stdout_text(), output.stderr_text());
    let head = "Could not parse audit JSON. stdout: "@;
    let at_out = head.len() as int;
    let at_err = message.len() - err.len();
    assert(message.subrange(at_out, at_out + out.len()) =~= out);
    assert(occurs_at(message, out, at_out));
    assert(message.subrange(at_err, at_err + err.len()) =~= err);
    assert(occurs_at(message, err, at_err));
}

/// The score of every summary lies from 1 to 100.
pub proof fn lemma_score_in_range(summary: AuditSummary)
    ensures
        1 <= score_of(summary) <= 100,
{
}

/// The result of every report is well formed, and holds the report's counts
/// and findings as they are.
pub proof fn lemma_result_of_report(report: ReportView)
    ensures
        result_of(report).well_formed(),
        result_of(report).critical == report.summary.critical,
        result_of(report).warn == report.summary.warn,
        result_of(report).info == report.summary.info,
        result_of(report).findings == report.findings,
{
}

/// The view of what `run_audit` returns.
pub open spec fn audit_view(r: Result<AuditResult, String>) -> Result<AuditResultView, Seq<char>> {
    match r {
        Ok(result) => Ok(result@),
        Err(e) => Err(e@),
    }
}

/// Turns the outcome of running the audit into its result.
pub fn run_audit(outcome: Result<ProcessOutput, String>) -> (r: Result<AuditResult, String>)
    ensures
        audit_view(r) == audit_outcome(outcome),
        r matches Ok(result) ==> result@.well_formed(),
{
    match outcome {
        Err(e) => {
            let mut message = "Failed to run openclaw: ".to_owned();
            message.append(e.as_str());
            Err(message)
        },
        Ok(output) => {
            let stdout = output.stdout_string();
            match parse_report(stdout.as_str()) {
                Some(report) => Ok(build_result(report)),
                None => {
                    let stderr = output.stderr_string();
                    let mut message = "Could not parse audit JSON. stdout: ".to_owned();
                    message.append(trim(stdout.as_str()).as_str());
                    message.append(" stderr: ");
                    message.append(trim(stderr.as_str()).as_str());
                    Err(message)
                },
            }
        },
    }
}

/// What a fix comes to: success where the program ended with exit code zero,
/// with its trimmed standard output; failure otherwise, with its trimmed
/// standard error before its trimmed standard output, or with the error that
/// kept it from starting.
pub open spec fn fix_outcome(outcome: Result<ProcessOutput, String>) -> (bool, Seq<char>) {
    match outcome {
        Ok(output) => if output.succeeded() {
            (true, trimmed(output.stdout_text()))
        } else {
            (false, trimmed(output.stderr_text()) + " "@ + trimmed(output.stdout_text()))
        },
        Err(e) => (false, e@),
    }
}

/// Turns the outcome of running the fix into success and a message.
pub fn run_fix(outcome: Result<ProcessOutput, String>) -> (r: (bool, String))
    ensures
        r.0 == fix_outcome(outcome).0,
        r.1@ == fix_outcome(outcome).1,
{
    match outcome {
        Ok(output) => {
            let stdout = output.stdout_string();
            if output.success() {
                (true, trim(stdout.as_str()))
            } else {
                let stderr = output.stderr_string();
                let mut message = trim(stderr.as_str());
                message.append(" ");
                message.append(trim(stdout.as_str()).as_str());
                (false, message)
            }
        },
        Err(e) => (false, e),
    }
}

} // verus!
