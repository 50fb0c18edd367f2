//! Scanning workflows: every analyzer over every workflow, the findings
//! ordered from most to least severe, and a count per severity.

use vstd::prelude::*;
use crate::analyzers::{all_findings, run_all};
use crate::models::{
    append_findings, findings_view, flat_map, lemma_flat_map_full, lemma_flat_map_take,
    lemma_findings_view_push, severity_score, Finding, FindingSummary, FindingView, Severity,
    WorkflowFile,
};
use crate::models::{finding_kind_label, severity_label};
use crate::rules::RuleSet;
use crate::text::{lowercase, str_eq, to_lowercase};

verus! {

/// The moment a scan was made, as a Unix time: whole seconds since
/// 1970-01-01T00:00:00Z and the nanoseconds past them.
#[derive(Debug, Clone, Copy, PartialEq, Eq, Structural)]
pub struct ScanTime {
    pub unix_seconds: i64,
    pub nanos: u32,
}

/// The result of a scan.
pub struct ScanReport {
    pub scanned_at: ScanTime,
    pub workflow_count: usize,
    pub finding_count: usize,
    pub findings: Vec<Finding>,
    pub summary: FindingSummary,
}

/// The findings of `fs` with severity `s`, in their order.
pub open spec fn with_severity(fs: Seq<FindingView>, s: Severity) -> Seq<FindingView>
    decreases fs.len(),
{
    if fs.len() == 0 {
        Seq::empty()
    } else if fs.last().severity == s {
        with_severity(fs.drop_last(), s).push(fs.last())
    } else {
        with_severity(fs.drop_last(), s)
    }
}

/// How many findings of `fs` have severity `s`.
pub open spec fn count_severity(fs: Seq<FindingView>, s: Severity) -> nat {
    with_severity(fs, s).len()
}

/// `fs` ordered from most to least severe, findings of equal severity in
/// the order they came in: what a stable sort by descending score gives.
pub open spec fn by_severity(fs: Seq<FindingView>) -> Seq<FindingView> {
    with_severity(fs, Severity::Critical) + with_severity(fs, Severity::High) + with_severity(
        fs,
        Severity::Medium,
    ) + with_severity(fs, Severity::Low) + with_severity(fs, Severity::Informational)
}

/// The findings of `fs` whose severity scores at least `min_score`, in their order.
pub open spec fn at_least(fs: Seq<FindingView>, min_score: u8) -> Seq<FindingView>
    decreases fs.len(),
{
    if fs.len() == 0 {
        Seq::empty()
    } else if severity_score(fs.last().severity) >= min_score {
        at_least(fs.drop_last(), min_score).push(fs.last())
    } else {
        at_least(fs.drop_last(), min_score)
    }
}

/// Whether a summary counts the findings of `fs` by severity.
pub open spec fn summarizes(summary: FindingSummary, fs: Seq<FindingView>) -> bool {
    &&& summary.critical_count == count_severity(fs, Severity::Critical)
    &&& summary.high_count == count_severity(fs, Severity::High)
    &&& summary.medium_count == count_severity(fs, Severity::Medium)
    &&& summary.low_count == count_severity(fs, Severity::Low)
    &&& summary.informational_count == count_severity(fs, Severity::Informational)
}

/// Filtering never lengthens a list.
pub proof fn lemma_with_severity_len(fs: Seq<FindingView>, s: Severity)
    ensures
        with_severity(fs, s).len() <= fs.len(),
    decreases fs.len(),
{
    if fs.len() > 0 {
        lemma_with_severity_len(fs.drop_last(), s);
    }
}

/// Extending the processed prefix by one finding.
proof fn lemma_with_severity_take(fs: Seq<FindingView>, s: Severity, i: int)
    requires
        0 <= i < fs.len(),
    ensures
        with_severity(fs.take(i + 1), s) == if fs[i].severity == s {
            with_severity(fs.take(i), s).push(fs[i])
        } else {
            with_severity(fs.take(i), s)
        },
{
    assert(fs.take(i + 1).drop_last() =~= fs.take(i));
}

/// Extending the processed prefix by one finding.
proof fn lemma_at_least_take(fs: Seq<FindingView>, m: u8, i: int)
    requires
        0 <= i < fs.len(),
    ensures
        at_least(fs.take(i + 1), m) == if severity_score(fs[i].severity) >= m {
            at_least(fs.take(i), m).push(fs[i])
        } else {
            at_least(fs.take(i), m)
        },
{
    assert(fs.take(i + 1).drop_last() =~= fs.take(i));
}

/// Appends to `out` copies of the findings of `fs` with severity `s`.
fn push_with_severity(out: &mut Vec<Finding>, fs: &Vec<Finding>, s: Severity)
    ensures
        findings_view(final(out)@) == findings_view(old(out)@) + with_severity(
            findings_view(fs@),
            s,
        ),
{
    let ghost v = findings_view(fs@);
    let ghost start = findings_view(out@);
    let mut i: usize = 0;
    while i < fs.len()
        invariant
            v == findings_view(fs@),
            i <= fs@.len(),
            findings_view(out@) == start + with_severity(v.take(i as int), s),
        decreases fs@.len() - i,
    {
        proof {
            lemma_with_severity_take(v, s, i as int);
        }
        if fs[i].severity == s {
            let f = fs[i].duplicate();
            proof {
                lemma_findings_view_push(out@, f);
            }
            out.push(f);
        }
        i += 1;
    }
    assert(v.take(fs@.len() as int) =~= v);
}

/// The findings ordered from most to least severe; findings of equal
/// severity keep their order.
pub fn sort_by_severity(findings: &Vec<Finding>) -> (res: Vec<Finding>)
    ensures
        findings_view(res@) == by_severity(findings_view(findings@)),
{
    let mut out: Vec<Finding> = Vec::new();
    push_with_severity(&mut out, findings, Severity::Critical);
    push_with_severity(&mut out, findings, Severity::High);
    push_with_severity(&mut out, findings, Severity::Medium);
    push_with_severity(&mut out, findings, Severity::Low);
    push_with_severity(&mut out, findings, Severity::Informational);
    assert(findings_view(out@) =~= by_severity(findings_view(findings@)));
    out
}

/// The number of findings at each severity.
pub fn build_summary(findings: &Vec<Finding>) -> (res: FindingSummary)
    ensures
        summarizes(res, findings_view(findings@)),
{
    let ghost v = findings_view(findings@);
    let mut critical: usize = 0;
    let mut high: usize = 0;
    let mut medium: usize = 0;
    let mut low: usize = 0;
    let mut info: usize = 0;
    let mut i: usize = 0;
    while i < findings.len()
        invariant
            v == findings_view(findings@),
            i <= findings@.len(),
            critical == count_severity(v.take(i as int), Severity::Critical),
            high == count_severity(v.take(i as int), Severity::High),
            medium == count_severity(v.take(i as int), Severity::Medium),
            low == count_severity(v.take(i as int), Severity::Low),
            info == count_severity(v.take(i as int), Severity::Informational),
        decreases findings@.len() - i,
    {
        proof {
            lemma_with_severity_take(v, Severity::Critical, i as int);
            lemma_with_severity_take(v, Severity::High, i as int);
            lemma_with_severity_take(v, Severity::Medium, i as int);
            lemma_with_severity_take(v, Severity::Low, i as int);
            lemma_with_severity_take(v, Severity::Informational, i as int);
            lemma_with_severity_len(v.take(i as int), Severity::Critical);
            lemma_with_severity_len(v.take(i as int), Severity::High);
            lemma_with_severity_len(v.take(i as int), Severity::Medium);
            lemma_with_severity_len(v.take(i as int), Severity::Low);
            lemma_with_severity_len(v.take(i as int), Severity::Informational);
        }
        match findings[i].severity {
            Severity::Critical => critical += 1,
            Severity::High => high += 1,
            Severity::Medium => medium += 1,
            Severity::Low => low += 1,
            Severity::Informational => info += 1,
        }
        i += 1;
    }
    assert(v.take(findings@.len() as int) =~= v);
    FindingSummary {
        critical_count: critical,
        high_count: high,
        medium_count: medium,
        low_count: low,
        informational_count: info,
    }
}

/// Everything the analyzers report, workflow by workflow in the given order.
pub open spec fn scan_findings(workflows: Seq<WorkflowFile>, custom_rules: Option<RuleSet>) -> Seq<
    FindingView,
> {
    flat_map(workflows, |w: WorkflowFile| all_findings(w, custom_rules))
}

/// Scans parsed workflows: runs every analyzer (and the custom rules, if
/// any) on each workflow, orders the findings from most to least severe,
/// and counts them per severity.
pub fn build_report(
    workflows: &Vec<WorkflowFile>,
    custom_rules: Option<&RuleSet>,
    scanned_at: ScanTime,
) -> (res: ScanReport)
    ensures
        findings_view(res.findings@) == by_severity(
            scan_findings(
                workflows@,
                match custom_rules {
                    Some(r) => Some(*r),
                    None => None,
                },
            ),
        ),
        res.workflow_count == workflows@.len(),
        res.finding_count == res.findings@.len(),
        summarizes(res.summary, findings_view(res.findings@)),
        res.scanned_at == scanned_at,
{
    let ghost rules = match custom_rules {
        Some(r) => Some(*r),
        None => None,
    };
    let ghost f = |w: WorkflowFile| all_findings(w, rules);
    let mut all: Vec<Finding> = Vec::new();
    let mut i: usize = 0;
    while i < workflows.len()
        invariant
            i <= workflows@.len(),
            rules == (match custom_rules {
                Some(r) => Some(*r),
                None => None,
            }),
            f == (|w: WorkflowFile| all_findings(w, rules)),
            findings_view(all@) == flat_map(workflows@.take(i as int), f),
        decreases workflows@.len() - i,
    {
        proof {
            lemma_flat_map_take(workflows@, f, i as int);
        }
        append_findings(&mut all, run_all(&workflows[i], custom_rules));
        i += 1;
    }
    proof {
        lemma_flat_map_full(workflows@, f);
    }
    let findings = sort_by_severity(&all);
    let summary = build_summary(&findings);
    ScanReport {
        scanned_at,
        workflow_count: workflows.len(),
        finding_count: findings.len(),
        findings,
        summary,
    }
}

/// Recounts the summary of a report from its findings.
pub fn rebuild_summary(scan: &mut ScanReport)
    ensures
        summarizes(final(scan).summary, findings_view(final(scan).findings@)),
        final(scan).findings == old(scan).findings,
        final(scan).workflow_count == old(scan).workflow_count,
        final(scan).finding_count == old(scan).finding_count,
        final(scan).scanned_at == old(scan).scanned_at,
{
    scan.summary = build_summary(&scan.findings);
}

/// Copies of the findings whose severity scores at least `min_score`, in order.
pub fn findings_at_least(findings: &Vec<Finding>, min_score: u8) -> (res: Vec<Finding>)
    ensures
        findings_view(res@) == at_least(findings_view(findings@), min_score),
{
    let ghost v = findings_view(findings@);
    let mut out: Vec<Finding> = Vec::new();
    let mut i: usize = 0;
    while i < findings.len()
        invariant
            v == findings_view(findings@),
            i <= findings@.len(),
            findings_view(out@) == at_least(v.take(i as int), min_score),
        decreases findings@.len() - i,
    {
        proof {
            lemma_at_least_take(v, min_score, i as int);
        }
        if findings[i].severity.score() >= min_score {
            let f = findings[i].duplicate();
            proof {
                lemma_findings_view_push(out@, f);
            }
            out.push(f);
        }
        i += 1;
    }
    assert(v.take(findings@.len() as int) =~= v);
    out
}

/// Keeps only the findings whose severity scores at least `min_score`,
/// and brings the finding count and the summary up to date.
pub fn restrict_to_min_severity(scan: &mut ScanReport, min_score: u8)
    ensures
        findings_view(final(scan).findings@) == at_least(
            findings_view(old(scan).findings@),
            min_score,
        ),
        final(scan).finding_count == final(scan).findings@.len(),
        summarizes(final(scan).summary, findings_view(final(scan).findings@)),
        final(scan).workflow_count == old(scan).workflow_count,
        final(scan).scanned_at == old(scan).scanned_at,
{
    scan.findings = findings_at_least(&scan.findings, min_score);
    scan.finding_count = scan.findings.len();
    rebuild_summary(scan);
}

/// The minimum score a severity name given in lower case stands for:
/// `critical` 4, `high` 3, `medium` 2, `info` or `informational` 0, and
/// anything else (`low` among them) 1.
pub open spec fn min_score_named(name: Seq<char>) -> u8 {
    if name == "critical"@ {
        4
    } else if name == "high"@ {
        3
    } else if name == "medium"@ {
        2
    } else if name == "info"@ || name == "informational"@ {
        0
    } else {
        1
    }
}

/// The minimum score that a lower-case severity name stands for.
pub fn severity_score_of_name(name: &str) -> (res: u8)
    ensures
        res == min_score_named(name@),
{
    if str_eq(name, "critical") {
        4
    } else if str_eq(name, "high") {
        3
    } else if str_eq(name, "medium") {
        2
    } else if str_eq(name, "info") || str_eq(name, "informational") {
        0
    } else {
        1
    }
}

/// The minimum score that a severity name stands for, in any case.
pub fn parse_severity_score(s: &str) -> (res: u8)
    ensures
        res == min_score_named(lowercase(s@)),
{
    let lowered = to_lowercase(s);
    severity_score_of_name(lowered.as_str())
}

/// Whether a file extension marks a workflow file: `yml` or `yaml`.
pub fn is_workflow_extension(ext: &str) -> (res: bool)
    ensures
        res == (ext@ == "yml"@ || ext@ == "yaml"@),
{
    str_eq(ext, "yml") || str_eq(ext, "yaml")
}

/// One row of the findings table.
#[derive(Debug)]
pub struct FindingRow {
    pub severity: String,
    pub finding_type: String,
    pub job: String,
    pub title: String,
}

/// Whether a table row shows a finding: its severity and type by their
/// labels, its job (or `-`), and its title.
pub open spec fn row_shows(row: FindingRow, f: FindingView) -> bool {
    &&& row.severity@ == severity_label(f.severity)
    &&& row.finding_type@ == finding_kind_label(f.finding_type)
    &&& row.job@ == match f.job_id {
        Some(j) => j,
        None => "-"@,
    }
    &&& row.title@ == f.title
}

/// The rows of the findings table, one per finding in order.
pub fn finding_rows(findings: &Vec<Finding>) -> (res: Vec<FindingRow>)
    ensures
        res@.len() == findings@.len(),
        forall|i: int| 0 <= i < findings@.len() ==> row_shows(#[trigger] res@[i], findings@[i]@),
{
    let mut rows: Vec<FindingRow> = Vec::new();
    let mut i: usize = 0;
    while i < findings.len()
        invariant
            i <= findings@.len(),
            rows@.len() == i,
            forall|j: int| 0 <= j < i ==> row_shows(#[trigger] rows@[j], findings@[j]@),
        decreases findings@.len() - i,
    {
        let f = &findings[i];
        let job = match &f.job_id {
            Some(j) => j.clone(),
            None => String::from_str("-"),
        };
        rows.push(
            FindingRow {
                severity: f.severity.label(),
                finding_type: f.finding_type.label(),
                job,
                title: f.title.clone(),
            },
        );
        i += 1;
    }
    rows
}

/// Whether findings are ordered from most to least severe.
pub open spec fn descending(fs: Seq<FindingView>) -> bool {
    forall|i: int, j: int|
        0 <= i < j < fs.len() ==> severity_score(#[trigger] fs[i].severity) >= severity_score(
            #[trigger] fs[j].severity,
        )
}

/// Every finding that `with_severity` keeps has that severity.
proof fn lemma_with_severity_only(fs: Seq<FindingView>, s: Severity)
    ensures
        forall|i: int|
            0 <= i < with_severity(fs, s).len() ==> (#[trigger] with_severity(fs, s)[i]).severity
                == s,
    decreases fs.len(),
{
    if fs.len() > 0 {
        lemma_with_severity_only(fs.drop_last(), s);
    }
}

/// Selecting by severity distributes over concatenation.
proof fn lemma_with_severity_concat(a: Seq<FindingView>, b: Seq<FindingView>, s: Severity)
    ensures
        with_severity(a + b, s) == with_severity(a, s) + with_severity(b, s),
    decreases b.len(),
{
    if b.len() == 0 {
        assert(a + b =~= a);
        assert(with_severity(a, s) + with_severity(b, s) =~= with_severity(a, s));
    } else {
        assert((a + b).drop_last() =~= a + b.drop_last());
        lemma_with_severity_concat(a, b.drop_last(), s);
        if b.last().severity == s {
            assert(with_severity(a, s) + with_severity(b.drop_last(), s).push(b.last())
                =~= (with_severity(a, s) + with_severity(b.drop_last(), s)).push(b.last()));
        }
    }
}

/// Selecting twice by severity.
proof fn lemma_with_severity_twice(fs: Seq<FindingView>, s: Severity, t: Severity)
    ensures
        with_severity(with_severity(fs, t), s) == if s == t {
            with_severity(fs, s)
        } else {
            Seq::<FindingView>::empty()
        },
    decreases fs.len(),
{
    if fs.len() > 0 {
        lemma_with_severity_twice(fs.drop_last(), s, t);
        let inner = with_severity(fs.drop_last(), t);
        if fs.last().severity == t {
            assert(inner.push(fs.last()).drop_last() =~= inner);
        }
    }
}

/// Two descending lists whose every pair across them is in order make a
/// descending list.
proof fn lemma_descending_concat(a: Seq<FindingView>, b: Seq<FindingView>, k: u8)
    requires
        descending(a),
        descending(b),
        forall|i: int| 0 <= i < a.len() ==> severity_score(#[trigger] a[i].severity) >= k,
        forall|j: int| 0 <= j < b.len() ==> severity_score(#[trigger] b[j].severity) <= k,
    ensures
        descending(a + b),
{
    let c = a + b;
    assert forall|i: int, j: int| 0 <= i < j < c.len() implies severity_score(
        #[trigger] c[i].severity,
    ) >= severity_score(#[trigger] c[j].severity) by {
        if j < a.len() {
            assert(c[i] == a[i] && c[j] == a[j]);
        } else if i >= a.len() {
            assert(c[i] == b[i - a.len()] && c[j] == b[j - a.len()]);
        } else {
            assert(c[i] == a[i] && c[j] == b[j - a.len()]);
        }
    }
}

/// The findings of one severity are trivially in order.
proof fn lemma_with_severity_descending(fs: Seq<FindingView>, s: Severity)
    ensures
        descending(with_severity(fs, s)),
        forall|i: int|
            0 <= i < with_severity(fs, s).len() ==> severity_score(
                (#[trigger] with_severity(fs, s)[i]).severity,
            ) == severity_score(s),
{
    lemma_with_severity_only(fs, s);
}

/// Law: the findings of a scan come out ordered from most to least severe.
pub proof fn lemma_by_severity_descending(fs: Seq<FindingView>)
    ensures
        descending(by_severity(fs)),
{
    let g0 = with_severity(fs, Severity::Critical);
    let g1 = with_severity(fs, Severity::High);
    let g2 = with_severity(fs, Severity::Medium);
    let g3 = with_severity(fs, Severity::Low);
    let g4 = with_severity(fs, Severity::Informational);
    lemma_with_severity_descending(fs, Severity::Critical);
    lemma_with_severity_descending(fs, Severity::High);
    lemma_with_severity_descending(fs, Severity::Medium);
    lemma_with_severity_descending(fs, Severity::Low);
    lemma_with_severity_descending(fs, Severity::Informational);
    lemma_descending_concat(g0, g1, 3);
    let a1 = g0 + g1;
    assert forall|i: int| 0 <= i < a1.len() implies severity_score(#[trigger] a1[i].severity)
        >= 2 by {
        if i < g0.len() {
            assert(a1[i] == g0[i]);
        } else {
            assert(a1[i] == g1[i - g0.len()]);
        }
    }
    lemma_descending_concat(a1, g2, 2);
    let a2 = a1 + g2;
    assert forall|i: int| 0 <= i < a2.len() implies severity_score(#[trigger] a2[i].severity)
        >= 1 by {
        if i < a1.len() {
            assert(a2[i] == a1[i]);
        } else {
            assert(a2[i] == g2[i - a1.len()]);
        }
    }
    lemma_descending_concat(a2, g3, 1);
    let a3 = a2 + g3;
    assert forall|i: int| 0 <= i < a3.len() implies severity_score(#[trigger] a3[i].severity)
        >= 0 by {}
    lemma_descending_concat(a3, g4, 0);
}

/// Law: ordering by severity keeps, for each severity, exactly the findings
/// of that severity in the order they came in (the sort is stable).
pub proof fn lemma_by_severity_stable(fs: Seq<FindingView>, s: Severity)
    ensures
        with_severity(by_severity(fs), s) == with_severity(fs, s),
{
    let g0 = with_severity(fs, Severity::Critical);
    let g1 = with_severity(fs, Severity::High);
    let g2 = with_severity(fs, Severity::Medium);
    let g3 = with_severity(fs, Severity::Low);
    let g4 = with_severity(fs, Severity::Informational);
    lemma_with_severity_concat(g0 + g1 + g2 + g3, g4, s);
    lemma_with_severity_concat(g0 + g1 + g2, g3, s);
    lemma_with_severity_concat(g0 + g1, g2, s);
    lemma_with_severity_concat(g0, g1, s);
    lemma_with_severity_twice(fs, s, Severity::Critical);
    lemma_with_severity_twice(fs, s, Severity::High);
    lemma_with_severity_twice(fs, s, Severity::Medium);
    lemma_with_severity_twice(fs, s, Severity::Low);
    lemma_with_severity_twice(fs, s, Severity::Informational);
    let e = Seq::<FindingView>::empty();
    match s {
        Severity::Critical => {
            assert(with_severity(fs, s) + e + e + e + e =~= with_severity(fs, s));
        },
        Severity::High => {
            assert(e + with_severity(fs, s) + e + e + e =~= with_severity(fs, s));
        },
        Severity::Medium => {
            assert(e + e + with_severity(fs, s) + e + e =~= with_severity(fs, s));
        },
        Severity::Low => {
            assert(e + e + e + with_severity(fs, s) + e =~= with_severity(fs, s));
        },
        Severity::Informational => {
            assert(e + e + e + e + with_severity(fs, s) =~= with_severity(fs, s));
        },
    }
}

/// Law: ordering by severity neither drops nor adds nor duplicates a
/// finding: the result is a permutation of the input.
pub proof fn lemma_by_severity_permutation(fs: Seq<FindingView>)
    ensures
        by_severity(fs).to_multiset() == fs.to_multiset(),
    decreases fs.len(),
{
    broadcast use vstd::multiset::group_multiset_axioms;
    broadcast use vstd::seq_lib::group_to_multiset_ensures;

    let g0 = with_severity(fs, Severity::Critical);
    let g1 = with_severity(fs, Severity::High);
    let g2 = with_severity(fs, Severity::Medium);
    let g3 = with_severity(fs, Severity::Low);
    let g4 = with_severity(fs, Severity::Informational);
    vstd::seq_lib::lemma_multiset_commutative(g0 + g1 + g2 + g3, g4);
    vstd::seq_lib::lemma_multiset_commutative(g0 + g1 + g2, g3);
    vstd::seq_lib::lemma_multiset_commutative(g0 + g1, g2);
    vstd::seq_lib::lemma_multiset_commutative(g0, g1);
    if fs.len() == 0 {
        assert(by_severity(fs).to_multiset() =~= fs.to_multiset());
    } else {
        let p = fs.drop_last();
        let x = fs.last();
        lemma_by_severity_permutation(p);
        let h0 = with_severity(p, Severity::Critical);
        let h1 = with_severity(p, Severity::High);
        let h2 = with_severity(p, Severity::Medium);
        let h3 = with_severity(p, Severity::Low);
        let h4 = with_severity(p, Severity::Informational);
        vstd::seq_lib::lemma_multiset_commutative(h0 + h1 + h2 + h3, h4);
        vstd::seq_lib::lemma_multiset_commutative(h0 + h1 + h2, h3);
        vstd::seq_lib::lemma_multiset_commutative(h0 + h1, h2);
        vstd::seq_lib::lemma_multiset_commutative(h0, h1);
        assert(fs =~= p.push(x));
        vstd::seq_lib::to_multiset_build(p, x);
        vstd::seq_lib::to_multiset_build(h0, x);
        vstd::seq_lib::to_multiset_build(h1, x);
        vstd::seq_lib::to_multiset_build(h2, x);
        vstd::seq_lib::to_multiset_build(h3, x);
        vstd::seq_lib::to_multiset_build(h4, x);
        assert(by_severity(fs).to_multiset() =~= fs.to_multiset());
    }
}

/// Law: the per-severity counts of a summary add up to the number of findings.
pub proof fn lemma_summary_total(fs: Seq<FindingView>)
    ensures
        count_severity(fs, Severity::Critical) + count_severity(fs, Severity::High)
            + count_severity(fs, Severity::Medium) + count_severity(fs, Severity::Low)
            + count_severity(fs, Severity::Informational) == fs.len(),
    decreases fs.len(),
{
    if fs.len() > 0 {
        lemma_summary_total(fs.drop_last());
    }
}

/// Law: the minimum-severity threshold keeps, for each severity at or above
/// it, exactly the findings of that severity in order, and none below it.
pub proof fn lemma_at_least_exact(fs: Seq<FindingView>, min_score: u8, s: Severity)
    ensures
        with_severity(at_least(fs, min_score), s) == if severity_score(s) >= min_score {
            with_severity(fs, s)
        } else {
            Seq::<FindingView>::empty()
        },
        forall|i: int|
            0 <= i < at_least(fs, min_score).len() ==> severity_score(
                (#[trigger] at_least(fs, min_score)[i]).severity,
            ) >= min_score,
    decreases fs.len(),
{
    if fs.len() > 0 {
        lemma_at_least_exact(fs.drop_last(), min_score, s);
        let inner = at_least(fs.drop_last(), min_score);
        if severity_score(fs.last().severity) >= min_score {
            assert(inner.push(fs.last()).drop_last() =~= inner);
        }
    }
}

} // verus!
