use ghass::models::{Finding, FindingType, Job, Severity, Step, WorkflowFile};
use ghass::scan::{
    build_report, build_summary, finding_rows, findings_at_least, is_workflow_extension,
    parse_severity_score, rebuild_summary, restrict_to_min_severity, severity_score_of_name,
    sort_by_severity, ScanTime,
};

fn finding(title: &str, severity: Severity) -> Finding {
    Finding {
        workflow: "wf.yml".to_string(),
        job_id: None,
        step_name: None,
        finding_type: FindingType::UnpinnedAction,
        severity,
        title: title.to_string(),
        description: String::new(),
        evidence: String::new(),
        remediation: String::new(),
        cwe: None,
        line: None,
    }
}

fn titles(fs: &[Finding]) -> Vec<&str> {
    fs.iter().map(|f| f.title.as_str()).collect()
}

fn mixed() -> Vec<Finding> {
    vec![
        finding("low-1", Severity::Low),
        finding("crit-1", Severity::Critical),
        finding("info-1", Severity::Informational),
        finding("high-1", Severity::High),
        finding("low-2", Severity::Low),
        finding("crit-2", Severity::Critical),
        finding("med-1", Severity::Medium),
    ]
}

const T0: ScanTime = ScanTime { unix_seconds: 1_700_000_000, nanos: 5 };

#[test]
fn sorting_puts_critical_first_and_keeps_ties_in_order() {
    let sorted = sort_by_severity(&mixed());
    assert_eq!(
        titles(&sorted),
        vec!["crit-1", "crit-2", "high-1", "med-1", "low-1", "low-2", "info-1"]
    );
    assert!(sort_by_severity(&vec![]).is_empty());
}

#[test]
fn sorting_agrees_with_a_stable_sort_by_descending_score() {
    let mut expected = mixed();
    expected.sort_by_key(|f| std::cmp::Reverse(f.severity.score()));
    assert_eq!(titles(&sort_by_severity(&mixed())), titles(&expected));
}

#[test]
fn summary_counts_each_severity() {
    let s = build_summary(&mixed());
    assert_eq!(s.critical_count, 2);
    assert_eq!(s.high_count, 1);
    assert_eq!(s.medium_count, 1);
    assert_eq!(s.low_count, 2);
    assert_eq!(s.informational_count, 1);
    let total = s.critical_count + s.high_count + s.medium_count + s.low_count
        + s.informational_count;
    assert_eq!(total, mixed().len());
    let empty = build_summary(&vec![]);
    assert_eq!(empty.critical_count + empty.informational_count, 0);
}

#[test]
fn min_severity_keeps_findings_at_or_above_the_threshold() {
    let kept = findings_at_least(&mixed(), 3);
    assert_eq!(titles(&kept), vec!["crit-1", "high-1", "crit-2"]);
    assert_eq!(findings_at_least(&mixed(), 0).len(), 7);
    assert!(findings_at_least(&mixed(), 5).is_empty());
}

#[test]
fn severity_names_map_to_minimum_scores() {
    assert_eq!(parse_severity_score("critical"), 4);
    assert_eq!(parse_severity_score("HIGH"), 3);
    assert_eq!(parse_severity_score("Medium"), 2);
    assert_eq!(parse_severity_score("low"), 1);
    assert_eq!(parse_severity_score("info"), 0);
    assert_eq!(parse_severity_score("Informational"), 0);
    assert_eq!(parse_severity_score("bogus"), 1);
    assert_eq!(severity_score_of_name("High"), 1);
    assert_eq!(severity_score_of_name("high"), 3);
}

#[test]
fn workflow_extensions() {
    assert!(is_workflow_extension("yml"));
    assert!(is_workflow_extension("yaml"));
    assert!(!is_workflow_extension("YML"));
    assert!(!is_workflow_extension("json"));
    assert!(!is_workflow_extension(""));
}

fn step(uses: &str) -> Step {
    Step {
        name: Some("s".to_string()),
        uses: Some(uses.to_string()),
        run: None,
        env: vec![],
        with: vec![],
        line: None,
    }
}

fn workflow(path: &str, runs_on: &str, uses: &str) -> WorkflowFile {
    WorkflowFile {
        path: path.to_string(),
        name: path.to_string(),
        triggers: vec!["push".to_string()],
        jobs: vec![Job {
            id: "build".to_string(),
            runs_on: runs_on.to_string(),
            permissions: None,
            steps: vec![step(uses)],
            is_reusable_call: false,
            line: None,
        }],
        global_permissions: None,
    }
}

#[test]
fn report_collects_sorts_and_counts_findings_of_all_workflows() {
    let wfs = vec![
        workflow("a.yml", "self-hosted", "actions/checkout@v4"),
        workflow("b.yml", "ubuntu-latest", "some-org/x@main"),
    ];
    let report = build_report(&wfs, None, T0);
    assert_eq!(report.workflow_count, 2);
    assert_eq!(report.finding_count, 3);
    assert_eq!(report.findings.len(), 3);
    // b.yml's branch reference (High) first, then a.yml's tag (Medium) and runner (Medium)
    assert_eq!(report.findings[0].workflow, "b.yml");
    assert_eq!(report.findings[0].severity, Severity::High);
    assert_eq!(report.findings[1].finding_type, FindingType::UnpinnedAction);
    assert_eq!(report.findings[2].finding_type, FindingType::SelfHostedRunner);
    assert_eq!(report.summary.high_count, 1);
    assert_eq!(report.summary.medium_count, 2);
    assert_eq!(report.scanned_at, T0);
}

#[test]
fn restricting_a_report_updates_count_and_summary() {
    let wfs = vec![
        workflow("a.yml", "self-hosted", "actions/checkout@v4"),
        workflow("b.yml", "ubuntu-latest", "some-org/x@main"),
    ];
    let mut report = build_report(&wfs, None, T0);
    restrict_to_min_severity(&mut report, 3);
    assert_eq!(report.finding_count, 1);
    assert_eq!(report.findings.len(), 1);
    assert_eq!(report.summary.high_count, 1);
    assert_eq!(report.summary.medium_count, 0);
    assert_eq!(report.workflow_count, 2);
    assert_eq!(report.scanned_at, T0);
}

#[test]
fn rebuilding_the_summary_recounts_the_findings() {
    let wfs = vec![workflow("a.yml", "self-hosted", "actions/checkout@v4")];
    let mut report = build_report(&wfs, None, T0);
    report.findings.truncate(1);
    rebuild_summary(&mut report);
    assert_eq!(report.summary.medium_count, 1);
    assert_eq!(report.finding_count, 2);
}

#[test]
fn table_rows_show_labels_job_and_title() {
    let mut f = finding("Some title", Severity::Informational);
    let mut g = finding("Other", Severity::Critical);
    g.job_id = Some("deploy".to_string());
    g.finding_type = FindingType::Custom("my-rule".to_string());
    f.finding_type = FindingType::SecretExposure;
    let rows = finding_rows(&vec![f, g]);
    assert_eq!(rows.len(), 2);
    assert_eq!(rows[0].severity, "INFO");
    assert_eq!(rows[0].finding_type, "Secret Exposure");
    assert_eq!(rows[0].job, "-");
    assert_eq!(rows[0].title, "Some title");
    assert_eq!(rows[1].severity, "CRITICAL");
    assert_eq!(rows[1].finding_type, "Custom Rule: my-rule");
    assert_eq!(rows[1].job, "deploy");
}

const HARDENED: &str = "\
name: Hardened
on: pull_request
permissions: {}
jobs:
  test:
    runs-on: ubuntu-latest
    permissions:
      contents: read
    steps:
      - uses: actions/checkout@11bd71901bbe5b1630ceea73d27597364c9af683
      - name: Echo PR title
        env:
          PR_TITLE: ${{ github.event.pull_request.title }}
        run: 'echo \"PR: $PR_TITLE\"'
";

const VULNERABLE: &str = "\
name: Vulnerable
on:
  pull_request_target:
permissions: write-all
jobs:
  build:
    runs-on: self-hosted
    steps:
      - uses: actions/checkout@v4
        with:
          ref: ${{ github.event.pull_request.head.ref }}
      - name: Greet
        env:
          API_KEY: ${{ secrets.API_KEY }}
        run: echo \"${{ github.event.pull_request.title }}\"
      - uses: some-org/deploy-action@v2
        with:
          token: ${{ secrets.DEPLOY_TOKEN }}
";

#[test]
fn hardened_workflow_produces_no_findings() {
    let wf = ghass::parser::parse_workflow_str(HARDENED, "hardened_workflow.yml").unwrap();
    let report = build_report(&vec![wf], None, T0);
    assert_eq!(
        report.finding_count, 0,
        "expected the hardened example to be clean, got: {:?}",
        report.findings
    );
}

#[test]
fn vulnerable_workflow_produces_all_documented_finding_types() {
    let wf = ghass::parser::parse_workflow_str(VULNERABLE, "vulnerable_workflow.yml").unwrap();
    let report = build_report(&vec![wf], None, T0);
    let types: Vec<&FindingType> = report.findings.iter().map(|f| &f.finding_type).collect();
    assert!(types.contains(&&FindingType::ScriptInjection));
    assert!(types.contains(&&FindingType::PwnRequest));
    assert!(types.contains(&&FindingType::ExcessivePermissions));
    assert!(types.contains(&&FindingType::SecretExposure));
    assert!(types.contains(&&FindingType::UnpinnedAction));
    assert!(types.contains(&&FindingType::SelfHostedRunner));
    assert_eq!(report.summary.critical_count, 2);
    assert_eq!(report.finding_count, 8);
    // critical first, informational last, lines taken from the text
    assert_eq!(report.findings[0].severity, Severity::Critical);
    assert_eq!(report.findings[7].severity, Severity::Informational);
    assert!(report.findings.iter().all(|f| f.workflow == "vulnerable_workflow.yml"));
}
