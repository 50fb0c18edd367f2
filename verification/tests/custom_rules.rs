use ghass::analyzers::custom_rules::{analyze, evaluate_rule};
use ghass::analyzers::run_all;
use ghass::models::{FindingType, Job, Permissions, Severity, Step, WorkflowFile};
use ghass::rules::{Condition, MatchContext, Rule, RuleSet};

fn workflow_with(jobs: Vec<Job>) -> WorkflowFile {
    WorkflowFile {
        path: "wf.yml".to_string(),
        name: "test".to_string(),
        triggers: vec!["push".to_string()],
        jobs,
        global_permissions: None,
    }
}

fn bare_step(name: &str, uses: Option<&str>) -> Step {
    Step {
        name: Some(name.to_string()),
        uses: uses.map(String::from),
        run: None,
        env: vec![],
        with: vec![],
        line: None,
    }
}

#[test]
fn step_scoped_rule_reports_once_per_matching_step() {
    let step_a = bare_step("a", Some("docker://alpine:3.19"));
    let step_b = bare_step("b", Some("actions/checkout@v4"));
    let j = Job {
        id: "build".to_string(),
        runs_on: "ubuntu-latest".to_string(),
        permissions: None,
        steps: vec![step_a, step_b],
        is_reusable_call: false,
        line: None,
    };
    let wf = workflow_with(vec![j]);
    let rule = Rule {
        id: "no-docker-actions".to_string(),
        title: "Docker actions forbidden".to_string(),
        severity: Severity::Medium,
        description: String::new(),
        remediation: String::new(),
        cwe: None,
        condition: Condition::UsesMatches(r"^docker://".to_string()),
    };
    let rules = RuleSet { rules: vec![rule] };

    let findings = analyze(&wf, &rules);
    assert_eq!(findings.len(), 1);
    assert_eq!(findings[0].step_name, Some("a".to_string()));
    assert_eq!(findings[0].finding_type, FindingType::Custom("no-docker-actions".to_string()));
}

#[test]
fn job_scoped_rule_reports_once_per_job_not_per_step() {
    let steps = vec![bare_step("s1", None), bare_step("s2", None)];
    let j = Job {
        id: "build".to_string(),
        runs_on: "self-hosted".to_string(),
        permissions: Some(Permissions { write_all: true, ..Default::default() }),
        steps,
        is_reusable_call: false,
        line: Some(7),
    };
    let wf = workflow_with(vec![j]);
    let rule = Rule {
        id: "no-writeall-self-hosted".to_string(),
        title: "write-all on self-hosted".to_string(),
        severity: Severity::High,
        description: String::new(),
        remediation: String::new(),
        cwe: None,
        condition: Condition::All(vec![
            Condition::RunsOnContains("self-hosted".to_string()),
            Condition::JobWriteAll,
        ]),
    };
    let rules = RuleSet { rules: vec![rule] };

    let findings = analyze(&wf, &rules);
    assert_eq!(findings.len(), 1);
    assert_eq!(findings[0].job_id, Some("build".to_string()));
    assert_eq!(findings[0].step_name, None);
    assert_eq!(findings[0].line, Some(7));
}

#[test]
fn workflow_scoped_rule_reports_once_for_the_whole_workflow() {
    let wf = workflow_with(vec![]);
    let rule = Rule {
        id: "push-trigger-used".to_string(),
        title: "push trigger present".to_string(),
        severity: Severity::Low,
        description: String::new(),
        remediation: String::new(),
        cwe: None,
        condition: Condition::TriggerEquals("push".to_string()),
    };
    let rules = RuleSet { rules: vec![rule] };

    let findings = analyze(&wf, &rules);
    assert_eq!(findings.len(), 1);
    assert_eq!(findings[0].job_id, None);
}

#[test]
fn no_findings_when_nothing_matches() {
    let wf = workflow_with(vec![]);
    let rule = Rule {
        id: "never-matches".to_string(),
        title: "x".to_string(),
        severity: Severity::Low,
        description: String::new(),
        remediation: String::new(),
        cwe: None,
        condition: Condition::TriggerEquals("release".to_string()),
    };
    let rules = RuleSet { rules: vec![rule] };
    assert!(analyze(&wf, &rules).is_empty());
}

#[test]
fn custom_finding_carries_the_rule_text() {
    let wf = workflow_with(vec![]);
    let rule = Rule {
        id: "push-trigger-used".to_string(),
        title: "push trigger present".to_string(),
        severity: Severity::Critical,
        description: "desc".to_string(),
        remediation: "fix it".to_string(),
        cwe: Some("CWE-1".to_string()),
        condition: Condition::TriggerEquals("push".to_string()),
    };
    let findings = analyze(&wf, &RuleSet { rules: vec![rule] });
    assert_eq!(findings.len(), 1);
    let f = &findings[0];
    assert_eq!(f.workflow, "wf.yml");
    assert_eq!(f.severity, Severity::Critical);
    assert_eq!(f.title, "push trigger present");
    assert_eq!(f.description, "desc");
    assert_eq!(f.remediation, "fix it");
    assert_eq!(f.cwe, Some("CWE-1".to_string()));
    assert_eq!(f.evidence, "custom rule 'push-trigger-used' matched");
    assert_eq!(f.finding_type.label(), "Custom Rule: push-trigger-used");
}

#[test]
fn run_all_appends_custom_findings_after_the_built_in_ones() {
    let wf = workflow_with(vec![Job {
        id: "build".to_string(),
        runs_on: "self-hosted".to_string(),
        permissions: None,
        steps: vec![],
        is_reusable_call: false,
        line: None,
    }]);
    let rules = RuleSet {
        rules: vec![Rule {
            id: "r".to_string(),
            title: "t".to_string(),
            severity: Severity::Low,
            description: String::new(),
            remediation: String::new(),
            cwe: None,
            condition: Condition::RunsOnContains("self".to_string()),
        }],
    };
    let without = run_all(&wf, None);
    let with = run_all(&wf, Some(&rules));
    assert_eq!(without.len(), 1);
    assert_eq!(without[0].finding_type, FindingType::SelfHostedRunner);
    assert_eq!(with.len(), 2);
    assert_eq!(with[1].finding_type, FindingType::Custom("r".to_string()));
}

#[test]
fn conditions_without_step_leaves_ignore_the_step() {
    let wf = workflow_with(vec![]);
    let j = Job {
        id: "build".to_string(),
        runs_on: "self-hosted".to_string(),
        permissions: None,
        steps: vec![],
        is_reusable_call: false,
        line: None,
    };
    let st = bare_step("s", Some("docker://x"));
    let cond = Condition::All(vec![
        Condition::RunsOnContains("self".to_string()),
        Condition::TriggerEquals("push".to_string()),
    ]);
    let with_step = MatchContext { workflow: &wf, job: Some(&j), step: Some(&st) };
    let without_step = MatchContext { workflow: &wf, job: Some(&j), step: None };
    assert!(!cond.touches_step());
    assert_eq!(cond.eval(&with_step), cond.eval(&without_step));
    assert!(cond.eval(&without_step));
}

#[test]
fn every_finding_names_its_workflow() {
    let st = Step {
        name: Some("s".to_string()),
        uses: Some("some-org/x@main".to_string()),
        run: Some("echo ${{ github.event.issue.title }}".to_string()),
        env: vec![("TOKEN".to_string(), "${{ secrets.T }}".to_string())],
        with: vec![("key".to_string(), "${{ secrets.K }}".to_string())],
        line: Some(3),
    };
    let mut wf = workflow_with(vec![Job {
        id: "build".to_string(),
        runs_on: "self-hosted".to_string(),
        permissions: Some(Permissions { write_all: true, ..Default::default() }),
        steps: vec![st],
        is_reusable_call: false,
        line: Some(2),
    }]);
    wf.path = ".github/workflows/ci.yml".to_string();
    let rules = RuleSet {
        rules: vec![Rule {
            id: "any-step".to_string(),
            title: "t".to_string(),
            severity: Severity::Low,
            description: String::new(),
            remediation: String::new(),
            cwe: None,
            condition: Condition::RunContains("echo".to_string()),
        }],
    };
    let findings = run_all(&wf, Some(&rules));
    assert!(findings.len() >= 6);
    assert!(findings.iter().all(|f| f.workflow == ".github/workflows/ci.yml"));
}

#[test]
fn evaluate_rule_reports_at_the_rule_granularity() {
    let job_with = |id: &str, runs_on: &str, steps: Vec<Step>| Job {
        id: id.to_string(),
        runs_on: runs_on.to_string(),
        permissions: None,
        steps,
        is_reusable_call: false,
        line: None,
    };
    let wf = workflow_with(vec![
        job_with("a", "self-hosted", vec![bare_step("s1", Some("docker://x")), bare_step("s2", None)]),
        job_with("b", "ubuntu-latest", vec![bare_step("s3", Some("docker://y"))]),
    ]);
    let mk = |condition: Condition| Rule {
        id: "r".to_string(),
        title: "t".to_string(),
        severity: Severity::High,
        description: "d".to_string(),
        remediation: "m".to_string(),
        cwe: None,
        condition,
    };
    let per_step = evaluate_rule(&mk(Condition::UsesMatches("^docker://".to_string())), &wf);
    assert_eq!(per_step.len(), 2);
    assert_eq!(per_step[0].job_id, Some("a".to_string()));
    assert_eq!(per_step[1].step_name, Some("s3".to_string()));
    let per_job = evaluate_rule(&mk(Condition::RunsOnContains("self".to_string())), &wf);
    assert_eq!(per_job.len(), 1);
    assert_eq!(per_job[0].step_name, None);
    let per_workflow = evaluate_rule(&mk(Condition::TriggerEquals("push".to_string())), &wf);
    assert_eq!(per_workflow.len(), 1);
    assert_eq!(per_workflow[0].job_id, None);
    assert!(per_step.iter().chain(&per_job).chain(&per_workflow).all(|f| f.severity == Severity::High
        && f.finding_type == FindingType::Custom("r".to_string())
        && f.workflow == "wf.yml"));
}
