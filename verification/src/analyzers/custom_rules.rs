//! Evaluates user-authored rules against a workflow.

use vstd::prelude::*;
use crate::models::{
    append_findings, clone_opt_string, findings_view, flat_map, lemma_findings_view_push,
    lemma_flat_map_all, lemma_flat_map_at_most_one, lemma_flat_map_full, lemma_flat_map_len_le,
    lemma_flat_map_take, Finding, FindingKind, FindingType, FindingView, Job,
    Step, WorkflowFile,
};
use crate::rules::{holds, uses_job_leaf, uses_step_leaf, MatchContext, Rule, RuleSet};

verus! {

/// The finding a rule reports at one place.
pub open spec fn rule_finding(
    rule: Rule,
    workflow: WorkflowFile,
    job_id: Option<Seq<char>>,
    step_name: Option<Seq<char>>,
    line: Option<usize>,
) -> FindingView {
    FindingView {
        workflow: workflow.path@,
        job_id: job_id,
        step_name: step_name,
        finding_type: FindingKind::Custom(rule.id@),
        severity: rule.severity,
        title: rule.title@,
        description: rule.description@,
        evidence: "custom rule '"@ + rule.id@ + "' matched"@,
        remediation: rule.remediation@,
        cwe: rule.cwe.deep_view(),
        line: line,
    }
}

/// A step-level rule at one step.
pub open spec fn rule_step_findings(rule: Rule, workflow: WorkflowFile, job: Job, step: Step) -> Seq<
    FindingView,
> {
    if holds(
        rule.condition,
        MatchContext { workflow: &workflow, job: Some(&job), step: Some(&step) },
    ) {
        seq![rule_finding(rule, workflow, Some(job.id@), step.name.deep_view(), step.line)]
    } else {
        Seq::empty()
    }
}

/// A step-level rule at every step of one job.
pub open spec fn rule_job_steps_findings(rule: Rule, workflow: WorkflowFile, job: Job) -> Seq<
    FindingView,
> {
    flat_map(job.steps@, |s: Step| rule_step_findings(rule, workflow, job, s))
}

/// A job-level rule at one job.
pub open spec fn rule_job_findings(rule: Rule, workflow: WorkflowFile, job: Job) -> Seq<
    FindingView,
> {
    if holds(rule.condition, MatchContext { workflow: &workflow, job: Some(&job), step: None }) {
        seq![rule_finding(rule, workflow, Some(job.id@), None, job.line)]
    } else {
        Seq::empty()
    }
}

/// What one rule reports: once per matching step if its condition uses a
/// step leaf; else once per matching job if it uses a job leaf; else at
/// most once for the workflow.
pub open spec fn rule_findings(rule: Rule, workflow: WorkflowFile) -> Seq<FindingView> {
    if uses_step_leaf(rule.condition) {
        flat_map(workflow.jobs@, |j: Job| rule_job_steps_findings(rule, workflow, j))
    } else if uses_job_leaf(rule.condition) {
        flat_map(workflow.jobs@, |j: Job| rule_job_findings(rule, workflow, j))
    } else if holds(rule.condition, MatchContext { workflow: &workflow, job: None, step: None }) {
        seq![rule_finding(rule, workflow, None, None, None)]
    } else {
        Seq::empty()
    }
}

/// What all rules report, rule by rule in file order.
pub open spec fn custom_findings(workflow: WorkflowFile, rules: RuleSet) -> Seq<FindingView> {
    flat_map(rules.rules@, |r: Rule| rule_findings(r, workflow))
}

fn build_finding(
    rule: &Rule,
    workflow: &WorkflowFile,
    job_id: Option<String>,
    step_name: Option<String>,
    line: Option<usize>,
) -> (res: Finding)
    ensures
        res@ == rule_finding(*rule, *workflow, job_id.deep_view(), step_name.deep_view(), line),
{
    let mut evidence = String::from_str("custom rule '");
    evidence.append(rule.id.as_str());
    evidence.append("' matched");
    Finding {
        workflow: workflow.path.clone(),
        job_id,
        step_name,
        finding_type: FindingType::Custom(rule.id.clone()),
        severity: rule.severity,
        title: rule.title.clone(),
        description: rule.description.clone(),
        evidence,
        remediation: rule.remediation.clone(),
        cwe: clone_opt_string(&rule.cwe),
        line,
    }
}

fn step_rule_in_job(rule: &Rule, workflow: &WorkflowFile, job: &Job) -> (res: Vec<Finding>)
    ensures
        findings_view(res@) == rule_job_steps_findings(*rule, *workflow, *job),
{
    let ghost f = |s: Step| rule_step_findings(*rule, *workflow, *job, s);
    let mut findings: Vec<Finding> = Vec::new();
    let mut k: usize = 0;
    while k < job.steps.len()
        invariant
            k <= job.steps@.len(),
            f == (|s: Step| rule_step_findings(*rule, *workflow, *job, s)),
            findings_view(findings@) == flat_map(job.steps@.take(k as int), f),
        decreases job.steps@.len() - k,
    {
        let step = &job.steps[k];
        proof {
            lemma_flat_map_take(job.steps@, f, k as int);
        }
        let ctx = MatchContext { workflow, job: Some(job), step: Some(step) };
        if rule.condition.eval(&ctx) {
            let finding = build_finding(
                rule,
                workflow,
                Some(job.id.clone()),
                clone_opt_string(&step.name),
                step.line,
            );
            proof {
                lemma_findings_view_push(findings@, finding);
            }
            findings.push(finding);
        }
        k += 1;
    }
    proof {
        lemma_flat_map_full(job.steps@, f);
    }
    findings
}

/// The findings of one rule against one workflow (see `rule_findings`).
pub fn evaluate_rule(rule: &Rule, workflow: &WorkflowFile) -> (res: Vec<Finding>)
    ensures
        findings_view(res@) == rule_findings(*rule, *workflow),
{
    let mut findings: Vec<Finding> = Vec::new();
    if rule.condition.touches_step() {
        let ghost f = |j: Job| rule_job_steps_findings(*rule, *workflow, j);
        let mut i: usize = 0;
        while i < workflow.jobs.len()
            invariant
                i <= workflow.jobs@.len(),
                f == (|j: Job| rule_job_steps_findings(*rule, *workflow, j)),
                findings_view(findings@) == flat_map(workflow.jobs@.take(i as int), f),
            decreases workflow.jobs@.len() - i,
        {
            proof {
                lemma_flat_map_take(workflow.jobs@, f, i as int);
            }
            append_findings(&mut findings, step_rule_in_job(rule, workflow, &workflow.jobs[i]));
            i += 1;
        }
        proof {
            lemma_flat_map_full(workflow.jobs@, f);
        }
    } else if rule.condition.touches_job() {
        let ghost f = |j: Job| rule_job_findings(*rule, *workflow, j);
        let mut i: usize = 0;
        while i < workflow.jobs.len()
            invariant
                i <= workflow.jobs@.len(),
                f == (|j: Job| rule_job_findings(*rule, *workflow, j)),
                findings_view(findings@) == flat_map(workflow.jobs@.take(i as int), f),
            decreases workflow.jobs@.len() - i,
        {
            let job = &workflow.jobs[i];
            proof {
                lemma_flat_map_take(workflow.jobs@, f, i as int);
            }
            let ctx = MatchContext { workflow, job: Some(job), step: None };
            if rule.condition.eval(&ctx) {
                let finding = build_finding(rule, workflow, Some(job.id.clone()), None, job.line);
                proof {
                    lemma_findings_view_push(findings@, finding);
                }
                findings.push(finding);
            }
            i += 1;
        }
        proof {
            lemma_flat_map_full(workflow.jobs@, f);
        }
    } else {
        let ctx = MatchContext { workflow, job: None, step: None };
        if rule.condition.eval(&ctx) {
            let finding = build_finding(rule, workflow, None, None, None);
            proof {
                lemma_findings_view_push(findings@, finding);
            }
            findings.push(finding);
        }
        assert(findings_view(findings@) =~= rule_findings(*rule, *workflow));
    }
    findings
}

/// What every rule reports, rule by rule in file order (see
/// `rule_findings` for the granularity of each rule).
pub fn analyze(workflow: &WorkflowFile, rules: &RuleSet) -> (res: Vec<Finding>)
    ensures
        findings_view(res@) == custom_findings(*workflow, *rules),
{
    let ghost f = |r: Rule| rule_findings(r, *workflow);
    let mut findings: Vec<Finding> = Vec::new();
    let mut i: usize = 0;
    while i < rules.rules.len()
        invariant
            i <= rules.rules@.len(),
            f == (|r: Rule| rule_findings(r, *workflow)),
            findings_view(findings@) == flat_map(rules.rules@.take(i as int), f),
        decreases rules.rules@.len() - i,
    {
        proof {
            lemma_flat_map_take(rules.rules@, f, i as int);
        }
        append_findings(&mut findings, evaluate_rule(&rules.rules[i], workflow));
        i += 1;
    }
    proof {
        lemma_flat_map_full(rules.rules@, f);
    }
    findings
}

/// Law: a rule reports at most once per step when its condition uses a
/// step-level leaf, at most once per job when it uses a job-level leaf and
/// no step-level one, and at most once for the whole workflow otherwise.
pub proof fn lemma_rule_report_counts(rule: Rule, workflow: WorkflowFile)
    ensures
        uses_step_leaf(rule.condition) ==> rule_findings(rule, workflow).len() <= flat_map(
            workflow.jobs@,
            |j: Job| j.steps@,
        ).len(),
        !uses_step_leaf(rule.condition) && uses_job_leaf(rule.condition) ==> rule_findings(
            rule,
            workflow,
        ).len() <= workflow.jobs@.len(),
        !uses_step_leaf(rule.condition) && !uses_job_leaf(rule.condition) ==> rule_findings(
            rule,
            workflow,
        ).len() <= 1,
{
    let jobs = workflow.jobs@;
    assert forall|i: int| 0 <= i < jobs.len() implies (#[trigger] rule_job_steps_findings(
        rule,
        workflow,
        jobs[i],
    )).len() <= (|j: Job| j.steps@)(jobs[i]).len() by {
        let j = jobs[i];
        lemma_flat_map_at_most_one(j.steps@, |s: Step| rule_step_findings(rule, workflow, j, s));
    }
    lemma_flat_map_len_le(
        jobs,
        |j: Job| rule_job_steps_findings(rule, workflow, j),
        |j: Job| j.steps@,
    );
    lemma_flat_map_at_most_one(jobs, |j: Job| rule_job_findings(rule, workflow, j));
}

/// Whether a finding carries what `rule` reports against `workflow`: the
/// workflow's file, the rule's id as its kind, and the rule's severity,
/// title, description, remediation and CWE.
pub open spec fn from_rule(f: FindingView, rule: Rule, workflow: WorkflowFile) -> bool {
    &&& f.workflow == workflow.path@
    &&& f.finding_type == FindingKind::Custom(rule.id@)
    &&& f.severity == rule.severity
    &&& f.title == rule.title@
    &&& f.description == rule.description@
    &&& f.remediation == rule.remediation@
    &&& f.cwe == rule.cwe.deep_view()
}

/// Law: every finding of a rule carries the rule's kind, severity and
/// texts; a step-level rule's findings name their job; a job-level rule's
/// findings name their job and no step; a workflow-level rule reports once
/// exactly when its condition holds for the workflow, naming no job and no
/// step.
pub proof fn lemma_rule_finding_shape(rule: Rule, workflow: WorkflowFile)
    ensures
        forall|k: int|
            0 <= k < rule_findings(rule, workflow).len() ==> from_rule(
                #[trigger] rule_findings(rule, workflow)[k],
                rule,
                workflow,
            ),
        uses_step_leaf(rule.condition) ==> forall|k: int|
            0 <= k < rule_findings(rule, workflow).len() ==> (#[trigger] rule_findings(
                rule,
                workflow,
            )[k]).job_id is Some,
        !uses_step_leaf(rule.condition) && uses_job_leaf(rule.condition) ==> forall|k: int|
            0 <= k < rule_findings(rule, workflow).len() ==> (#[trigger] rule_findings(
                rule,
                workflow,
            )[k]).job_id is Some && rule_findings(rule, workflow)[k].step_name is None,
        !uses_step_leaf(rule.condition) && !uses_job_leaf(rule.condition) ==> {
            &&& rule_findings(rule, workflow).len() == if holds(
                rule.condition,
                MatchContext { workflow: &workflow, job: None, step: None },
            ) {
                1int
            } else {
                0int
            }
            &&& forall|k: int|
                0 <= k < rule_findings(rule, workflow).len() ==> (#[trigger] rule_findings(
                    rule,
                    workflow,
                )[k]).job_id is None && rule_findings(rule, workflow)[k].step_name is None
        },
{
    let jobs = workflow.jobs@;
    let step_p = |f: FindingView| from_rule(f, rule, workflow) && f.job_id is Some;
    let job_p = |f: FindingView|
        from_rule(f, rule, workflow) && f.job_id is Some && f.step_name is None;
    if uses_step_leaf(rule.condition) {
        assert forall|i: int, k: int|
            0 <= i < jobs.len() && 0 <= k < rule_job_steps_findings(
                rule,
                workflow,
                jobs[i],
            ).len() implies step_p(#[trigger] rule_job_steps_findings(rule, workflow, jobs[i])[k]) by {
            let j = jobs[i];
            let g = |s: Step| rule_step_findings(rule, workflow, j, s);
            assert forall|a: int, b: int|
                0 <= a < j.steps@.len() && 0 <= b < g(j.steps@[a]).len() implies step_p(
                #[trigger] g(j.steps@[a])[b],
            ) by {}
            lemma_flat_map_all(j.steps@, g, step_p);
        }
        lemma_flat_map_all(jobs, |j: Job| rule_job_steps_findings(rule, workflow, j), step_p);
    } else if uses_job_leaf(rule.condition) {
        let g = |j: Job| rule_job_findings(rule, workflow, j);
        assert forall|i: int, k: int| 0 <= i < jobs.len() && 0 <= k < g(jobs[i]).len() implies job_p(
            #[trigger] g(jobs[i])[k],
        ) by {}
        lemma_flat_map_all(jobs, g, job_p);
    }
}

} // verus!
