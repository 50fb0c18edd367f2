//! Flags jobs that run on self-hosted runners.

use vstd::prelude::*;
use crate::models::{
    findings_view, flat_map, lemma_findings_view_push, lemma_flat_map_full, lemma_flat_map_take,
    Finding, FindingKind, FindingType, FindingView, Job, Severity, WorkflowFile,
};
use crate::analyzers::permissions::{is_pr_triggered, pr_triggered};
use crate::text::{contains_seq, lowercase, str_contains, to_lowercase};

verus! {

/// Remediation advice for a self-hosted runner finding.
pub open spec fn runner_remediation() -> Seq<char> {
    "Run self-hosted runners in ephemeral containers \
                    to prevent state persistence between jobs. Isolate runners in a \
                    dedicated network segment. For workflows triggered by external \
                    contributors, prefer GitHub-hosted runners. \
                    Use Just-in-Time (JIT) runners where possible."@
}

/// Whether a runner label list names a self-hosted runner (case-insensitively).
pub open spec fn is_self_hosted(runs_on: Seq<char>) -> bool {
    contains_seq(lowercase(runs_on), "self-hosted"@)
}

/// The finding for one job, if it runs on a self-hosted runner: medium,
/// and high when pull requests from outside contributors trigger the
/// workflow.
pub open spec fn runner_job_findings(workflow: WorkflowFile, job: Job) -> Seq<FindingView> {
    if is_self_hosted(job.runs_on@) {
        seq![FindingView {
            workflow: workflow.path@,
            job_id: Some(job.id@),
            step_name: None,
            finding_type: FindingKind::SelfHostedRunner,
            severity: if pr_triggered(workflow) {
                Severity::High
            } else {
                Severity::Medium
            },
            title: "Self-hosted runner in job '"@ + job.id@ + "'"@,
            description: "Job '"@ + job.id@ + "' runs on a self-hosted runner ("@ + job.runs_on@
                + "). \
                     Self-hosted runners are persistent, reachable from within your network, \
                     and retain state between workflow runs. A compromised workflow can \
                     pivot to internal systems, read cached credentials, or tamper \
                     with build artifacts."@,
            evidence: "runs-on: "@ + job.runs_on@,
            remediation: runner_remediation(),
            cwe: Some("CWE-653: Insufficient Isolation or Compartmentalization"@),
            line: job.line,
        }]
    } else {
        Seq::empty()
    }
}

/// All self-hosted runner findings of a workflow, in job order.
pub open spec fn runner_findings(workflow: WorkflowFile) -> Seq<FindingView> {
    flat_map(workflow.jobs@, |j: Job| runner_job_findings(workflow, j))
}

fn runner_finding(workflow: &WorkflowFile, job: &Job, pr: bool) -> (res: Finding)
    requires
        is_self_hosted(job.runs_on@),
        pr == pr_triggered(*workflow),
    ensures
        seq![res@] == runner_job_findings(*workflow, *job),
{
    let mut title = String::from_str("Self-hosted runner in job '");
    title.append(job.id.as_str());
    title.append("'");
    let mut description = String::from_str("Job '");
    description.append(job.id.as_str());
    description.append("' runs on a self-hosted runner (");
    description.append(job.runs_on.as_str());
    description.append(
        "). \
                     Self-hosted runners are persistent, reachable from within your network, \
                     and retain state between workflow runs. A compromised workflow can \
                     pivot to internal systems, read cached credentials, or tamper \
                     with build artifacts.",
    );
    let mut evidence = String::from_str("runs-on: ");
    evidence.append(job.runs_on.as_str());
    Finding {
        workflow: workflow.path.clone(),
        job_id: Some(job.id.clone()),
        step_name: None,
        finding_type: FindingType::SelfHostedRunner,
        severity: if pr {
            Severity::High
        } else {
            Severity::Medium
        },
        title,
        description,
        evidence,
        remediation: String::from_str(
            "Run self-hosted runners in ephemeral containers \
                    to prevent state persistence between jobs. Isolate runners in a \
                    dedicated network segment. For workflows triggered by external \
                    contributors, prefer GitHub-hosted runners. \
                    Use Just-in-Time (JIT) runners where possible.",
        ),
        cwe: Some(String::from_str("CWE-653: Insufficient Isolation or Compartmentalization")),
        line: job.line,
    }
}

/// One finding for each job whose `runs-on` mentions `self-hosted`
/// (case-insensitively), in job order: medium, or high when the workflow is
/// triggered by `pull_request` or `pull_request_target`.
pub fn analyze(workflow: &WorkflowFile) -> (res: Vec<Finding>)
    ensures
        findings_view(res@) == runner_findings(*workflow),
{
    let ghost f = |j: Job| runner_job_findings(*workflow, j);
    let pr = is_pr_triggered(workflow);
    let mut findings: Vec<Finding> = Vec::new();
    let mut i: usize = 0;
    while i < workflow.jobs.len()
        invariant
            i <= workflow.jobs@.len(),
            f == (|j: Job| runner_job_findings(*workflow, j)),
            pr == pr_triggered(*workflow),
            findings_view(findings@) == flat_map(workflow.jobs@.take(i as int), f),
        decreases workflow.jobs@.len() - i,
    {
        let job = &workflow.jobs[i];
        proof {
            lemma_flat_map_take(workflow.jobs@, f, i as int);
        }
        let lowered = to_lowercase(job.runs_on.as_str());
        if str_contains(lowered.as_str(), "self-hosted") {
            let finding = runner_finding(workflow, job, pr);
            proof {
                lemma_findings_view_push(findings@, finding);
            }
            findings.push(finding);
        }
        i += 1;
    }
    proof {
        lemma_flat_map_full(workflow.jobs@, f);
    }
    findings
}

} // verus!
