//! Detects Pwn Request patterns and excessive permission grants.

use vstd::prelude::*;
use crate::models::{
    append_findings, clone_opt_string, findings_view, flat_map, lemma_findings_view_push,
    lemma_flat_map_all, lemma_flat_map_contains, lemma_flat_map_full, lemma_flat_map_take, Finding, FindingKind, FindingType, FindingView, Job,
    Permissions, Severity, Step, WorkflowFile,
};
use crate::text::{contains_seq, starts_with, str_contains, str_eq, str_starts_with};

verus! {

/// The workflow lists `trigger` among its triggers.
pub open spec fn has_trigger(workflow: WorkflowFile, trigger: Seq<char>) -> bool {
    exists|i: int| 0 <= i < workflow.triggers@.len() && #[trigger] workflow.triggers@[i]@ == trigger
}

/// Whether the workflow runs for pull requests from outside contributors:
/// it is triggered by `pull_request` or `pull_request_target`.
pub open spec fn pr_triggered(workflow: WorkflowFile) -> bool {
    has_trigger(workflow, "pull_request"@) || has_trigger(workflow, "pull_request_target"@)
}

/// A `with:` entry that checks out the pull request's head.
pub open spec fn is_pr_head_ref(entry: (String, String)) -> bool {
    &&& entry.0@ == "ref"@
    &&& (contains_seq(entry.1@, "github.event.pull_request.head"@) || contains_seq(
        entry.1@,
        "github.head_ref"@,
    ))
}

/// The value of the first `with:` entry that checks out the pull request's head.
pub open spec fn first_pr_head_ref(with: Seq<(String, String)>) -> Option<Seq<char>>
    decreases with.len(),
{
    if with.len() == 0 {
        None
    } else if is_pr_head_ref(with[0]) {
        Some(with[0].1@)
    } else {
        first_pr_head_ref(with.drop_first())
    }
}

/// Remediation advice for a Pwn Request finding.
pub open spec fn pwn_remediation() -> Seq<char> {
    "Never check out PR head code in pull_request_target \
                                workflows. Use a two-workflow pattern: a pull_request workflow \
                                runs the untrusted code with no secrets; a separate \
                                pull_request_target workflow handles write operations after \
                                downloading artifacts from the first run."@
}

/// The Pwn Request finding of one step, if it checks out the PR head.
pub open spec fn pwn_step_findings(workflow: WorkflowFile, job: Job, step: Step) -> Seq<
    FindingView,
> {
    match step.uses {
        Some(uses) => if starts_with(uses@, "actions/checkout"@) {
            match first_pr_head_ref(step.with@) {
                Some(ref_value) => seq![FindingView {
                    workflow: workflow.path@,
                    job_id: Some(job.id@),
                    step_name: step.name.deep_view(),
                    finding_type: FindingKind::PwnRequest,
                    severity: Severity::Critical,
                    title: "Pwn Request: pull_request_target checks out PR head branch"@,
                    description: "Workflow is triggered by 'pull_request_target' and job '"@
                        + job.id@ + "' checks \
                                 out the PR contributor's code. The untrusted code runs with full \
                                 write permissions and access to all repository secrets. \
                                 This is the classic Pwn Request attack vector."@,
                    evidence: "trigger=pull_request_target, checkout ref="@ + ref_value,
                    remediation: pwn_remediation(),
                    cwe: Some("CWE-913: Improper Control of Dynamically-Managed Code Resources"@),
                    line: step.line,
                }],
                None => Seq::empty(),
            }
        } else {
            Seq::empty()
        },
        None => Seq::empty(),
    }
}

/// The Pwn Request findings of one job, in step order.
pub open spec fn pwn_job_findings(workflow: WorkflowFile, job: Job) -> Seq<FindingView> {
    flat_map(job.steps@, |s: Step| pwn_step_findings(workflow, job, s))
}

/// All Pwn Request findings: none unless the workflow is triggered by
/// `pull_request_target`.
pub open spec fn pwn_findings(workflow: WorkflowFile) -> Seq<FindingView> {
    if has_trigger(workflow, "pull_request_target"@) {
        flat_map(workflow.jobs@, |j: Job| pwn_job_findings(workflow, j))
    } else {
        Seq::empty()
    }
}

/// The CWE reference of every excessive-permission finding.
pub open spec fn privilege_cwe() -> Seq<char> {
    "CWE-250: Execution with Unnecessary Privileges"@
}

/// Finding for a workflow-level `write-all` grant.
pub open spec fn global_write_all_finding(path: Seq<char>) -> FindingView {
    FindingView {
        workflow: path,
        job_id: None,
        step_name: None,
        finding_type: FindingKind::ExcessivePermissions,
        severity: Severity::High,
        title: "Workflow-level permission: write-all"@,
        description: "The workflow grants write access to all scopes at the top level. \
                All jobs inherit these permissions, including jobs that do not require write access."@,
        evidence: "permissions: write-all"@,
        remediation: "Apply the principle of least privilege. Set \
                `permissions: {}` at the workflow level to deny all by default, \
                then grant only the specific permissions each job requires."@,
        cwe: Some(privilege_cwe()),
        line: None,
    }
}

/// Finding for a workflow-level `contents: write` grant: high, and
/// critical when pull requests trigger the workflow (`pr`).
pub open spec fn global_contents_write_finding(path: Seq<char>, pr: bool) -> FindingView {
    FindingView {
        workflow: path,
        job_id: None,
        step_name: None,
        finding_type: FindingKind::ExcessivePermissions,
        severity: if pr {
            Severity::Critical
        } else {
            Severity::High
        },
        title: "Workflow-level permission: contents write"@,
        description: "The workflow grants write access to repository contents at the \
                workflow level. All jobs can push commits, create tags, and modify releases."@,
        evidence: "permissions.contents: write"@,
        remediation: "Move contents write permission to the specific job that requires it \
                and set it to read at the workflow level."@,
        cwe: Some(privilege_cwe()),
        line: None,
    }
}

/// Finding for a workflow-level `pull-requests: write` grant.
pub open spec fn global_pull_requests_write_finding(path: Seq<char>) -> FindingView {
    FindingView {
        workflow: path,
        job_id: None,
        step_name: None,
        finding_type: FindingKind::ExcessivePermissions,
        severity: Severity::Medium,
        title: "Workflow-level permission: pull-requests write"@,
        description: "The workflow grants write access to pull requests at the workflow level."@,
        evidence: "permissions.pull-requests: write"@,
        remediation: "Scope pull-requests write to the specific job that posts comments \
                or labels."@,
        cwe: Some(privilege_cwe()),
        line: None,
    }
}

/// Whether an optional grant is exactly `write`.
pub open spec fn grants_write(value: Option<String>) -> bool {
    match value {
        Some(v) => v@ == "write"@,
        None => false,
    }
}

/// The workflow-level permission findings: write-all, then contents write,
/// then pull-requests write.
pub open spec fn global_permission_findings(workflow: WorkflowFile) -> Seq<FindingView> {
    match workflow.global_permissions {
        None => Seq::empty(),
        Some(p) => (if p.write_all {
            seq![global_write_all_finding(workflow.path@)]
        } else {
            Seq::empty()
        }) + (if grants_write(p.contents) {
            seq![global_contents_write_finding(workflow.path@, pr_triggered(workflow))]
        } else {
            Seq::empty()
        }) + (if grants_write(p.pull_requests) {
            seq![global_pull_requests_write_finding(workflow.path@)]
        } else {
            Seq::empty()
        }),
    }
}

/// The finding of one job that grants itself `write-all`.
pub open spec fn job_write_all_findings(workflow: WorkflowFile, job: Job) -> Seq<FindingView> {
    match job.permissions {
        Some(p) => if p.write_all {
            seq![FindingView {
                workflow: workflow.path@,
                job_id: Some(job.id@),
                step_name: None,
                finding_type: FindingKind::ExcessivePermissions,
                severity: Severity::High,
                title: "Job-level permission: write-all in '"@ + job.id@ + "'"@,
                description: "Job '"@ + job.id@ + "' explicitly grants write-all permissions. \
                         This gives every step in the job unrestricted write access."@,
                evidence: "jobs."@ + job.id@ + ".permissions: write-all"@,
                remediation: "Replace write-all with explicit per-scope permissions \
                        matching only what the job steps actually need."@,
                cwe: Some(privilege_cwe()),
                line: job.line,
            }]
        } else {
            Seq::empty()
        },
        None => Seq::empty(),
    }
}

/// All job-level `write-all` findings, in job order.
pub open spec fn job_write_all_all(workflow: WorkflowFile) -> Seq<FindingView> {
    flat_map(workflow.jobs@, |j: Job| job_write_all_findings(workflow, j))
}

/// Everything the permissions analyzer reports: Pwn Requests, then
/// workflow-level grants, then job-level `write-all`.
pub open spec fn permission_findings(workflow: WorkflowFile) -> Seq<FindingView> {
    pwn_findings(workflow) + global_permission_findings(workflow) + job_write_all_all(workflow)
}

fn first_pr_head_ref_exec(with: &Vec<(String, String)>) -> (res: Option<String>)
    ensures
        match res {
            Some(v) => first_pr_head_ref(with@) == Some(v@),
            None => first_pr_head_ref(with@) is None,
        },
{
    let n = with.len();
    let mut k: usize = 0;
    assert(with@.subrange(0, n as int) =~= with@);
    while k < n
        invariant
            n == with@.len(),
            k <= n,
            first_pr_head_ref(with@) == first_pr_head_ref(with@.subrange(k as int, n as int)),
        decreases n - k,
    {
        let entry = &with[k];
        if str_eq(entry.0.as_str(), "ref") && (str_contains(
            entry.1.as_str(),
            "github.event.pull_request.head",
        ) || str_contains(entry.1.as_str(), "github.head_ref")) {
            return Some(entry.1.clone());
        }
        assert(with@.subrange(k as int, n as int).drop_first() =~= with@.subrange(
            k + 1,
            n as int,
        ));
        k += 1;
    }
    None
}

fn pwn_job(workflow: &WorkflowFile, job: &Job) -> (res: Vec<Finding>)
    ensures
        findings_view(res@) == pwn_job_findings(*workflow, *job),
{
    let ghost f = |s: Step| pwn_step_findings(*workflow, *job, s);
    let mut findings: Vec<Finding> = Vec::new();
    let mut k: usize = 0;
    while k < job.steps.len()
        invariant
            k <= job.steps@.len(),
            f == (|s: Step| pwn_step_findings(*workflow, *job, s)),
            findings_view(findings@) == flat_map(job.steps@.take(k as int), f),
        decreases job.steps@.len() - k,
    {
        let step = &job.steps[k];
        proof {
            lemma_flat_map_take(job.steps@, f, k as int);
        }
        if let Some(uses) = &step.uses {
            if str_starts_with(uses.as_str(), "actions/checkout") {
                if let Some(ref_value) = first_pr_head_ref_exec(&step.with) {
                    let mut description = String::from_str(
                        "Workflow is triggered by 'pull_request_target' and job '",
                    );
                    description.append(job.id.as_str());
                    description.append(
                        "' checks \
                                 out the PR contributor's code. The untrusted code runs with full \
                                 write permissions and access to all repository secrets. \
                                 This is the classic Pwn Request attack vector.",
                    );
                    let mut evidence = String::from_str(
                        "trigger=pull_request_target, checkout ref=",
                    );
                    evidence.append(ref_value.as_str());
                    let finding = Finding {
                        workflow: workflow.path.clone(),
                        job_id: Some(job.id.clone()),
                        step_name: clone_opt_string(&step.name),
                        finding_type: FindingType::PwnRequest,
                        severity: Severity::Critical,
                        title: String::from_str(
                            "Pwn Request: pull_request_target checks out PR head branch",
                        ),
                        description,
                        evidence,
                        remediation: String::from_str(
                            "Never check out PR head code in pull_request_target \
                                workflows. Use a two-workflow pattern: a pull_request workflow \
                                runs the untrusted code with no secrets; a separate \
                                pull_request_target workflow handles write operations after \
                                downloading artifacts from the first run.",
                        ),
                        cwe: Some(
                            String::from_str(
                                "CWE-913: Improper Control of Dynamically-Managed Code Resources",
                            ),
                        ),
                        line: step.line,
                    };
                    proof {
                        lemma_findings_view_push(findings@, finding);
                    }
                    findings.push(finding);
                }
            }
        }
        k += 1;
    }
    proof {
        lemma_flat_map_full(job.steps@, f);
    }
    findings
}

/// Whether pull requests from outside contributors trigger the workflow.
pub fn is_pr_triggered(workflow: &WorkflowFile) -> (res: bool)
    ensures
        res == pr_triggered(*workflow),
{
    workflow_has_trigger(workflow, "pull_request") || workflow_has_trigger(
        workflow,
        "pull_request_target",
    )
}

/// Whether the workflow lists `trigger` among its triggers.
pub fn workflow_has_trigger(workflow: &WorkflowFile, trigger: &str) -> (res: bool)
    ensures
        res == has_trigger(*workflow, trigger@),
{
    let mut i: usize = 0;
    while i < workflow.triggers.len()
        invariant
            i <= workflow.triggers@.len(),
            forall|j: int| 0 <= j < i ==> #[trigger] workflow.triggers@[j]@ != trigger@,
        decreases workflow.triggers@.len() - i,
    {
        if str_eq(workflow.triggers[i].as_str(), trigger) {
            return true;
        }
        i += 1;
    }
    false
}

/// One critical finding for each `actions/checkout` step that checks out
/// the pull request's head (a `with: ref` naming
/// `github.event.pull_request.head` or `github.head_ref`), when the workflow
/// is triggered by `pull_request_target`; nothing otherwise.
pub fn detect_pwn_request(workflow: &WorkflowFile) -> (res: Vec<Finding>)
    ensures
        findings_view(res@) == pwn_findings(*workflow),
{
    let mut findings: Vec<Finding> = Vec::new();
    if !workflow_has_trigger(workflow, "pull_request_target") {
        return findings;
    }
    let ghost f = |j: Job| pwn_job_findings(*workflow, j);
    let mut i: usize = 0;
    while i < workflow.jobs.len()
        invariant
            i <= workflow.jobs@.len(),
            f == (|j: Job| pwn_job_findings(*workflow, j)),
            findings_view(findings@) == flat_map(workflow.jobs@.take(i as int), f),
        decreases workflow.jobs@.len() - i,
    {
        proof {
            lemma_flat_map_take(workflow.jobs@, f, i as int);
        }
        let more = pwn_job(workflow, &workflow.jobs[i]);
        append_findings(&mut findings, more);
        i += 1;
    }
    proof {
        lemma_flat_map_full(workflow.jobs@, f);
    }
    findings
}

fn opt_is_write(value: &Option<String>) -> (res: bool)
    ensures
        res == grants_write(*value),
{
    match value {
        Some(v) => str_eq(v.as_str(), "write"),
        None => false,
    }
}

/// The workflow-level findings: `write-all` (high), `contents: write`
/// (high, critical when pull requests trigger the workflow) and
/// `pull-requests: write` (medium), in that order.
pub fn detect_global_write_permissions(workflow: &WorkflowFile) -> (res: Vec<Finding>)
    ensures
        findings_view(res@) == global_permission_findings(*workflow),
{
    let mut findings: Vec<Finding> = Vec::new();
    let perms: &Permissions = match &workflow.global_permissions {
        Some(p) => p,
        None => {
            return findings;
        },
    };
    if perms.write_all {
        let finding = Finding {
            workflow: workflow.path.clone(),
            job_id: None,
            step_name: None,
            finding_type: FindingType::ExcessivePermissions,
            severity: Severity::High,
            title: String::from_str("Workflow-level permission: write-all"),
            description: String::from_str(
                "The workflow grants write access to all scopes at the top level. \
                All jobs inherit these permissions, including jobs that do not require write access.",
            ),
            evidence: String::from_str("permissions: write-all"),
            remediation: String::from_str(
                "Apply the principle of least privilege. Set \
                `permissions: {}` at the workflow level to deny all by default, \
                then grant only the specific permissions each job requires.",
            ),
            cwe: Some(String::from_str("CWE-250: Execution with Unnecessary Privileges")),
            line: None,
        };
        proof {
            lemma_findings_view_push(findings@, finding);
        }
        findings.push(finding);
    }
    if opt_is_write(&perms.contents) {
        let finding = Finding {
            workflow: workflow.path.clone(),
            job_id: None,
            step_name: None,
            finding_type: FindingType::ExcessivePermissions,
            severity: if is_pr_triggered(workflow) {
                Severity::Critical
            } else {
                Severity::High
            },
            title: String::from_str("Workflow-level permission: contents write"),
            description: String::from_str(
                "The workflow grants write access to repository contents at the \
                workflow level. All jobs can push commits, create tags, and modify releases.",
            ),
            evidence: String::from_str("permissions.contents: write"),
            remediation: String::from_str(
                "Move contents write permission to the specific job that requires it \
                and set it to read at the workflow level.",
            ),
            cwe: Some(String::from_str("CWE-250: Execution with Unnecessary Privileges")),
            line: None,
        };
        proof {
            lemma_findings_view_push(findings@, finding);
        }
        findings.push(finding);
    }
    if opt_is_write(&perms.pull_requests) {
        let finding = Finding {
            workflow: workflow.path.clone(),
            job_id: None,
            step_name: None,
            finding_type: FindingType::ExcessivePermissions,
            severity: Severity::Medium,
            title: String::from_str("Workflow-level permission: pull-requests write"),
            description: String::from_str(
                "The workflow grants write access to pull requests at the workflow level.",
            ),
            evidence: String::from_str("permissions.pull-requests: write"),
            remediation: String::from_str(
                "Scope pull-requests write to the specific job that posts comments \
                or labels.",
            ),
            cwe: Some(String::from_str("CWE-250: Execution with Unnecessary Privileges")),
            line: None,
        };
        proof {
            lemma_findings_view_push(findings@, finding);
        }
        findings.push(finding);
    }
    assert(findings_view(findings@) =~= global_permission_findings(*workflow));
    findings
}

/// One high-severity finding for each job whose own permissions are
/// `write-all`, in job order.
pub fn detect_job_write_all(workflow: &WorkflowFile) -> (res: Vec<Finding>)
    ensures
        findings_view(res@) == job_write_all_all(*workflow),
{
    let ghost f = |j: Job| job_write_all_findings(*workflow, j);
    let mut findings: Vec<Finding> = Vec::new();
    let mut i: usize = 0;
    while i < workflow.jobs.len()
        invariant
            i <= workflow.jobs@.len(),
            f == (|j: Job| job_write_all_findings(*workflow, j)),
            findings_view(findings@) == flat_map(workflow.jobs@.take(i as int), f),
        decreases workflow.jobs@.len() - i,
    {
        let job = &workflow.jobs[i];
        proof {
            lemma_flat_map_take(workflow.jobs@, f, i as int);
        }
        if let Some(perms) = &job.permissions {
            if perms.write_all {
                let mut title = String::from_str("Job-level permission: write-all in '");
                title.append(job.id.as_str());
                title.append("'");
                let mut description = String::from_str("Job '");
                description.append(job.id.as_str());
                description.append(
                    "' explicitly grants write-all permissions. \
                         This gives every step in the job unrestricted write access.",
                );
                let mut evidence = String::from_str("jobs.");
                evidence.append(job.id.as_str());
                evidence.append(".permissions: write-all");
                let finding = Finding {
                    workflow: workflow.path.clone(),
                    job_id: Some(job.id.clone()),
                    step_name: None,
                    finding_type: FindingType::ExcessivePermissions,
                    severity: Severity::High,
                    title,
                    description,
                    evidence,
                    remediation: String::from_str(
                        "Replace write-all with explicit per-scope permissions \
                        matching only what the job steps actually need.",
                    ),
                    cwe: Some(String::from_str("CWE-250: Execution with Unnecessary Privileges")),
                    line: job.line,
                };
                proof {
                    lemma_findings_view_push(findings@, finding);
                }
                findings.push(finding);
            }
        }
        i += 1;
    }
    proof {
        lemma_flat_map_full(workflow.jobs@, f);
    }
    findings
}

/// Pwn Request findings, then workflow-level permission findings, then
/// job-level `write-all` findings.
pub fn analyze(workflow: &WorkflowFile) -> (res: Vec<Finding>)
    ensures
        findings_view(res@) == permission_findings(*workflow),
{
    let mut findings = detect_pwn_request(workflow);
    append_findings(&mut findings, detect_global_write_permissions(workflow));
    append_findings(&mut findings, detect_job_write_all(workflow));
    findings
}

/// A `ref:` entry naming the pull request's head is found by `first_pr_head_ref`.
proof fn lemma_first_pr_head_ref_found(with: Seq<(String, String)>, e: int)
    requires
        0 <= e < with.len(),
        with[e].0@ == "ref"@,
        contains_seq(with[e].1@, "github.event.pull_request.head"@) || contains_seq(
            with[e].1@,
            "github.head_ref"@,
        ),
    ensures
        first_pr_head_ref(with) is Some,
    decreases e,
{
    if !is_pr_head_ref(with[0]) {
        assert(with.drop_first()[e - 1] == with[e]);
        lemma_first_pr_head_ref_found(with.drop_first(), e - 1);
    }
}

/// Law: in a workflow triggered by `pull_request_target`, an
/// `actions/checkout` step whose `ref:` names the pull request's head
/// (`github.event.pull_request.head...` or `github.head_ref`) gets exactly
/// one Pwn Request finding of its own, and the analyzer reports it as
/// critical, naming its job and step.
pub proof fn lemma_pr_head_checkout_flagged(workflow: WorkflowFile, j: int, k: int, e: int)
    requires
        exists|t: int|
            0 <= t < workflow.triggers@.len() && #[trigger] workflow.triggers@[t]@
                == "pull_request_target"@,
        0 <= j < workflow.jobs@.len(),
        0 <= k < workflow.jobs@[j].steps@.len(),
        workflow.jobs@[j].steps@[k].uses matches Some(u) && starts_with(u@, "actions/checkout"@),
        0 <= e < workflow.jobs@[j].steps@[k].with@.len(),
        workflow.jobs@[j].steps@[k].with@[e].0@ == "ref"@,
        contains_seq(workflow.jobs@[j].steps@[k].with@[e].1@, "github.head_ref"@) || contains_seq(
            workflow.jobs@[j].steps@[k].with@[e].1@,
            "github.event.pull_request.head"@,
        ),
    ensures
        pwn_step_findings(workflow, workflow.jobs@[j], workflow.jobs@[j].steps@[k]).len() == 1,
        exists|m: int|
            0 <= m < permission_findings(workflow).len() && {
                let f = #[trigger] permission_findings(workflow)[m];
                &&& f.finding_type == FindingKind::PwnRequest
                &&& f.severity == Severity::Critical
                &&& f.workflow == workflow.path@
                &&& f.job_id == Some(workflow.jobs@[j].id@)
                &&& f.step_name == workflow.jobs@[j].steps@[k].name.deep_view()
                &&& f.line == workflow.jobs@[j].steps@[k].line
            },
{
    let job = workflow.jobs@[j];
    let step = job.steps@[k];
    lemma_first_pr_head_ref_found(step.with@, e);
    assert(has_trigger(workflow, "pull_request_target"@));
    let h = |s: Step| pwn_step_findings(workflow, job, s);
    let fnd = h(step)[0];
    lemma_flat_map_contains(job.steps@, h, k, 0);
    let jf = pwn_job_findings(workflow, job);
    let q = choose|q: int| 0 <= q < jf.len() && jf[q] == fnd;
    let g = |jj: Job| pwn_job_findings(workflow, jj);
    lemma_flat_map_contains(workflow.jobs@, g, j, q);
    let pw = pwn_findings(workflow);
    let m = choose|m: int| 0 <= m < pw.len() && pw[m] == fnd;
    let all = permission_findings(workflow);
    assert(all == pw + global_permission_findings(workflow) + job_write_all_all(workflow));
    assert(all[m] == pw[m]);
}

/// Whether a workflow-level finding reports a grant that `p` makes:
/// `write-all` (high), `contents: write` (critical when `pr`, else high) or
/// `pull-requests: write` (medium).
pub open spec fn reports_global_grant(f: FindingView, p: Permissions, pr: bool) -> bool {
    &&& f.finding_type == FindingKind::ExcessivePermissions
    &&& f.job_id is None
    &&& {
        ||| f.evidence == "permissions: write-all"@ && p.write_all && f.severity == Severity::High
        ||| f.evidence == "permissions.contents: write"@ && (p.contents matches Some(c) && c@
            == "write"@) && f.severity == if pr {
            Severity::Critical
        } else {
            Severity::High
        }
        ||| f.evidence == "permissions.pull-requests: write"@ && (p.pull_requests matches Some(c)
            && c@ == "write"@) && f.severity == Severity::Medium
    }
}

/// Law: the workflow-level permission findings are exactly the write
/// grants of the top-level `permissions:`: each finding reports a grant it
/// makes, and each of `write-all`, `contents: write` and
/// `pull-requests: write` that it makes is reported; `contents: write` is
/// critical when `pull_request` or `pull_request_target` triggers the
/// workflow. Without top-level permissions there is no such finding.
pub proof fn lemma_global_grants_reported(workflow: WorkflowFile)
    ensures
        workflow.global_permissions is None ==> global_permission_findings(workflow).len() == 0,
        workflow.global_permissions matches Some(p) ==> {
            let gf = global_permission_findings(workflow);
            let pr = exists|t: int|
                0 <= t < workflow.triggers@.len() && ((#[trigger] workflow.triggers@[t])@
                    == "pull_request"@ || workflow.triggers@[t]@ == "pull_request_target"@);
            &&& forall|m: int| 0 <= m < gf.len() ==> reports_global_grant(#[trigger] gf[m], p, pr)
            &&& p.write_all ==> exists|m: int|
                0 <= m < gf.len() && (#[trigger] gf[m]).evidence == "permissions: write-all"@
            &&& (p.contents matches Some(c) && c@ == "write"@) ==> exists|m: int|
                0 <= m < gf.len() && (#[trigger] gf[m]).evidence == "permissions.contents: write"@
            &&& (p.pull_requests matches Some(c) && c@ == "write"@) ==> exists|m: int|
                0 <= m < gf.len() && (#[trigger] gf[m]).evidence
                    == "permissions.pull-requests: write"@
        },
{
    if let Some(p) = workflow.global_permissions {
        let pr = exists|t: int|
            0 <= t < workflow.triggers@.len() && ((#[trigger] workflow.triggers@[t])@
                == "pull_request"@ || workflow.triggers@[t]@ == "pull_request_target"@);
        if pr {
            let t = choose|t: int|
                0 <= t < workflow.triggers@.len() && ((#[trigger] workflow.triggers@[t])@
                    == "pull_request"@ || workflow.triggers@[t]@ == "pull_request_target"@);
            assert(has_trigger(workflow, "pull_request"@) || has_trigger(
                workflow,
                "pull_request_target"@,
            ));
        }
        assert(pr_triggered(workflow) == pr);
        let a: Seq<FindingView> = if p.write_all {
            seq![global_write_all_finding(workflow.path@)]
        } else {
            Seq::empty()
        };
        let b: Seq<FindingView> = if grants_write(p.contents) {
            seq![global_contents_write_finding(workflow.path@, pr_triggered(workflow))]
        } else {
            Seq::empty()
        };
        let c: Seq<FindingView> = if grants_write(p.pull_requests) {
            seq![global_pull_requests_write_finding(workflow.path@)]
        } else {
            Seq::empty()
        };
        let gf = global_permission_findings(workflow);
        assert(gf == a + b + c);
        assert forall|m: int| 0 <= m < gf.len() implies reports_global_grant(#[trigger] gf[m], p, pr) by {
            if m < a.len() {
                assert(gf[m] == a[m]);
            } else if m < a.len() + b.len() {
                assert(gf[m] == b[m - a.len()]);
            } else {
                assert(gf[m] == c[m - a.len() - b.len()]);
            }
        }
        if p.write_all {
            assert(gf[0] == a[0]);
        }
        if grants_write(p.contents) {
            assert(gf[a.len() as int] == b[0]);
        }
        if grants_write(p.pull_requests) {
            assert(gf[(a.len() + b.len()) as int] == c[0]);
        }
    }
}

/// Whether a job's own permissions are `write-all`.
pub open spec fn job_grants_write_all(job: Job) -> bool {
    job.permissions matches Some(p) && p.write_all
}

/// Law: the job-level permission findings are exactly one high finding per
/// job that grants itself `write-all`, naming that job.
pub proof fn lemma_job_write_all_reported(workflow: WorkflowFile, j: int)
    ensures
        forall|m: int|
            #![trigger job_write_all_all(workflow)[m]]
            0 <= m < job_write_all_all(workflow).len() ==> exists|i: int|
                0 <= i < workflow.jobs@.len() && job_grants_write_all(#[trigger] workflow.jobs@[i])
                    && job_write_all_all(workflow)[m].job_id == Some(
                    workflow.jobs@[i].id@,
                ) && job_write_all_all(workflow)[m].severity == Severity::High
                    && job_write_all_all(workflow)[m].evidence == "jobs."@ + workflow.jobs@[i].id@
                    + ".permissions: write-all"@,
        0 <= j < workflow.jobs@.len() && job_grants_write_all(workflow.jobs@[j]) ==> exists|m: int|
            0 <= m < job_write_all_all(workflow).len() && (
            #[trigger] job_write_all_all(workflow)[m]).job_id == Some(workflow.jobs@[j].id@)
                && job_write_all_all(workflow)[m].severity == Severity::High,
{
    let g = |jj: Job| job_write_all_findings(workflow, jj);
    let jobs = workflow.jobs@;
    let q = |f: FindingView|
        exists|i: int|
            0 <= i < jobs.len() && job_grants_write_all(#[trigger] jobs[i]) && f.job_id == Some(jobs[i].id@) && f.severity == Severity::High && f.evidence
                == "jobs."@ + jobs[i].id@ + ".permissions: write-all"@;
    assert forall|a: int, b: int| 0 <= a < jobs.len() && 0 <= b < g(jobs[a]).len() implies q(
        #[trigger] g(jobs[a])[b],
    ) by {
        assert(jobs[a] == jobs[a]);
    }
    lemma_flat_map_all(jobs, g, q);
    if 0 <= j < jobs.len() && job_grants_write_all(jobs[j]) {
        lemma_flat_map_contains(jobs, g, j, 0);
    }
}

} // verus!
