//! Detects secrets handed to third-party actions or placed in environment
//! variables of run steps.

use vstd::prelude::*;
use crate::models::{
    append_findings, clone_opt_string, findings_view, flat_map, lemma_findings_view_push, lemma_flat_map_all, lemma_flat_map_contains,
    lemma_flat_map_full, lemma_flat_map_take, Finding, FindingKind, FindingType, FindingView, Job,
    Severity, Step, WorkflowFile,
};
use crate::text::{contains_seq, starts_with, str_contains, str_starts_with};

verus! {

/// The marker of a secret reference in a value.
pub open spec fn secret_marker() -> Seq<char> {
    "${{ secrets."@
}

/// An action maintained by GitHub or local to the repository.
pub open spec fn is_first_party_action(uses: Seq<char>) -> bool {
    starts_with(uses, "actions/"@) || starts_with(uses, "github/"@) || starts_with(uses, "./"@)
        || starts_with(uses, "../"@)
}

/// The finding for one `with:` entry of a third-party action step.
pub open spec fn third_party_entry_findings(
    path: Seq<char>,
    job_id: Seq<char>,
    step: Step,
    uses: Seq<char>,
    entry: (String, String),
) -> Seq<FindingView> {
    if contains_seq(entry.1@, secret_marker()) {
        seq![FindingView {
            workflow: path,
            job_id: Some(job_id),
            step_name: step.name.deep_view(),
            finding_type: FindingKind::SecretExposure,
            severity: Severity::High,
            title: "Secret passed to third-party action: "@ + uses,
            description: "Job '"@ + job_id + "' passes a repository secret via parameter '"@
                + entry.0@ + "' to third-party \
                     action '"@ + uses + "'. A compromised or malicious action version can exfiltrate \
                     the secret to an external endpoint."@,
            evidence: "with."@ + entry.0@ + ": "@ + entry.1@,
            remediation: "Pin '"@ + uses + "' to a verified commit SHA before passing secrets. \
                     Review the action source code at the pinned commit and consider \
                     whether a first-party alternative exists."@,
            cwe: Some("CWE-522: Insufficiently Protected Credentials"@),
            line: step.line,
        }]
    } else {
        Seq::empty()
    }
}

/// The findings for secrets a step passes to a third-party action.
pub open spec fn third_party_findings(path: Seq<char>, job_id: Seq<char>, step: Step) -> Seq<
    FindingView,
> {
    match step.uses {
        Some(uses) => if is_first_party_action(uses@) {
            Seq::empty()
        } else {
            flat_map(
                step.with@,
                |e: (String, String)| third_party_entry_findings(path, job_id, step, uses@, e),
            )
        },
        None => Seq::empty(),
    }
}

/// The finding for one `env:` entry of a run step.
pub open spec fn env_entry_findings(
    path: Seq<char>,
    job_id: Seq<char>,
    step: Step,
    entry: (String, String),
) -> Seq<FindingView> {
    if contains_seq(entry.1@, secret_marker()) {
        seq![FindingView {
            workflow: path,
            job_id: Some(job_id),
            step_name: step.name.deep_view(),
            finding_type: FindingKind::SecretExposure,
            severity: Severity::Informational,
            title: "Secret stored in environment variable: "@ + entry.0@,
            description: "Job '"@ + job_id + "' stores a secret in environment variable '"@
                + entry.0@ + "' for use in a run \
                     step. This is the recommended pattern, but the secret must not be printed, \
                     echoed, or written to any log output."@,
            evidence: "env."@ + entry.0@ + ": "@ + entry.1@,
            remediation: "Ensure the variable value is never echoed or printed. \
                    Use `echo '::add-mask::value'` to register additional values for masking \
                    if the secret is transformed before use."@,
            cwe: Some("CWE-532: Insertion of Sensitive Information into Log File"@),
            line: step.line,
        }]
    } else {
        Seq::empty()
    }
}

/// The findings for secrets a run step keeps in its environment.
pub open spec fn run_env_findings(path: Seq<char>, job_id: Seq<char>, step: Step) -> Seq<
    FindingView,
> {
    if step.run is Some {
        flat_map(step.env@, |e: (String, String)| env_entry_findings(path, job_id, step, e))
    } else {
        Seq::empty()
    }
}

/// The findings of one step: third-party secrets, then environment secrets.
pub open spec fn secret_step_findings(workflow: WorkflowFile, job: Job, step: Step) -> Seq<
    FindingView,
> {
    third_party_findings(workflow.path@, job.id@, step) + run_env_findings(
        workflow.path@,
        job.id@,
        step,
    )
}

/// The findings of one job, in step order.
pub open spec fn secret_job_findings(workflow: WorkflowFile, job: Job) -> Seq<FindingView> {
    flat_map(job.steps@, |s: Step| secret_step_findings(workflow, job, s))
}

/// All secret-exposure findings of a workflow, in job and step order.
pub open spec fn secret_findings(workflow: WorkflowFile) -> Seq<FindingView> {
    flat_map(workflow.jobs@, |j: Job| secret_job_findings(workflow, j))
}

/// Whether `uses` names an action maintained by GitHub or local to the repository.
pub fn is_first_party(uses: &str) -> (res: bool)
    ensures
        res == is_first_party_action(uses@),
{
    str_starts_with(uses, "actions/") || str_starts_with(uses, "github/") || str_starts_with(
        uses,
        "./",
    ) || str_starts_with(uses, "../")
}

fn check_secrets_to_third_party(workflow: &WorkflowFile, job_id: &str, step: &Step) -> (res: Vec<
    Finding,
>)
    ensures
        findings_view(res@) == third_party_findings(workflow.path@, job_id@, *step),
{
    let mut findings: Vec<Finding> = Vec::new();
    let uses = match &step.uses {
        Some(u) => u,
        None => {
            return findings;
        },
    };
    if is_first_party(uses.as_str()) {
        return findings;
    }
    let ghost f = |e: (String, String)|
        third_party_entry_findings(workflow.path@, job_id@, *step, uses@, e);
    let mut k: usize = 0;
    while k < step.with.len()
        invariant
            k <= step.with@.len(),
            f == (|e: (String, String)|
                third_party_entry_findings(workflow.path@, job_id@, *step, uses@, e)),
            findings_view(findings@) == flat_map(step.with@.take(k as int), f),
        decreases step.with@.len() - k,
    {
        let entry = &step.with[k];
        proof {
            lemma_flat_map_take(step.with@, f, k as int);
        }
        if str_contains(entry.1.as_str(), "${{ secrets.") {
            let mut title = String::from_str("Secret passed to third-party action: ");
            title.append(uses.as_str());
            let mut description = String::from_str("Job '");
            description.append(job_id);
            description.append("' passes a repository secret via parameter '");
            description.append(entry.0.as_str());
            description.append(
                "' to third-party \
                     action '",
            );
            description.append(uses.as_str());
            description.append(
                "'. A compromised or malicious action version can exfiltrate \
                     the secret to an external endpoint.",
            );
            let mut evidence = String::from_str("with.");
            evidence.append(entry.0.as_str());
            evidence.append(": ");
            evidence.append(entry.1.as_str());
            let mut remediation = String::from_str("Pin '");
            remediation.append(uses.as_str());
            remediation.append(
                "' to a verified commit SHA before passing secrets. \
                     Review the action source code at the pinned commit and consider \
                     whether a first-party alternative exists.",
            );
            let finding = Finding {
                workflow: workflow.path.clone(),
                job_id: Some(String::from_str(job_id)),
                step_name: clone_opt_string(&step.name),
                finding_type: FindingType::SecretExposure,
                severity: Severity::High,
                title,
                description,
                evidence,
                remediation,
                cwe: Some(String::from_str("CWE-522: Insufficiently Protected Credentials")),
                line: step.line,
            };
            proof {
                lemma_findings_view_push(findings@, finding);
            }
            findings.push(finding);
        }
        k += 1;
    }
    proof {
        lemma_flat_map_full(step.with@, f);
    }
    findings
}

fn check_secret_in_run_env(workflow: &WorkflowFile, job_id: &str, step: &Step) -> (res: Vec<
    Finding,
>)
    ensures
        findings_view(res@) == run_env_findings(workflow.path@, job_id@, *step),
{
    let mut findings: Vec<Finding> = Vec::new();
    if step.run.is_none() {
        return findings;
    }
    let ghost f = |e: (String, String)| env_entry_findings(workflow.path@, job_id@, *step, e);
    let mut k: usize = 0;
    while k < step.env.len()
        invariant
            k <= step.env@.len(),
            f == (|e: (String, String)| env_entry_findings(workflow.path@, job_id@, *step, e)),
            findings_view(findings@) == flat_map(step.env@.take(k as int), f),
        decreases step.env@.len() - k,
    {
        let entry = &step.env[k];
        proof {
            lemma_flat_map_take(step.env@, f, k as int);
        }
        if str_contains(entry.1.as_str(), "${{ secrets.") {
            let mut title = String::from_str("Secret stored in environment variable: ");
            title.append(entry.0.as_str());
            let mut description = String::from_str("Job '");
            description.append(job_id);
            description.append("' stores a secret in environment variable '");
            description.append(entry.0.as_str());
            description.append(
                "' for use in a run \
                     step. This is the recommended pattern, but the secret must not be printed, \
                     echoed, or written to any log output.",
            );
            let mut evidence = String::from_str("env.");
            evidence.append(entry.0.as_str());
            evidence.append(": ");
            evidence.append(entry.1.as_str());
            let finding = Finding {
                workflow: workflow.path.clone(),
                job_id: Some(String::from_str(job_id)),
                step_name: clone_opt_string(&step.name),
                finding_type: FindingType::SecretExposure,
                severity: Severity::Informational,
                title,
                description,
                evidence,
                remediation: String::from_str(
                    "Ensure the variable value is never echoed or printed. \
                    Use `echo '::add-mask::value'` to register additional values for masking \
                    if the secret is transformed before use.",
                ),
                cwe: Some(
                    String::from_str("CWE-532: Insertion of Sensitive Information into Log File"),
                ),
                line: step.line,
            };
            proof {
                lemma_findings_view_push(findings@, finding);
            }
            findings.push(finding);
        }
        k += 1;
    }
    proof {
        lemma_flat_map_full(step.env@, f);
    }
    findings
}

fn analyze_job(workflow: &WorkflowFile, job: &Job) -> (res: Vec<Finding>)
    ensures
        findings_view(res@) == secret_job_findings(*workflow, *job),
{
    let ghost f = |s: Step| secret_step_findings(*workflow, *job, s);
    let mut findings: Vec<Finding> = Vec::new();
    let mut k: usize = 0;
    while k < job.steps.len()
        invariant
            k <= job.steps@.len(),
            f == (|s: Step| secret_step_findings(*workflow, *job, s)),
            findings_view(findings@) == flat_map(job.steps@.take(k as int), f),
        decreases job.steps@.len() - k,
    {
        let step = &job.steps[k];
        proof {
            lemma_flat_map_take(job.steps@, f, k as int);
        }
        append_findings(&mut findings, check_secrets_to_third_party(workflow, job.id.as_str(), step));
        append_findings(&mut findings, check_secret_in_run_env(workflow, job.id.as_str(), step));
        k += 1;
    }
    proof {
        lemma_flat_map_full(job.steps@, f);
    }
    findings
}

/// For every step: a high-severity finding for each `with:` value holding a
/// secret passed to a third-party action, then an informational finding
/// for each `env:` value holding a secret in a step that runs a script.
pub fn analyze(workflow: &WorkflowFile) -> (res: Vec<Finding>)
    ensures
        findings_view(res@) == secret_findings(*workflow),
{
    let ghost f = |j: Job| secret_job_findings(*workflow, j);
    let mut findings: Vec<Finding> = Vec::new();
    let mut i: usize = 0;
    while i < workflow.jobs.len()
        invariant
            i <= workflow.jobs@.len(),
            f == (|j: Job| secret_job_findings(*workflow, j)),
            findings_view(findings@) == flat_map(workflow.jobs@.take(i as int), f),
        decreases workflow.jobs@.len() - i,
    {
        proof {
            lemma_flat_map_take(workflow.jobs@, f, i as int);
        }
        append_findings(&mut findings, analyze_job(workflow, &workflow.jobs[i]));
        i += 1;
    }
    proof {
        lemma_flat_map_full(workflow.jobs@, f);
    }
    findings
}

/// Law: a step that uses an action maintained by GitHub (`actions/...`,
/// `github/...`) or local to the repository (`./...`, `../...`) never gets
/// a finding for passing a secret to a third-party action, whatever its
/// `with:` values: all its secret findings are the informational ones about
/// its environment.
pub proof fn lemma_first_party_not_flagged(workflow: WorkflowFile, job: Job, step: Step)
    requires
        step.uses matches Some(u) && (starts_with(u@, "actions/"@) || starts_with(u@, "github/"@)
            || starts_with(u@, "./"@) || starts_with(u@, "../"@)),
    ensures
        forall|m: int|
            0 <= m < secret_step_findings(workflow, job, step).len() ==> (
            #[trigger] secret_step_findings(workflow, job, step)[m]).severity
                == Severity::Informational,
{
    let tp = third_party_findings(workflow.path@, job.id@, step);
    assert(tp.len() == 0);
    let env = run_env_findings(workflow.path@, job.id@, step);
    let p = |f: FindingView| f.severity == Severity::Informational;
    if step.run is Some {
        let g = |e: (String, String)| env_entry_findings(workflow.path@, job.id@, step, e);
        assert forall|a: int, b: int| 0 <= a < step.env@.len() && 0 <= b < g(step.env@[a]).len() implies p(
            #[trigger] g(step.env@[a])[b],
        ) by {}
        lemma_flat_map_all(step.env@, g, p);
    }
    assert(secret_step_findings(workflow, job, step) =~= env);
}

/// Law: a step that uses any other action and passes a secret in a `with:`
/// entry gets a high secret-exposure finding quoting that entry.
pub proof fn lemma_third_party_secret_flagged(workflow: WorkflowFile, job: Job, step: Step, e: int)
    requires
        step.uses matches Some(u) && !(starts_with(u@, "actions/"@) || starts_with(u@, "github/"@)
            || starts_with(u@, "./"@) || starts_with(u@, "../"@)),
        0 <= e < step.with@.len(),
        contains_seq(step.with@[e].1@, "${{ secrets."@),
    ensures
        exists|m: int|
            0 <= m < secret_step_findings(workflow, job, step).len() && {
                let f = #[trigger] secret_step_findings(workflow, job, step)[m];
                &&& f.finding_type == FindingKind::SecretExposure
                &&& f.severity == Severity::High
                &&& f.workflow == workflow.path@
                &&& f.job_id == Some(job.id@)
                &&& f.evidence == "with."@ + step.with@[e].0@ + ": "@ + step.with@[e].1@
            },
{
    let u = step.uses->0;
    let g = |en: (String, String)|
        third_party_entry_findings(workflow.path@, job.id@, step, u@, en);
    let fnd = g(step.with@[e])[0];
    lemma_flat_map_contains(step.with@, g, e, 0);
    let tp = third_party_findings(workflow.path@, job.id@, step);
    let m = choose|m: int| 0 <= m < tp.len() && tp[m] == fnd;
    let all = secret_step_findings(workflow, job, step);
    assert(all == tp + run_env_findings(workflow.path@, job.id@, step));
    assert(all[m] == tp[m]);
}

/// Whether a finding quotes an entry of the step that holds a secret: a
/// `with:` entry (high) or an `env:` entry of a run step (informational).
pub open spec fn quotes_secret_entry(f: FindingView, step: Step) -> bool {
    ||| exists|e: int|
        0 <= e < step.with@.len() && contains_seq((#[trigger] step.with@[e]).1@, "${{ secrets."@)
            && f.evidence == "with."@ + step.with@[e].0@ + ": "@ + step.with@[e].1@
            && f.severity == Severity::High
    ||| exists|e: int|
        0 <= e < step.env@.len() && contains_seq((#[trigger] step.env@[e]).1@, "${{ secrets."@)
            && f.evidence == "env."@ + step.env@[e].0@ + ": "@ + step.env@[e].1@
            && f.severity == Severity::Informational && step.run is Some
}

/// Law: every secret finding of a step quotes one of its entries that
/// holds a secret (`${{ secrets.`): a `with:` entry, reported high, or an
/// `env:` entry of a run step, reported informational. So entries without a
/// secret, and the environment of a step without a run script, are never
/// reported.
pub proof fn lemma_secret_findings_quote_entries(workflow: WorkflowFile, job: Job, step: Step)
    ensures
        forall|m: int|
            0 <= m < secret_step_findings(workflow, job, step).len() ==> quotes_secret_entry(
                #[trigger] secret_step_findings(workflow, job, step)[m],
                step,
            ),
{
    let p = |f: FindingView| quotes_secret_entry(f, step);
    let tp = third_party_findings(workflow.path@, job.id@, step);
    let env = run_env_findings(workflow.path@, job.id@, step);
    if let Some(u) = step.uses {
        if !is_first_party_action(u@) {
            let g = |en: (String, String)|
                third_party_entry_findings(workflow.path@, job.id@, step, u@, en);
            assert forall|a: int, b: int| 0 <= a < step.with@.len() && 0 <= b < g(step.with@[a]).len() implies p(
                #[trigger] g(step.with@[a])[b],
            ) by {
                assert(contains_seq(step.with@[a].1@, "${{ secrets."@));
            }
            lemma_flat_map_all(step.with@, g, p);
        }
    }
    if step.run is Some {
        let g = |en: (String, String)| env_entry_findings(workflow.path@, job.id@, step, en);
        assert forall|a: int, b: int| 0 <= a < step.env@.len() && 0 <= b < g(step.env@[a]).len() implies p(
            #[trigger] g(step.env@[a])[b],
        ) by {
            assert(contains_seq(step.env@[a].1@, "${{ secrets."@));
        }
        lemma_flat_map_all(step.env@, g, p);
    }
    let all = secret_step_findings(workflow, job, step);
    assert forall|m: int| 0 <= m < all.len() implies p(#[trigger] all[m]) by {
        if m < tp.len() {
            assert(all[m] == tp[m]);
        } else {
            assert(all[m] == env[m - tp.len()]);
        }
    }
}

/// Law: a run step that keeps a secret in an `env:` entry gets an
/// informational secret-exposure finding quoting that entry.
pub proof fn lemma_env_secret_flagged(workflow: WorkflowFile, job: Job, step: Step, e: int)
    requires
        step.run is Some,
        0 <= e < step.env@.len(),
        contains_seq(step.env@[e].1@, "${{ secrets."@),
    ensures
        exists|m: int|
            0 <= m < secret_step_findings(workflow, job, step).len() && {
                let f = #[trigger] secret_step_findings(workflow, job, step)[m];
                &&& f.finding_type == FindingKind::SecretExposure
                &&& f.severity == Severity::Informational
                &&& f.job_id == Some(job.id@)
                &&& f.evidence == "env."@ + step.env@[e].0@ + ": "@ + step.env@[e].1@
            },
{
    let g = |en: (String, String)| env_entry_findings(workflow.path@, job.id@, step, en);
    let fnd = g(step.env@[e])[0];
    lemma_flat_map_contains(step.env@, g, e, 0);
    let env = run_env_findings(workflow.path@, job.id@, step);
    let m = choose|m: int| 0 <= m < env.len() && env[m] == fnd;
    let tp = third_party_findings(workflow.path@, job.id@, step);
    let all = secret_step_findings(workflow, job, step);
    assert(all == tp + env);
    assert(all[tp.len() + m] == env[m]);
}

} // verus!
