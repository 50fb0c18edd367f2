//! Checks that every `uses:` reference is pinned to a full commit SHA.

use vstd::prelude::*;
use crate::models::{
    append_findings, clone_opt_string, findings_view, flat_map, lemma_findings_view_push,
    lemma_flat_map_full, lemma_flat_map_take, Finding, FindingKind, FindingType, FindingView, Job,
    Severity, Step, WorkflowFile,
};
use crate::text::{
    chars_of, contains_seq, last_index_of, lemma_last_index_of, rfind_char, starts_with, str_contains,
    str_starts_with, string_of_range,
};

verus! {

/// An ASCII hexadecimal digit (`char::is_ascii_hexdigit`).
pub open spec fn is_hex_digit(c: char) -> bool {
    ('0' <= c && c <= '9') || ('a' <= c && c <= 'f') || ('A' <= c && c <= 'F')
}

/// A full 40-character hexadecimal commit SHA.
pub open spec fn is_commit_sha(version: Seq<char>) -> bool {
    version.len() == 40 && forall|i: int| 0 <= i < version.len() ==> is_hex_digit(#[trigger] version[i])
}

/// A reference to a mutable branch name.
pub open spec fn is_branch_ref(version: Seq<char>) -> bool {
    version == "main"@ || version == "master"@ || version == "latest"@
}

/// Whether some `with:` entry of a step passes a secret (`${{ secrets.`).
pub open spec fn passes_secret(with: Seq<(String, String)>) -> bool {
    exists|i: int| 0 <= i < with.len() && contains_seq(#[trigger] with[i].1@, "${{ secrets."@)
}

/// The finding for one `uses:` reference, if it is not pinned. Local
/// actions, reusable workflows and references without an `@` are skipped.
/// A branch reference is high, critical when the step passes secrets to it
/// (`secrets`); a tag is medium.
pub open spec fn pinning_finding(
    path: Seq<char>,
    job_id: Seq<char>,
    step_name: Option<Seq<char>>,
    uses: Seq<char>,
    line: Option<usize>,
    secrets: bool,
) -> Option<FindingView> {
    if starts_with(uses, "./"@) || starts_with(uses, "../"@) {
        None
    } else if contains_seq(uses, "/.github/workflows/"@) {
        None
    } else {
        match last_index_of(uses, '@') {
            None => None,
            Some(at) => {
                let action_ref = uses.subrange(0, at);
                let version = uses.subrange(at + 1, uses.len() as int);
                if is_commit_sha(version) {
                    None
                } else {
                    let branch = is_branch_ref(version);
                    Some(
                        FindingView {
                            workflow: path,
                            job_id: Some(job_id),
                            step_name: step_name,
                            finding_type: FindingKind::UnpinnedAction,
                            severity: if branch && secrets {
                                Severity::Critical
                            } else if branch {
                                Severity::High
                            } else {
                                Severity::Medium
                            },
                            title: "Action not pinned to a commit SHA: "@ + uses,
                            description: if branch {
                                "Action '"@ + uses + "' is pinned to mutable branch '"@ + version
                                    + "'. \
                 A compromised upstream repository or tag move can inject arbitrary code \
                 into your workflow without notice."@
                            } else {
                                "Action '"@ + uses + "' uses semantic version tag '"@ + version
                                    + "'. \
                 Tags are mutable and can be reassigned by the action author. \
                 Pin to a full 40-character commit SHA for reproducible builds."@
                            },
                            evidence: uses,
                            remediation: "Replace with a SHA-pinned reference: `uses: "@
                                + action_ref + "@<40-hex-SHA>  # was: "@ + version + "`"@,
                            cwe: Some(
                                "CWE-829: Inclusion of Functionality from Untrusted Control Sphere"@,
                            ),
                            line: line,
                        },
                    )
                }
            },
        }
    }
}

/// The findings of one step (none when it has no `uses:`).
pub open spec fn pinning_step_findings(workflow: WorkflowFile, job: Job, step: Step) -> Seq<
    FindingView,
> {
    match step.uses {
        Some(uses) => match pinning_finding(
            workflow.path@,
            job.id@,
            step.name.deep_view(),
            uses@,
            step.line,
            passes_secret(step.with@),
        ) {
            Some(f) => seq![f],
            None => Seq::empty(),
        },
        None => Seq::empty(),
    }
}

/// The findings of one job, in step order.
pub open spec fn pinning_job_findings(workflow: WorkflowFile, job: Job) -> Seq<FindingView> {
    flat_map(job.steps@, |s: Step| pinning_step_findings(workflow, job, s))
}

/// All unpinned-action findings of a workflow, in job and step order.
pub open spec fn pinning_findings(workflow: WorkflowFile) -> Seq<FindingView> {
    flat_map(workflow.jobs@, |j: Job| pinning_job_findings(workflow, j))
}

/// Whether `v` is a full 40-character hexadecimal commit SHA.
fn commit_sha(v: &[char]) -> (res: bool)
    ensures
        res == is_commit_sha(v@),
{
    if v.len() != 40 {
        return false;
    }
    let mut i: usize = 0;
    while i < v.len()
        invariant
            i <= v@.len(),
            forall|j: int| 0 <= j < i ==> is_hex_digit(#[trigger] v@[j]),
        decreases v.len() - i,
    {
        let c = v[i];
        if !(('0' <= c && c <= '9') || ('a' <= c && c <= 'f') || ('A' <= c && c <= 'F')) {
            return false;
        }
        i += 1;
    }
    true
}

/// Checks one `uses:` reference.
fn check_pinning(
    workflow_path: &str,
    job_id: &str,
    step_name: &Option<String>,
    uses: &str,
    line: Option<usize>,
    secrets: bool,
) -> (res: Option<Finding>)
    ensures
        match res {
            Some(f) => pinning_finding(
                workflow_path@,
                job_id@,
                step_name.deep_view(),
                uses@,
                line,
                secrets,
            ) == Some(f@),
            None => pinning_finding(
                workflow_path@,
                job_id@,
                step_name.deep_view(),
                uses@,
                line,
                secrets,
            ) is None,
        },
{
    if str_starts_with(uses, "./") || str_starts_with(uses, "../") {
        return None;
    }
    if str_contains(uses, "/.github/workflows/") {
        return None;
    }
    let cs = chars_of(uses);
    let at_pos = match rfind_char(cs.as_slice(), '@') {
        Some(p) => p,
        None => return None,
    };
    proof {
        crate::text::lemma_last_index_of(cs@, '@');
    }
    let action_ref = string_of_range(cs.as_slice(), 0, at_pos);
    let version = string_of_range(cs.as_slice(), at_pos + 1, cs.len());
    let vchars = chars_of(version.as_str());
    if commit_sha(vchars.as_slice()) {
        return None;
    }
    let branch = crate::text::str_eq(version.as_str(), "main") || crate::text::str_eq(
        version.as_str(),
        "master",
    ) || crate::text::str_eq(version.as_str(), "latest");
    let severity = if branch && secrets {
        Severity::Critical
    } else if branch {
        Severity::High
    } else {
        Severity::Medium
    };
    let mut description = String::from_str("Action '");
    description.append(uses);
    if branch {
        description.append("' is pinned to mutable branch '");
        description.append(version.as_str());
        description.append(
            "'. \
                 A compromised upstream repository or tag move can inject arbitrary code \
                 into your workflow without notice.",
        );
    } else {
        description.append("' uses semantic version tag '");
        description.append(version.as_str());
        description.append(
            "'. \
                 Tags are mutable and can be reassigned by the action author. \
                 Pin to a full 40-character commit SHA for reproducible builds.",
        );
    }
    let mut title = String::from_str("Action not pinned to a commit SHA: ");
    title.append(uses);
    let mut remediation = String::from_str("Replace with a SHA-pinned reference: `uses: ");
    remediation.append(action_ref.as_str());
    remediation.append("@<40-hex-SHA>  # was: ");
    remediation.append(version.as_str());
    remediation.append("`");
    Some(
        Finding {
            workflow: String::from_str(workflow_path),
            job_id: Some(String::from_str(job_id)),
            step_name: clone_opt_string(step_name),
            finding_type: FindingType::UnpinnedAction,
            severity,
            title,
            description,
            evidence: String::from_str(uses),
            remediation,
            cwe: Some(
                String::from_str(
                    "CWE-829: Inclusion of Functionality from Untrusted Control Sphere",
                ),
            ),
            line,
        },
    )
}

/// Whether some `with:` entry passes a secret.
fn step_passes_secret(with: &Vec<(String, String)>) -> (res: bool)
    ensures
        res == passes_secret(with@),
{
    let mut i: usize = 0;
    while i < with.len()
        invariant
            i <= with@.len(),
            forall|j: int| 0 <= j < i ==> !contains_seq(#[trigger] with@[j].1@, "${{ secrets."@),
        decreases with@.len() - i,
    {
        if str_contains(with[i].1.as_str(), "${{ secrets.") {
            return true;
        }
        i += 1;
    }
    false
}

fn analyze_job(workflow: &WorkflowFile, job: &Job) -> (res: Vec<Finding>)
    ensures
        findings_view(res@) == pinning_job_findings(*workflow, *job),
{
    let ghost f = |s: Step| pinning_step_findings(*workflow, *job, s);
    let mut findings: Vec<Finding> = Vec::new();
    let mut k: usize = 0;
    while k < job.steps.len()
        invariant
            k <= job.steps@.len(),
            f == (|s: Step| pinning_step_findings(*workflow, *job, s)),
            findings_view(findings@) == flat_map(job.steps@.take(k as int), f),
        decreases job.steps@.len() - k,
    {
        let step = &job.steps[k];
        proof {
            lemma_flat_map_take(job.steps@, f, k as int);
        }
        match &step.uses {
            Some(uses) => {
                match check_pinning(
                    workflow.path.as_str(),
                    job.id.as_str(),
                    &step.name,
                    uses.as_str(),
                    step.line,
                    step_passes_secret(&step.with),
                ) {
                    Some(finding) => {
                        proof {
                            lemma_findings_view_push(findings@, finding);
                        }
                        findings.push(finding);
                    },
                    None => {},
                }
            },
            None => {},
        }
        k += 1;
    }
    proof {
        lemma_flat_map_full(job.steps@, f);
    }
    findings
}

/// One finding for each `uses:` reference that is not pinned to a full
/// commit SHA: high severity for `main`, `master` or `latest` (critical
/// when the step passes a secret to the action in `with:`), medium for any
/// other tag. Local actions (`./`, `../`), reusable workflows and
/// references without `@` are skipped.
pub fn analyze(workflow: &WorkflowFile) -> (res: Vec<Finding>)
    ensures
        findings_view(res@) == pinning_findings(*workflow),
{
    let ghost f = |j: Job| pinning_job_findings(*workflow, j);
    let mut findings: Vec<Finding> = Vec::new();
    let mut i: usize = 0;
    while i < workflow.jobs.len()
        invariant
            i <= workflow.jobs@.len(),
            f == (|j: Job| pinning_job_findings(*workflow, j)),
            findings_view(findings@) == flat_map(workflow.jobs@.take(i as int), f),
        decreases workflow.jobs@.len() - i,
    {
        proof {
            lemma_flat_map_take(workflow.jobs@, f, i as int);
        }
        let more = analyze_job(workflow, &workflow.jobs[i]);
        append_findings(&mut findings, more);
        i += 1;
    }
    proof {
        lemma_flat_map_full(workflow.jobs@, f);
    }
    findings
}

/// Law: a `uses:` reference pinned to a full 40-character commit SHA
/// (`owner/action@<sha>`) is never flagged, whatever the action.
pub proof fn lemma_sha_pinned_not_flagged(
    path: Seq<char>,
    job_id: Seq<char>,
    step_name: Option<Seq<char>>,
    action: Seq<char>,
    sha: Seq<char>,
    line: Option<usize>,
    secrets: bool,
)
    requires
        is_commit_sha(sha),
    ensures
        pinning_finding(path, job_id, step_name, action + "@"@ + sha, line, secrets) is None,
{
    reveal_strlit("@");
    let uses = action + "@"@ + sha;
    let at = action.len() as int;
    assert(uses[at] == '@');
    lemma_last_index_of(uses, '@');
    match last_index_of(uses, '@') {
        Some(i) => {
            if i > at {
                assert(uses[i] == sha[i - at - 1]);
                assert(is_hex_digit(sha[i - at - 1]));
            }
            assert(i == at);
            assert(uses.subrange(i + 1, uses.len() as int) =~= sha);
        },
        None => {},
    }
}

/// Law: a step that uses `action@version`, where the version holds no `@`
/// and is not a full 40-character hexadecimal SHA, and that is neither a
/// local action nor a reusable workflow, gets exactly one unpinned-action
/// finding quoting the reference: medium for a tag; high for the branch
/// references `main`, `master` and `latest`, and critical for those when a
/// `with:` entry of the step passes a secret (`${{ secrets.`).
pub proof fn lemma_unpinned_reference_flagged(
    workflow: WorkflowFile,
    job: Job,
    step: Step,
    action: Seq<char>,
    version: Seq<char>,
)
    requires
        step.uses matches Some(u) && u@ == action + "@"@ + version,
        forall|i: int| 0 <= i < version.len() ==> version[i] != '@',
        version.len() != 40 || exists|i: int|
            0 <= i < version.len() && !(('0' <= #[trigger] version[i] && version[i] <= '9') || (
            'a' <= version[i] && version[i] <= 'f') || ('A' <= version[i] && version[i] <= 'F')),
        !starts_with(action + "@"@ + version, "./"@),
        !starts_with(action + "@"@ + version, "../"@),
        !contains_seq(action + "@"@ + version, "/.github/workflows/"@),
    ensures
        pinning_step_findings(workflow, job, step).len() == 1,
        ({
            let f = pinning_step_findings(workflow, job, step)[0];
            let branch = version == "main"@ || version == "master"@ || version == "latest"@;
            let secret = exists|e: int|
                0 <= e < step.with@.len() && contains_seq(
                    (#[trigger] step.with@[e]).1@,
                    "${{ secrets."@,
                );
            &&& f.finding_type == FindingKind::UnpinnedAction
            &&& f.evidence == action + "@"@ + version
            &&& f.workflow == workflow.path@
            &&& f.job_id == Some(job.id@)
            &&& f.step_name == step.name.deep_view()
            &&& f.severity == if branch && secret {
                Severity::Critical
            } else if branch {
                Severity::High
            } else {
                Severity::Medium
            }
        }),
{
    reveal_strlit("@");
    let uses = action + "@"@ + version;
    let at = action.len() as int;
    assert(uses[at] == '@');
    lemma_last_index_of(uses, '@');
    let i = last_index_of(uses, '@')->0;
    if i > at {
        assert(uses[i] == version[i - at - 1]);
    }
    assert(i == at);
    assert(uses.subrange(0, i) =~= action);
    assert(uses.subrange(i + 1, uses.len() as int) =~= version);
    if is_commit_sha(version) {
        let w = choose|w: int|
            0 <= w < version.len() && !(('0' <= #[trigger] version[w] && version[w] <= '9') || (
            'a' <= version[w] && version[w] <= 'f') || ('A' <= version[w] && version[w] <= 'F'));
        assert(is_hex_digit(version[w]));
    }
}

} // verus!
