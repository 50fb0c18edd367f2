//! Detects untrusted context expressions interpolated into `run:` scripts.

use vstd::prelude::*;
use crate::models::{
    append_findings, clone_opt_string, findings_view, flat_map, lemma_findings_view_push,
    lemma_flat_map_full, lemma_flat_map_take, Finding, FindingKind, FindingType, FindingView, Job,
    Severity, Step, WorkflowFile,
};
use crate::models::{lemma_flat_map_all, lemma_flat_map_contains, lemma_flat_map_empty};
use crate::text::{contains_seq, join_seq, join_strings, lemma_contains_prefix, lemma_join_contains, starts_with, str_contains};

verus! {

/// The context expressions known to carry attacker-controlled text.
pub open spec fn known_injection_patterns() -> Seq<Seq<char>> {
    seq![
        "${{ github.event.issue.title }}"@,
        "${{ github.event.issue.body }}"@,
        "${{ github.event.pull_request.title }}"@,
        "${{ github.event.pull_request.body }}"@,
        "${{ github.event.comment.body }}"@,
        "${{ github.event.discussion.title }}"@,
        "${{ github.event.discussion.body }}"@,
        "${{ github.head_ref }}"@,
    ]
}

/// The first of these prefixes in a script marks it when no known pattern does.
pub open spec fn injection_prefixes() -> Seq<Seq<char>> {
    seq!["${{ github.event."@, "${{ inputs."@]
}

/// The known patterns that occur in `script`, in list order.
pub open spec fn known_patterns_in(script: Seq<char>) -> Seq<Seq<char>> {
    flat_map(
        known_injection_patterns(),
        |p: Seq<char>|
            if contains_seq(script, p) {
                seq![p]
            } else {
                Seq::empty()
            },
    )
}

/// The evidence of injection in `script`: the known patterns it contains;
/// if none, the first prefix it contains followed by `...}`; else nothing.
pub open spec fn injection_evidence(script: Seq<char>) -> Seq<Seq<char>> {
    let found = known_patterns_in(script);
    if found.len() > 0 {
        found
    } else if contains_seq(script, injection_prefixes()[0]) {
        seq![injection_prefixes()[0] + "...}"@]
    } else if contains_seq(script, injection_prefixes()[1]) {
        seq![injection_prefixes()[1] + "...}"@]
    } else {
        Seq::empty()
    }
}

/// Remediation advice for a script injection finding.
pub open spec fn injection_remediation() -> Seq<char> {
    "Store the context expression in an intermediate environment \
                            variable and reference the variable in the shell command. \
                            Example: set `env: PR_TITLE: ${{ github.event.pull_request.title }}` \
                            and use `$PR_TITLE` in the run step instead."@
}

/// The finding of one step, if its script holds injection evidence.
pub open spec fn injection_step_findings(workflow: WorkflowFile, job: Job, step: Step) -> Seq<
    FindingView,
> {
    match step.run {
        Some(script) => {
            let evidence = injection_evidence(script@);
            if evidence.len() > 0 {
                seq![FindingView {
                    workflow: workflow.path@,
                    job_id: Some(job.id@),
                    step_name: step.name.deep_view(),
                    finding_type: FindingKind::ScriptInjection,
                    severity: Severity::Critical,
                    title: "Script injection via untrusted context expression"@,
                    description: "Job '"@ + job.id@
                        + "' interpolates untrusted GitHub context data directly into a run \
                             step. An attacker who controls the trigger input (issue title, PR body, \
                             comment) can inject arbitrary shell commands that execute with full \
                             GITHUB_TOKEN permissions."@,
                    evidence: join_seq(evidence, ", "@),
                    remediation: injection_remediation(),
                    cwe: Some("CWE-78: OS Command Injection"@),
                    line: step.line,
                }]
            } else {
                Seq::empty()
            }
        },
        None => Seq::empty(),
    }
}

/// The findings of one job, in step order.
pub open spec fn injection_job_findings(workflow: WorkflowFile, job: Job) -> Seq<FindingView> {
    flat_map(job.steps@, |s: Step| injection_step_findings(workflow, job, s))
}

/// All script injection findings of a workflow, in job and step order.
pub open spec fn injection_findings(workflow: WorkflowFile) -> Seq<FindingView> {
    flat_map(workflow.jobs@, |j: Job| injection_job_findings(workflow, j))
}

fn known_pattern(i: usize) -> (res: &'static str)
    requires
        i < 8,
    ensures
        res@ == known_injection_patterns()[i as int],
{
    match i {
        0 => "${{ github.event.issue.title }}",
        1 => "${{ github.event.issue.body }}",
        2 => "${{ github.event.pull_request.title }}",
        3 => "${{ github.event.pull_request.body }}",
        4 => "${{ github.event.comment.body }}",
        5 => "${{ github.event.discussion.title }}",
        6 => "${{ github.event.discussion.body }}",
        _ => "${{ github.head_ref }}",
    }
}

/// The injection evidence in a run script: the known untrusted expressions
/// it contains, in list order; if none, the first of `${{ github.event.`
/// and `${{ inputs.` it contains, followed by `...}`; else nothing.
pub fn find_injection_evidence(script: &str) -> (res: Vec<String>)
    ensures
        res.deep_view() == injection_evidence(script@),
{
    let ghost f = |p: Seq<char>|
        if contains_seq(script@, p) {
            seq![p]
        } else {
            Seq::<Seq<char>>::empty()
        };
    let mut found: Vec<String> = Vec::new();
    let mut i: usize = 0;
    assert(known_injection_patterns().len() == 8);
    while i < 8
        invariant
            i <= 8,
            known_injection_patterns().len() == 8,
            f == (|p: Seq<char>|
                if contains_seq(script@, p) {
                    seq![p]
                } else {
                    Seq::<Seq<char>>::empty()
                }),
            found.deep_view() == flat_map(known_injection_patterns().take(i as int), f),
        decreases 8 - i,
    {
        let pattern = known_pattern(i);
        proof {
            lemma_flat_map_take(known_injection_patterns(), f, i as int);
        }
        if str_contains(script, pattern) {
            let ghost before = found.deep_view();
            found.push(String::from_str(pattern));
            assert(found.deep_view() =~= before.push(pattern@));
        }
        i += 1;
    }
    proof {
        lemma_flat_map_full(known_injection_patterns(), f);
    }
    if found.len() == 0 {
        if str_contains(script, "${{ github.event.") {
            let mut e = String::from_str("${{ github.event.");
            e.append("...}");
            found.push(e);
            assert(found.deep_view() =~= seq![injection_prefixes()[0] + "...}"@]);
        } else if str_contains(script, "${{ inputs.") {
            let mut e = String::from_str("${{ inputs.");
            e.append("...}");
            found.push(e);
            assert(found.deep_view() =~= seq![injection_prefixes()[1] + "...}"@]);
        }
    }
    found
}

fn analyze_job(workflow: &WorkflowFile, job: &Job) -> (res: Vec<Finding>)
    ensures
        findings_view(res@) == injection_job_findings(*workflow, *job),
{
    let ghost f = |s: Step| injection_step_findings(*workflow, *job, s);
    let mut findings: Vec<Finding> = Vec::new();
    let mut k: usize = 0;
    while k < job.steps.len()
        invariant
            k <= job.steps@.len(),
            f == (|s: Step| injection_step_findings(*workflow, *job, s)),
            findings_view(findings@) == flat_map(job.steps@.take(k as int), f),
        decreases job.steps@.len() - k,
    {
        let step = &job.steps[k];
        proof {
            lemma_flat_map_take(job.steps@, f, k as int);
        }
        if let Some(run_script) = &step.run {
            let evidence = find_injection_evidence(run_script.as_str());
            if evidence.len() > 0 {
                let mut description = String::from_str("Job '");
                description.append(job.id.as_str());
                description.append(
                    "' interpolates untrusted GitHub context data directly into a run \
                             step. An attacker who controls the trigger input (issue title, PR body, \
                             comment) can inject arbitrary shell commands that execute with full \
                             GITHUB_TOKEN permissions.",
                );
                let finding = Finding {
                    workflow: workflow.path.clone(),
                    job_id: Some(job.id.clone()),
                    step_name: clone_opt_string(&step.name),
                    finding_type: FindingType::ScriptInjection,
                    severity: Severity::Critical,
                    title: String::from_str("Script injection via untrusted context expression"),
                    description,
                    evidence: join_strings(&evidence, ", "),
                    remediation: String::from_str(
                        "Store the context expression in an intermediate environment \
                            variable and reference the variable in the shell command. \
                            Example: set `env: PR_TITLE: ${{ github.event.pull_request.title }}` \
                            and use `$PR_TITLE` in the run step instead.",
                    ),
                    cwe: Some(String::from_str("CWE-78: OS Command Injection")),
                    line: step.line,
                };
                proof {
                    lemma_findings_view_push(findings@, finding);
                }
                findings.push(finding);
            }
        }
        k += 1;
    }
    proof {
        lemma_flat_map_full(job.steps@, f);
    }
    findings
}

/// One critical finding for each `run:` script that holds injection
/// evidence (see `find_injection_evidence`), in job and step order; the
/// evidence is listed joined by `", "`.
pub fn analyze(workflow: &WorkflowFile) -> (res: Vec<Finding>)
    ensures
        findings_view(res@) == injection_findings(*workflow),
{
    let ghost f = |j: Job| injection_job_findings(*workflow, j);
    let mut findings: Vec<Finding> = Vec::new();
    let mut i: usize = 0;
    while i < workflow.jobs.len()
        invariant
            i <= workflow.jobs@.len(),
            f == (|j: Job| injection_job_findings(*workflow, j)),
            findings_view(findings@) == flat_map(workflow.jobs@.take(i as int), f),
        decreases workflow.jobs@.len() - i,
    {
        proof {
            lemma_flat_map_take(workflow.jobs@, f, i as int);
        }
        append_findings(&mut findings, analyze_job(workflow, &workflow.jobs[i]));
        i += 1;
    }
    proof {
        lemma_flat_map_full(workflow.jobs@, f);
    }
    findings
}

/// Law: a run script with no `${{` expression in it carries no evidence of
/// injection. So the hardened pattern, which moves the expression into
/// `env:` and has the script read `$VAR`, is never flagged.
pub proof fn lemma_no_expression_no_evidence(script: Seq<char>)
    requires
        !contains_seq(script, "${{"@),
    ensures
        injection_evidence(script).len() == 0,
{
    reveal_strlit("${{");
    reveal_strlit("${{ github.event.issue.title }}");
    reveal_strlit("${{ github.event.issue.body }}");
    reveal_strlit("${{ github.event.pull_request.title }}");
    reveal_strlit("${{ github.event.pull_request.body }}");
    reveal_strlit("${{ github.event.comment.body }}");
    reveal_strlit("${{ github.event.discussion.title }}");
    reveal_strlit("${{ github.event.discussion.body }}");
    reveal_strlit("${{ github.head_ref }}");
    reveal_strlit("${{ github.event.");
    reveal_strlit("${{ inputs.");
    let pats = known_injection_patterns();
    let f = |p: Seq<char>|
        if contains_seq(script, p) {
            seq![p]
        } else {
            Seq::<Seq<char>>::empty()
        };
    assert forall|i: int| 0 <= i < pats.len() implies starts_with(#[trigger] pats[i], "${{"@) by {
        assert(pats[i].subrange(0, 3) =~= "${{"@);
    }
    assert forall|i: int| 0 <= i < pats.len() implies (#[trigger] f(pats[i])).len() == 0 by {
        assert(starts_with(pats[i], "${{"@));
        if contains_seq(script, pats[i]) {
            lemma_contains_prefix(script, pats[i], "${{"@);
        }
    }
    lemma_flat_map_empty(pats, f);
    assert(known_patterns_in(script) == flat_map(pats, f));
    let pre = injection_prefixes();
    assert(pre[0].subrange(0, 3) =~= "${{"@);
    assert(pre[1].subrange(0, 3) =~= "${{"@);
    if contains_seq(script, pre[0]) {
        lemma_contains_prefix(script, pre[0], "${{"@);
    }
    if contains_seq(script, pre[1]) {
        lemma_contains_prefix(script, pre[1], "${{"@);
    }
}

/// The context expressions whose text an attacker controls: issue, pull
/// request, comment and discussion titles and bodies, and the head branch.
pub open spec fn untrusted_expressions() -> Seq<Seq<char>> {
    seq![
        "${{ github.event.issue.title }}"@,
        "${{ github.event.issue.body }}"@,
        "${{ github.event.pull_request.title }}"@,
        "${{ github.event.pull_request.body }}"@,
        "${{ github.event.comment.body }}"@,
        "${{ github.event.discussion.title }}"@,
        "${{ github.event.discussion.body }}"@,
        "${{ github.head_ref }}"@,
    ]
}

/// Law: every untrusted expression a script contains is reported as
/// evidence, whatever else the script holds; and when it contains any, the
/// evidence is exactly such expressions, each of them in the script.
pub proof fn lemma_untrusted_expressions_reported(script: Seq<char>)
    ensures
        forall|i: int|
            0 <= i < untrusted_expressions().len() && contains_seq(
                script,
                #[trigger] untrusted_expressions()[i],
            ) ==> injection_evidence(script).contains(untrusted_expressions()[i]),
        (exists|i: int|
            0 <= i < untrusted_expressions().len() && contains_seq(
                script,
                #[trigger] untrusted_expressions()[i],
            )) ==> forall|k: int|
            0 <= k < injection_evidence(script).len() ==> untrusted_expressions().contains(
                #[trigger] injection_evidence(script)[k],
            ) && contains_seq(script, injection_evidence(script)[k]),
{
    let known = untrusted_expressions();
    assert(known == known_injection_patterns());
    let f = |p: Seq<char>|
        if contains_seq(script, p) {
            seq![p]
        } else {
            Seq::<Seq<char>>::empty()
        };
    let found = flat_map(known, f);
    assert(known_patterns_in(script) == found);
    assert forall|i: int| 0 <= i < known.len() && contains_seq(script, #[trigger] known[i]) implies found.contains(
        known[i],
    ) by {
        assert(f(known[i])[0] == known[i]);
        lemma_flat_map_contains(known, f, i, 0);
    }
    if exists|i: int| 0 <= i < known.len() && contains_seq(script, #[trigger] known[i]) {
        let i = choose|i: int| 0 <= i < known.len() && contains_seq(script, #[trigger] known[i]);
        assert(found.contains(known[i]));
        assert(found.len() > 0);
        let p = |e: Seq<char>| known.contains(e) && contains_seq(script, e);
        assert forall|a: int, b: int| 0 <= a < known.len() && 0 <= b < f(known[a]).len() implies p(
            #[trigger] f(known[a])[b],
        ) by {
            assert(f(known[a])[b] == known[a]);
            assert(known[a] == known[a]);
        }
        lemma_flat_map_all(known, f, p);
        assert(injection_evidence(script) == found);
    }
}

/// Law: a run step whose script contains an untrusted expression gets a
/// critical script-injection finding, naming its job and step, whose
/// evidence quotes the expression.
pub proof fn lemma_untrusted_expression_flagged(workflow: WorkflowFile, j: int, k: int, i: int)
    requires
        0 <= j < workflow.jobs@.len(),
        0 <= k < workflow.jobs@[j].steps@.len(),
        0 <= i < untrusted_expressions().len(),
        workflow.jobs@[j].steps@[k].run matches Some(r) && contains_seq(
            r@,
            untrusted_expressions()[i],
        ),
    ensures
        exists|m: int|
            0 <= m < injection_findings(workflow).len() && {
                let f = #[trigger] injection_findings(workflow)[m];
                &&& f.finding_type == FindingKind::ScriptInjection
                &&& f.severity == Severity::Critical
                &&& f.workflow == workflow.path@
                &&& f.job_id == Some(workflow.jobs@[j].id@)
                &&& f.step_name == workflow.jobs@[j].steps@[k].name.deep_view()
                &&& f.line == workflow.jobs@[j].steps@[k].line
                &&& contains_seq(f.evidence, untrusted_expressions()[i])
            },
{
    let job = workflow.jobs@[j];
    let step = job.steps@[k];
    let r = step.run->0;
    lemma_untrusted_expressions_reported(r@);
    let ev = injection_evidence(r@);
    let e = untrusted_expressions()[i];
    assert(ev.contains(e));
    let q = choose|q: int| 0 <= q < ev.len() && ev[q] == e;
    lemma_join_contains(ev, ", "@, q);
    let h = |s: Step| injection_step_findings(workflow, job, s);
    let fnd = h(step)[0];
    lemma_flat_map_contains(job.steps@, h, k, 0);
    let jf = injection_job_findings(workflow, job);
    let q2 = choose|q2: int| 0 <= q2 < jf.len() && jf[q2] == fnd;
    let g = |jj: Job| injection_job_findings(workflow, jj);
    lemma_flat_map_contains(workflow.jobs@, g, j, q2);
    let all = injection_findings(workflow);
    let m = choose|m: int| 0 <= m < all.len() && all[m] == fnd;
    assert(all[m] == fnd);
}

/// Law: a script that contains no untrusted expression is still flagged
/// when it reads any other event field (`${{ github.event.`) or a workflow
/// input (`${{ inputs.`): the evidence names that prefix, the event one
/// first; a script with none of these gives no evidence. A step without a
/// run script is never flagged, and a flagged step gets exactly one
/// critical finding.
pub proof fn lemma_generic_prefixes_reported(script: Seq<char>, workflow: WorkflowFile, job: Job, step: Step)
    requires
        forall|i: int|
            0 <= i < untrusted_expressions().len() ==> !contains_seq(
                script,
                #[trigger] untrusted_expressions()[i],
            ),
    ensures
        contains_seq(script, "${{ github.event."@) ==> injection_evidence(script) == seq![
            "${{ github.event."@ + "...}"@,
        ],
        !contains_seq(script, "${{ github.event."@) && contains_seq(script, "${{ inputs."@)
            ==> injection_evidence(script) == seq!["${{ inputs."@ + "...}"@],
        !contains_seq(script, "${{ github.event."@) && !contains_seq(script, "${{ inputs."@)
            ==> injection_evidence(script).len() == 0,
        step.run is None ==> injection_step_findings(workflow, job, step).len() == 0,
        step.run matches Some(r) ==> injection_step_findings(workflow, job, step).len() == if injection_evidence(
            r@,
        ).len() > 0 {
            1int
        } else {
            0int
        },
        forall|m: int|
            0 <= m < injection_step_findings(workflow, job, step).len() ==> (
            #[trigger] injection_step_findings(workflow, job, step)[m]).severity == Severity::Critical
                && injection_step_findings(workflow, job, step)[m].finding_type
                == FindingKind::ScriptInjection,
{
    let known = untrusted_expressions();
    assert(known == known_injection_patterns());
    let f = |p: Seq<char>|
        if contains_seq(script, p) {
            seq![p]
        } else {
            Seq::<Seq<char>>::empty()
        };
    assert forall|i: int| 0 <= i < known.len() implies (#[trigger] f(known[i])).len() == 0 by {}
    lemma_flat_map_empty(known, f);
    assert(known_patterns_in(script) == flat_map(known, f));
}

} // verus!
