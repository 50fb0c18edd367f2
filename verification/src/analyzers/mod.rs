//! The built-in analyzers, and the evaluation of custom rules.

pub mod action_pinning;
pub mod custom_rules;
pub mod permissions;
pub mod runner;
pub mod script_injection;
pub mod secrets;

use vstd::prelude::*;
use crate::models::{append_findings, findings_view, flat_map, FindingView, Finding, Job, Step, WorkflowFile};
use crate::rules::{Rule, RuleSet};

verus! {

/// Everything the analyzers report for one workflow, analyzer by analyzer:
/// script injection, permissions, action pinning, secrets, runners, then
/// the custom rules when there are any.
pub open spec fn all_findings(workflow: WorkflowFile, custom_rules: Option<RuleSet>) -> Seq<
    FindingView,
> {
    script_injection::injection_findings(workflow) + permissions::permission_findings(workflow)
        + action_pinning::pinning_findings(workflow) + secrets::secret_findings(workflow)
        + runner::runner_findings(workflow) + match custom_rules {
        Some(rules) => custom_rules::custom_findings(workflow, rules),
        None => Seq::empty(),
    }
}

/// Runs every analyzer on one workflow, in the order of `all_findings`.
pub fn run_all(workflow: &WorkflowFile, custom_rules: Option<&RuleSet>) -> (res: Vec<Finding>)
    ensures
        findings_view(res@) == all_findings(
            *workflow,
            match custom_rules {
                Some(r) => Some(*r),
                None => None,
            },
        ),
{
    let mut findings = script_injection::analyze(workflow);
    append_findings(&mut findings, permissions::analyze(workflow));
    append_findings(&mut findings, action_pinning::analyze(workflow));
    append_findings(&mut findings, secrets::analyze(workflow));
    append_findings(&mut findings, runner::analyze(workflow));
    if let Some(rules) = custom_rules {
        append_findings(&mut findings, custom_rules::analyze(workflow, rules));
    } else {
        assert(findings_view(findings@) + Seq::<FindingView>::empty() =~= findings_view(findings@));
    }
    findings
}

/// Whether every finding of `fs` names the workflow file at `path`.
pub open spec fn all_name(fs: Seq<FindingView>, path: Seq<char>) -> bool {
    forall|k: int| 0 <= k < fs.len() ==> (#[trigger] fs[k]).workflow == path
}

proof fn lemma_concat_names(a: Seq<FindingView>, b: Seq<FindingView>, path: Seq<char>)
    requires
        all_name(a, path),
        all_name(b, path),
    ensures
        all_name(a + b, path),
{
    assert forall|k: int| 0 <= k < (a + b).len() implies (#[trigger] (a + b)[k]).workflow
        == path by {
        if k >= a.len() {
            assert((a + b)[k] == b[k - a.len()]);
        }
    }
}

proof fn lemma_flat_map_names<A>(s: Seq<A>, f: spec_fn(A) -> Seq<FindingView>, path: Seq<char>)
    requires
        forall|i: int| 0 <= i < s.len() ==> all_name(#[trigger] f(s[i]), path),
    ensures
        all_name(flat_map(s, f), path),
    decreases s.len(),
{
    if s.len() > 0 {
        assert forall|i: int| 0 <= i < s.drop_last().len() implies all_name(
            #[trigger] f(s.drop_last()[i]),
            path,
        ) by {
            assert(s.drop_last()[i] == s[i]);
        }
        lemma_flat_map_names(s.drop_last(), f, path);
        assert(all_name(f(s[s.len() - 1]), path));
        lemma_concat_names(flat_map(s.drop_last(), f), f(s.last()), path);
    }
}

proof fn lemma_injection_names(w: WorkflowFile)
    ensures
        all_name(script_injection::injection_findings(w), w.path@),
{
    assert forall|i: int| 0 <= i < w.jobs@.len() implies all_name(
        #[trigger] script_injection::injection_job_findings(w, w.jobs@[i]),
        w.path@,
    ) by {
        let j = w.jobs@[i];
        lemma_flat_map_names(
            j.steps@,
            |s: Step| script_injection::injection_step_findings(w, j, s),
            w.path@,
        );
    }
    lemma_flat_map_names(
        w.jobs@,
        |j: Job| script_injection::injection_job_findings(w, j),
        w.path@,
    );
}

proof fn lemma_permission_names(w: WorkflowFile)
    ensures
        all_name(permissions::permission_findings(w), w.path@),
{
    assert forall|i: int| 0 <= i < w.jobs@.len() implies all_name(
        #[trigger] permissions::pwn_job_findings(w, w.jobs@[i]),
        w.path@,
    ) by {
        let j = w.jobs@[i];
        lemma_flat_map_names(j.steps@, |s: Step| permissions::pwn_step_findings(w, j, s), w.path@);
    }
    lemma_flat_map_names(w.jobs@, |j: Job| permissions::pwn_job_findings(w, j), w.path@);
    lemma_flat_map_names(w.jobs@, |j: Job| permissions::job_write_all_findings(w, j), w.path@);
    let g = permissions::global_permission_findings(w);
    match w.global_permissions {
        None => {},
        Some(p) => {
            let a: Seq<FindingView> = if p.write_all {
                seq![permissions::global_write_all_finding(w.path@)]
            } else {
                Seq::empty()
            };
            let b: Seq<FindingView> = if permissions::grants_write(p.contents) {
                seq![permissions::global_contents_write_finding(w.path@, permissions::pr_triggered(w))]
            } else {
                Seq::empty()
            };
            let c: Seq<FindingView> = if permissions::grants_write(p.pull_requests) {
                seq![permissions::global_pull_requests_write_finding(w.path@)]
            } else {
                Seq::empty()
            };
            lemma_concat_names(a, b, w.path@);
            lemma_concat_names(a + b, c, w.path@);
        },
    }
    lemma_concat_names(permissions::pwn_findings(w), g, w.path@);
    lemma_concat_names(
        permissions::pwn_findings(w) + g,
        permissions::job_write_all_all(w),
        w.path@,
    );
}

proof fn lemma_pinning_names(w: WorkflowFile)
    ensures
        all_name(action_pinning::pinning_findings(w), w.path@),
{
    assert forall|i: int| 0 <= i < w.jobs@.len() implies all_name(
        #[trigger] action_pinning::pinning_job_findings(w, w.jobs@[i]),
        w.path@,
    ) by {
        let j = w.jobs@[i];
        lemma_flat_map_names(
            j.steps@,
            |s: Step| action_pinning::pinning_step_findings(w, j, s),
            w.path@,
        );
    }
    lemma_flat_map_names(w.jobs@, |j: Job| action_pinning::pinning_job_findings(w, j), w.path@);
}

proof fn lemma_secret_names(w: WorkflowFile)
    ensures
        all_name(secrets::secret_findings(w), w.path@),
{
    assert forall|i: int| 0 <= i < w.jobs@.len() implies all_name(
        #[trigger] secrets::secret_job_findings(w, w.jobs@[i]),
        w.path@,
    ) by {
        let j = w.jobs@[i];
        assert forall|k: int| 0 <= k < j.steps@.len() implies all_name(
            #[trigger] secrets::secret_step_findings(w, j, j.steps@[k]),
            w.path@,
        ) by {
            let st = j.steps@[k];
            match st.uses {
                Some(u) => {
                    if !secrets::is_first_party_action(u@) {
                        lemma_flat_map_names(
                            st.with@,
                            |e: (String, String)|
                                secrets::third_party_entry_findings(w.path@, j.id@, st, u@, e),
                            w.path@,
                        );
                    }
                },
                None => {},
            }
            if st.run is Some {
                lemma_flat_map_names(
                    st.env@,
                    |e: (String, String)| secrets::env_entry_findings(w.path@, j.id@, st, e),
                    w.path@,
                );
            }
            lemma_concat_names(
                secrets::third_party_findings(w.path@, j.id@, st),
                secrets::run_env_findings(w.path@, j.id@, st),
                w.path@,
            );
        }
        lemma_flat_map_names(j.steps@, |s: Step| secrets::secret_step_findings(w, j, s), w.path@);
    }
    lemma_flat_map_names(w.jobs@, |j: Job| secrets::secret_job_findings(w, j), w.path@);
}

proof fn lemma_custom_names(w: WorkflowFile, rules: RuleSet)
    ensures
        all_name(custom_rules::custom_findings(w, rules), w.path@),
{
    assert forall|r: int| 0 <= r < rules.rules@.len() implies all_name(
        #[trigger] custom_rules::rule_findings(rules.rules@[r], w),
        w.path@,
    ) by {
        let rule = rules.rules@[r];
        assert forall|i: int| 0 <= i < w.jobs@.len() implies all_name(
            #[trigger] custom_rules::rule_job_steps_findings(rule, w, w.jobs@[i]),
            w.path@,
        ) by {
            let j = w.jobs@[i];
            lemma_flat_map_names(
                j.steps@,
                |s: Step| custom_rules::rule_step_findings(rule, w, j, s),
                w.path@,
            );
        }
        lemma_flat_map_names(
            w.jobs@,
            |j: Job| custom_rules::rule_job_steps_findings(rule, w, j),
            w.path@,
        );
        lemma_flat_map_names(w.jobs@, |j: Job| custom_rules::rule_job_findings(rule, w, j), w.path@);
    }
    lemma_flat_map_names(rules.rules@, |r: Rule| custom_rules::rule_findings(r, w), w.path@);
}

/// Law: every finding reported for a workflow names that workflow's file,
/// whichever analyzer or custom rule reported it.
pub proof fn lemma_findings_name_their_workflow(workflow: WorkflowFile, custom_rules: Option<RuleSet>)
    ensures
        all_name(all_findings(workflow, custom_rules), workflow.path@),
{
    let path = workflow.path@;
    lemma_injection_names(workflow);
    lemma_permission_names(workflow);
    lemma_pinning_names(workflow);
    lemma_secret_names(workflow);
    lemma_flat_map_names(workflow.jobs@, |j: Job| runner::runner_job_findings(workflow, j), path);
    let c = match custom_rules {
        Some(rules) => custom_rules::custom_findings(workflow, rules),
        None => Seq::<FindingView>::empty(),
    };
    match custom_rules {
        Some(rules) => lemma_custom_names(workflow, rules),
        None => {},
    }
    let a = script_injection::injection_findings(workflow);
    let b = permissions::permission_findings(workflow);
    let d = action_pinning::pinning_findings(workflow);
    let e = secrets::secret_findings(workflow);
    let f = runner::runner_findings(workflow);
    lemma_concat_names(a, b, path);
    lemma_concat_names(a + b, d, path);
    lemma_concat_names(a + b + d, e, path);
    lemma_concat_names(a + b + d + e, f, path);
    lemma_concat_names(a + b + d + e + f, c, path);
}

} // verus!
