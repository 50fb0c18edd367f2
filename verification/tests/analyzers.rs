use ghass::analyzers::{action_pinning, permissions, runner, script_injection, secrets};
use ghass::models::{FindingType, Job, Permissions, Severity, Step, WorkflowFile};

fn workflow_with(jobs: Vec<Job>) -> WorkflowFile {
    workflow_with_triggers(vec!["push".to_string()], jobs)
}

fn workflow_with_triggers(triggers: Vec<String>, jobs: Vec<Job>) -> WorkflowFile {
    WorkflowFile {
        path: "wf.yml".to_string(),
        name: "test".to_string(),
        triggers,
        jobs,
        global_permissions: None,
    }
}

fn job(id: &str, steps: Vec<Step>) -> Job {
    Job {
        id: id.to_string(),
        runs_on: "ubuntu-latest".to_string(),
        permissions: None,
        steps,
        is_reusable_call: false,
        line: None,
    }
}

fn run_step(run: &str) -> Step {
    Step {
        name: Some("step".to_string()),
        uses: None,
        run: Some(run.to_string()),
        env: vec![],
        with: vec![],
        line: None,
    }
}

fn uses_step(uses: &str) -> Step {
    Step {
        name: Some("step".to_string()),
        uses: Some(uses.to_string()),
        run: None,
        env: vec![],
        with: vec![],
        line: None,
    }
}

fn perms(contents: Option<&str>, pull_requests: Option<&str>, write_all: bool) -> Permissions {
    Permissions {
        contents: contents.map(String::from),
        pull_requests: pull_requests.map(String::from),
        write_all,
    }
}

// ---- action pinning ----

#[test]
fn flags_mutable_branch_reference_as_high() {
    let wf = workflow_with(vec![job(
        "build",
        vec![uses_step("some-org/build-action@main")],
    )]);

    let findings = action_pinning::analyze(&wf);

    assert_eq!(findings.len(), 1);
    assert_eq!(findings[0].finding_type, FindingType::UnpinnedAction);
    assert_eq!(findings[0].severity, Severity::High);
}

#[test]
fn flags_master_and_latest_as_high() {
    for reference in ["some-org/a@master", "some-org/b@latest"] {
        let wf = workflow_with(vec![job("build", vec![uses_step(reference)])]);
        let findings = action_pinning::analyze(&wf);
        assert_eq!(findings[0].severity, Severity::High, "{reference}");
    }
}

#[test]
fn flags_semantic_version_tag_as_medium() {
    let wf = workflow_with(vec![job("build", vec![uses_step("actions/checkout@v4")])]);

    let findings = action_pinning::analyze(&wf);

    assert_eq!(findings.len(), 1);
    assert_eq!(findings[0].severity, Severity::Medium);
}

#[test]
fn does_not_flag_full_commit_sha() {
    let sha = "a".repeat(40);
    let wf = workflow_with(vec![job(
        "build",
        vec![uses_step(&format!("actions/checkout@{sha}"))],
    )]);

    assert!(action_pinning::analyze(&wf).is_empty());
}

#[test]
fn does_not_flag_local_action_reference() {
    let wf = workflow_with(vec![job("build", vec![uses_step("./local-action")])]);

    assert!(action_pinning::analyze(&wf).is_empty());
}

#[test]
fn does_not_flag_reusable_workflow_reference() {
    let wf = workflow_with(vec![job(
        "build",
        vec![uses_step(
            "org/repo/.github/workflows/reusable.yml@main",
        )],
    )]);

    assert!(action_pinning::analyze(&wf).is_empty());
}

#[test]
fn does_not_flag_docker_reference_missing_a_tag() {
    // No '@' at all: the reference is skipped.
    let wf = workflow_with(vec![job("build", vec![uses_step("docker://alpine")])]);

    assert!(action_pinning::analyze(&wf).is_empty());
}

#[test]
fn flags_unpinned_docker_reference() {
    let wf = workflow_with(vec![job(
        "build",
        vec![uses_step("docker://alpine@latest")],
    )]);

    assert_eq!(action_pinning::analyze(&wf).len(), 1);
}

#[test]
fn step_without_uses_is_ignored() {
    let wf = workflow_with(vec![job(
        "build",
        vec![run_step("echo hi")],
    )]);

    assert!(action_pinning::analyze(&wf).is_empty());
}

// ---- permissions ----

fn checkout_step_with_pr_head_ref() -> Step {
    let mut step = uses_step("actions/checkout@v4");
    step.with = vec![(
        "ref".to_string(),
        "${{ github.event.pull_request.head.ref }}".to_string(),
    )];
    step
}

#[test]
fn detects_pwn_request_pattern() {
    let wf = workflow_with_triggers(
        vec!["pull_request_target".to_string()],
        vec![job("build", vec![checkout_step_with_pr_head_ref()])],
    );

    let findings = permissions::analyze(&wf);

    assert_eq!(findings.len(), 1);
    assert_eq!(findings[0].finding_type, FindingType::PwnRequest);
    assert_eq!(findings[0].severity, Severity::Critical);
}

#[test]
fn no_pwn_request_without_pull_request_target_trigger() {
    let wf = workflow_with(vec![job("build", vec![checkout_step_with_pr_head_ref()])]);

    assert!(permissions::detect_pwn_request(&wf).is_empty());
}

#[test]
fn no_pwn_request_when_checkout_uses_default_ref() {
    let wf = workflow_with_triggers(
        vec!["pull_request_target".to_string()],
        vec![job("build", vec![uses_step("actions/checkout@v4")])],
    );

    assert!(permissions::detect_pwn_request(&wf).is_empty());
}

#[test]
fn no_pwn_request_when_trigger_present_but_no_checkout_step() {
    let wf = workflow_with_triggers(
        vec!["pull_request_target".to_string()],
        vec![job("build", vec![uses_step("actions/setup-node@v4")])],
    );

    assert!(permissions::detect_pwn_request(&wf).is_empty());
}

#[test]
fn flags_global_write_all() {
    let mut wf = workflow_with(vec![]);
    wf.global_permissions = Some(perms(None, None, true));

    let findings = permissions::detect_global_write_permissions(&wf);

    assert_eq!(findings.len(), 1);
    assert!(findings[0].evidence.contains("write-all"));
}

#[test]
fn flags_global_contents_write() {
    let mut wf = workflow_with(vec![]);
    wf.global_permissions = Some(perms(Some("write"), None, false));

    let findings = permissions::detect_global_write_permissions(&wf);

    assert_eq!(findings.len(), 1);
    assert_eq!(findings[0].severity, Severity::High);
}

#[test]
fn flags_global_pull_requests_write_as_medium() {
    let mut wf = workflow_with(vec![]);
    wf.global_permissions = Some(perms(None, Some("write"), false));

    let findings = permissions::detect_global_write_permissions(&wf);

    assert_eq!(findings.len(), 1);
    assert_eq!(findings[0].severity, Severity::Medium);
}

#[test]
fn flags_contents_and_pull_requests_write_together() {
    let mut wf = workflow_with(vec![]);
    wf.global_permissions = Some(perms(Some("write"), Some("write"), false));

    assert_eq!(permissions::detect_global_write_permissions(&wf).len(), 2);
}

#[test]
fn no_findings_without_global_permissions_block() {
    let wf = workflow_with(vec![]);

    assert!(permissions::detect_global_write_permissions(&wf).is_empty());
}

#[test]
fn read_only_global_permissions_produce_no_finding() {
    let mut wf = workflow_with(vec![]);
    wf.global_permissions = Some(perms(Some("read"), Some("read"), false));

    assert!(permissions::detect_global_write_permissions(&wf).is_empty());
}

#[test]
fn flags_job_level_write_all() {
    let mut j = job("build", vec![]);
    j.permissions = Some(perms(None, None, true));
    let wf = workflow_with(vec![j]);

    let findings = permissions::detect_job_write_all(&wf);

    assert_eq!(findings.len(), 1);
    assert_eq!(findings[0].job_id.as_deref(), Some("build"));
}

#[test]
fn job_without_write_all_is_not_flagged() {
    let mut j = job("build", vec![]);
    j.permissions = Some(perms(Some("read"), None, false));
    let wf = workflow_with(vec![j]);

    assert!(permissions::detect_job_write_all(&wf).is_empty());
}

// ---- runner ----

fn job_with_runner(runs_on: &str) -> Job {
    let mut j = job("build", vec![]);
    j.runs_on = runs_on.to_string();
    j
}

#[test]
fn flags_self_hosted_runner() {
    let wf = workflow_with(vec![job_with_runner("self-hosted")]);

    let findings = runner::analyze(&wf);

    assert_eq!(findings.len(), 1);
    assert_eq!(findings[0].finding_type, FindingType::SelfHostedRunner);
    assert_eq!(findings[0].severity, Severity::Medium);
}

#[test]
fn flags_self_hosted_case_insensitively() {
    let wf = workflow_with(vec![job_with_runner("Self-Hosted")]);

    assert_eq!(runner::analyze(&wf).len(), 1);
}

#[test]
fn flags_self_hosted_with_extra_labels() {
    let wf = workflow_with(vec![job_with_runner("[self-hosted, linux, x64]")]);

    assert_eq!(runner::analyze(&wf).len(), 1);
}

#[test]
fn does_not_flag_github_hosted_runner() {
    let wf = workflow_with(vec![job_with_runner("ubuntu-latest")]);

    assert!(runner::analyze(&wf).is_empty());
}

#[test]
fn multiple_jobs_are_each_evaluated() {
    let wf = workflow_with(vec![
        job_with_runner("self-hosted"),
        job_with_runner("windows-latest"),
    ]);

    assert_eq!(runner::analyze(&wf).len(), 1);
}

// ---- script injection ----

#[test]
fn flags_known_pattern_in_run_step() {
    let wf = workflow_with(vec![job(
        "build",
        vec![run_step(
            "echo ${{ github.event.pull_request.title }}",
        )],
    )]);

    let findings = script_injection::analyze(&wf);

    assert_eq!(findings.len(), 1);
    assert_eq!(findings[0].finding_type, FindingType::ScriptInjection);
    assert_eq!(findings[0].severity, Severity::Critical);
    assert_eq!(
        findings[0].evidence,
        "${{ github.event.pull_request.title }}"
    );
}

#[test]
fn flags_generic_event_prefix_when_no_known_pattern_matches() {
    let wf = workflow_with(vec![job(
        "build",
        vec![run_step("echo ${{ github.event.review.body }}")],
    )]);

    let findings = script_injection::analyze(&wf);

    assert_eq!(findings.len(), 1);
    assert_eq!(findings[0].evidence, "${{ github.event....}");
}

#[test]
fn flags_inputs_prefix() {
    let wf = workflow_with(vec![job(
        "build",
        vec![run_step("echo ${{ inputs.untrusted }}")],
    )]);

    let findings = script_injection::analyze(&wf);

    assert_eq!(findings.len(), 1);
    assert_eq!(findings[0].evidence, "${{ inputs....}");
}

#[test]
fn safe_workflow_using_intermediate_env_var_is_not_flagged() {
    let mut step = run_step("echo \"$PR_TITLE\"");
    step.env = vec![(
        "PR_TITLE".to_string(),
        "${{ github.event.pull_request.title }}".to_string(),
    )];
    let wf = workflow_with(vec![job("build", vec![step])]);

    // env values are not scanned by this analyzer, only the run script text.
    let findings = script_injection::analyze(&wf);

    assert!(findings.is_empty());
}

#[test]
fn step_without_run_script_is_ignored() {
    let wf = workflow_with(vec![job(
        "build",
        vec![uses_step("actions/checkout@v4")],
    )]);

    assert!(script_injection::analyze(&wf).is_empty());
}

#[test]
fn clean_run_script_produces_no_finding() {
    let wf = workflow_with(vec![job("build", vec![run_step("echo hello")])]);

    assert!(script_injection::analyze(&wf).is_empty());
}

// ---- secrets ----

#[test]
fn flags_secret_passed_to_third_party_action() {
    let mut step = uses_step("some-org/build-action@main");
    step.with = vec![(
        "api-key".to_string(),
        "${{ secrets.BUILD_API_KEY }}".to_string(),
    )];
    let wf = workflow_with(vec![job("build", vec![step])]);

    let findings = secrets::analyze(&wf);

    assert_eq!(findings.len(), 1);
    assert_eq!(findings[0].finding_type, FindingType::SecretExposure);
    assert_eq!(findings[0].severity, Severity::High);
}

#[test]
fn does_not_flag_secret_passed_to_first_party_action() {
    let mut step = uses_step("actions/checkout@v4");
    step.with = vec![("token".to_string(), "${{ secrets.GITHUB_TOKEN }}".to_string())];
    let wf = workflow_with(vec![job("build", vec![step])]);

    assert!(secrets::analyze(&wf).is_empty());
}

#[test]
fn does_not_flag_local_action() {
    let mut step = uses_step("./local-action");
    step.with = vec![("token".to_string(), "${{ secrets.GITHUB_TOKEN }}".to_string())];
    let wf = workflow_with(vec![job("build", vec![step])]);

    assert!(secrets::analyze(&wf).is_empty());
}

#[test]
fn flags_multiple_secrets_in_a_single_step() {
    let mut step = uses_step("some-org/build-action@main");
    step.with = vec![
        ("api-key".to_string(), "${{ secrets.API_KEY }}".to_string()),
        ("token".to_string(), "${{ secrets.GITHUB_TOKEN }}".to_string()),
    ];
    let wf = workflow_with(vec![job("build", vec![step])]);

    assert_eq!(secrets::analyze(&wf).len(), 2);
}

#[test]
fn flags_secret_stored_in_run_step_env_as_informational() {
    let mut step = run_step("echo \"$API_KEY\"");
    step.env = vec![("API_KEY".to_string(), "${{ secrets.API_KEY }}".to_string())];
    let wf = workflow_with(vec![job("build", vec![step])]);

    let findings = secrets::analyze(&wf);

    assert_eq!(findings.len(), 1);
    assert_eq!(findings[0].severity, Severity::Informational);
}

#[test]
fn does_not_flag_env_secret_without_a_run_script() {
    let mut step = uses_step("actions/checkout@v4");
    step.env = vec![("API_KEY".to_string(), "${{ secrets.API_KEY }}".to_string())];
    let wf = workflow_with(vec![job("build", vec![step])]);

    assert!(secrets::analyze(&wf).is_empty());
}

#[test]
fn step_without_secrets_produces_no_finding() {
    let mut step = uses_step("some-org/build-action@main");
    step.with = vec![("ref".to_string(), "${{ github.sha }}".to_string())];
    let wf = workflow_with(vec![job("build", vec![step])]);

    assert!(secrets::analyze(&wf).is_empty());
}

// ---- severity escalations ----

#[test]
fn self_hosted_runner_is_high_under_pull_request_triggers() {
    for trigger in ["pull_request", "pull_request_target"] {
        let mut j = job("build", vec![]);
        j.runs_on = "self-hosted".to_string();
        let wf = workflow_with_triggers(vec![trigger.to_string()], vec![j]);
        let findings = runner::analyze(&wf);
        assert_eq!(findings.len(), 1);
        assert_eq!(findings[0].severity, Severity::High, "{trigger}");
    }
    let mut j = job("build", vec![]);
    j.runs_on = "self-hosted".to_string();
    let wf = workflow_with_triggers(vec!["push".to_string(), "workflow_dispatch".to_string()], vec![j]);
    assert_eq!(runner::analyze(&wf)[0].severity, Severity::Medium);
}

#[test]
fn branch_pinned_action_receiving_secrets_is_critical() {
    let mut st = uses_step("some-org/deploy@main");
    st.with = vec![("token".to_string(), "${{ secrets.DEPLOY_TOKEN }}".to_string())];
    let wf = workflow_with(vec![job("build", vec![st])]);
    let findings = action_pinning::analyze(&wf);
    assert_eq!(findings.len(), 1);
    assert_eq!(findings[0].severity, Severity::Critical);

    // a tag stays medium even with secrets; a branch without secrets stays high
    let mut tagged = uses_step("some-org/deploy@v2");
    tagged.with = vec![("token".to_string(), "${{ secrets.DEPLOY_TOKEN }}".to_string())];
    let mut plain = uses_step("some-org/deploy@master");
    plain.with = vec![("ref".to_string(), "${{ github.sha }}".to_string())];
    let wf = workflow_with(vec![job("build", vec![tagged, plain])]);
    let findings = action_pinning::analyze(&wf);
    assert_eq!(findings[0].severity, Severity::Medium);
    assert_eq!(findings[1].severity, Severity::High);
}

#[test]
fn contents_write_is_critical_under_pull_request_triggers() {
    for trigger in ["pull_request", "pull_request_target"] {
        let mut wf = workflow_with_triggers(vec![trigger.to_string()], vec![]);
        wf.global_permissions = Some(perms(Some("write"), Some("write"), false));
        let findings = permissions::detect_global_write_permissions(&wf);
        assert_eq!(findings.len(), 2);
        assert_eq!(findings[0].evidence, "permissions.contents: write");
        assert_eq!(findings[0].severity, Severity::Critical, "{trigger}");
        assert_eq!(findings[1].severity, Severity::Medium);
    }
    let mut wf = workflow_with(vec![]);
    wf.global_permissions = Some(perms(Some("write"), None, false));
    assert_eq!(permissions::detect_global_write_permissions(&wf)[0].severity, Severity::High);
}
