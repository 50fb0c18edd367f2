use ghass::models::{Job, Permissions, Severity, Step, WorkflowFile};
use ghass::rules::{condition_from_value, Condition, MatchContext, Rule, RuleError, RuleSet};
use ghass::yaml::{YamlEntry, YamlValue};

fn workflow(triggers: Vec<&str>, global_write_all: bool) -> WorkflowFile {
    WorkflowFile {
        path: "workflow.yml".to_string(),
        name: "test".to_string(),
        triggers: triggers.into_iter().map(String::from).collect(),
        jobs: vec![],
        global_permissions: Some(Permissions {
            write_all: global_write_all,
            ..Default::default()
        }),
    }
}

fn job(id: &str, runs_on: &str, steps: Vec<Step>) -> Job {
    Job {
        id: id.to_string(),
        runs_on: runs_on.to_string(),
        permissions: None,
        steps,
        is_reusable_call: false,
        line: None,
    }
}

fn step(uses: Option<&str>, run: Option<&str>) -> Step {
    Step {
        name: Some("a step".to_string()),
        uses: uses.map(String::from),
        run: run.map(String::from),
        env: vec![],
        with: vec![],
        line: None,
    }
}

fn rule(id: &str, condition: Condition) -> Rule {
    Rule {
        id: id.to_string(),
        title: "A".to_string(),
        severity: Severity::Low,
        description: String::new(),
        remediation: String::new(),
        cwe: None,
        condition,
    }
}

fn s(text: &str) -> YamlValue {
    YamlValue::Str(text.to_string())
}

fn map1(key: YamlValue, value: YamlValue) -> YamlValue {
    YamlValue::Mapping(vec![YamlEntry { key, value }])
}

// ---- validation (what loading a rules file checks) ----

#[test]
fn load_rejects_duplicate_ids() {
    let rules = RuleSet {
        rules: vec![
            rule("dup", Condition::WorkflowWriteAll),
            rule("dup", Condition::WorkflowWriteAll),
        ],
    };
    let err = rules.validate().unwrap_err();
    assert!(matches!(err, RuleError::DuplicateId(ref id) if id == "dup"));
    assert_eq!(err.message(), "duplicate rule id 'dup' in rules file");
}

#[test]
fn load_rejects_invalid_regex() {
    let rules = RuleSet {
        rules: vec![rule("bad-regex", Condition::UsesMatches("(unclosed".to_string()))],
    };
    let err = rules.validate().unwrap_err();
    assert!(matches!(
        err,
        RuleError::InvalidRegex { ref rule_id, ref pattern }
            if rule_id == "bad-regex" && pattern == "(unclosed"
    ));
    assert_eq!(err.message(), "rule 'bad-regex': invalid regex '(unclosed'");
}

#[test]
fn validate_accepts_distinct_ids_and_valid_patterns() {
    let rules = RuleSet {
        rules: vec![
            rule("a", Condition::UsesMatches("^docker://".to_string())),
            rule(
                "b",
                Condition::Not(Box::new(Condition::Any(vec![
                    Condition::UsesMatches("@main$".to_string()),
                    Condition::JobWriteAll,
                ]))),
            ),
        ],
    };
    assert!(rules.validate().is_ok());
    assert!(RuleSet { rules: vec![] }.validate().is_ok());
}

#[test]
fn validate_finds_invalid_regex_nested_in_all_and_not() {
    let rules = RuleSet {
        rules: vec![rule(
            "nested",
            Condition::All(vec![
                Condition::UsesMatches("ok".to_string()),
                Condition::Not(Box::new(Condition::UsesMatches("[".to_string()))),
            ]),
        )],
    };
    let err = rules.validate().unwrap_err();
    assert_eq!(err.message(), "rule 'nested': invalid regex '['");
}

#[test]
fn validate_reports_the_first_fault_in_file_order() {
    let rules = RuleSet {
        rules: vec![
            rule("x", Condition::UsesMatches("(".to_string())),
            rule("x", Condition::WorkflowWriteAll),
        ],
    };
    assert!(matches!(
        rules.validate().unwrap_err(),
        RuleError::InvalidRegex { ref rule_id, .. } if rule_id == "x"
    ));
}

// ---- granularity and evaluation ----

#[test]
fn workflow_level_condition_ignores_jobs_and_steps() {
    let cond = Condition::TriggerEquals("pull_request_target".to_string());
    assert!(!cond.touches_step());
    assert!(!cond.touches_job());
    let wf = workflow(vec!["pull_request_target"], false);
    let ctx = MatchContext { workflow: &wf, job: None, step: None };
    assert!(cond.eval(&ctx));
}

#[test]
fn job_level_condition_matches_self_hosted_runner() {
    let cond = Condition::RunsOnContains("self-hosted".to_string());
    assert!(cond.touches_job());
    assert!(!cond.touches_step());
    let wf = workflow(vec!["push"], false);
    let j = job("build", "self-hosted", vec![]);
    let ctx = MatchContext { workflow: &wf, job: Some(&j), step: None };
    assert!(cond.eval(&ctx));
}

#[test]
fn step_level_condition_matches_uses_regex() {
    let cond = Condition::UsesMatches(r"^docker://".to_string());
    assert!(cond.touches_step());
    let wf = workflow(vec!["push"], false);
    let s = step(Some("docker://alpine:3.19"), None);
    let ctx = MatchContext { workflow: &wf, job: None, step: Some(&s) };
    assert!(cond.eval(&ctx));
    let s2 = step(Some("actions/checkout@v4"), None);
    let ctx2 = MatchContext { workflow: &wf, job: None, step: Some(&s2) };
    assert!(!cond.eval(&ctx2));
}

#[test]
fn all_requires_every_leaf_to_match() {
    let cond = Condition::All(vec![
        Condition::TriggerEquals("push".to_string()),
        Condition::WorkflowWriteAll,
    ]);
    let wf_matches = workflow(vec!["push"], true);
    let wf_no_match = workflow(vec!["push"], false);
    let ctx1 = MatchContext { workflow: &wf_matches, job: None, step: None };
    let ctx2 = MatchContext { workflow: &wf_no_match, job: None, step: None };
    assert!(cond.eval(&ctx1));
    assert!(!cond.eval(&ctx2));
}

#[test]
fn not_inverts_the_inner_condition() {
    let cond = Condition::Not(Box::new(Condition::TriggerEquals("push".to_string())));
    let wf = workflow(vec!["pull_request"], false);
    let ctx = MatchContext { workflow: &wf, job: None, step: None };
    assert!(cond.eval(&ctx));
}

#[test]
fn not_of_matching_condition_does_not_hold() {
    let inner = Condition::TriggerEquals("push".to_string());
    let wf = workflow(vec!["push"], false);
    let ctx = MatchContext { workflow: &wf, job: None, step: None };
    assert!(inner.eval(&ctx));
    assert!(!Condition::Not(Box::new(inner)).eval(&ctx));
}

#[test]
fn any_needs_one_leaf_and_empty_lists_decide_trivially() {
    let wf = workflow(vec!["push"], false);
    let ctx = MatchContext { workflow: &wf, job: None, step: None };
    let any = Condition::Any(vec![
        Condition::WorkflowWriteAll,
        Condition::TriggerEquals("push".to_string()),
    ]);
    assert!(any.eval(&ctx));
    assert!(!Condition::Any(vec![]).eval(&ctx));
    assert!(Condition::All(vec![]).eval(&ctx));
}

#[test]
fn granularity_follows_the_leaves_used() {
    let mixed = Condition::All(vec![
        Condition::RunsOnContains("self-hosted".to_string()),
        Condition::Not(Box::new(Condition::RunContains("make".to_string()))),
    ]);
    assert!(mixed.touches_step());
    assert!(mixed.touches_job());
    let job_only = Condition::Any(vec![Condition::JobWriteAll, Condition::WorkflowWriteAll]);
    assert!(!job_only.touches_step());
    assert!(job_only.touches_job());
}

#[test]
fn runs_on_contains_ignores_case_and_run_and_env_leaves() {
    let wf = workflow(vec!["push"], false);
    let j = job("build", "Self-Hosted-Linux", vec![]);
    let ctx = MatchContext { workflow: &wf, job: Some(&j), step: None };
    assert!(Condition::RunsOnContains("SELF-hosted".to_string()).eval(&ctx));

    let mut st = step(None, Some("make deploy"));
    st.env = vec![("AWS_SECRET".to_string(), "x".to_string())];
    let ctx2 = MatchContext { workflow: &wf, job: Some(&j), step: Some(&st) };
    assert!(Condition::RunContains("deploy".to_string()).eval(&ctx2));
    assert!(!Condition::RunContains("test".to_string()).eval(&ctx2));
    assert!(Condition::EnvKeyContains("SECRET".to_string()).eval(&ctx2));
    assert!(!Condition::EnvKeyContains("TOKEN".to_string()).eval(&ctx2));
    // step-level leaves never hold without a step
    assert!(!Condition::RunContains("deploy".to_string()).eval(&ctx));
}

#[test]
fn invalid_pattern_never_matches() {
    let wf = workflow(vec!["push"], false);
    let s = step(Some("(anything"), None);
    let ctx = MatchContext { workflow: &wf, job: None, step: Some(&s) };
    assert!(!Condition::UsesMatches("(".to_string()).eval(&ctx));
}

// ---- reading conditions from YAML ----

#[test]
fn reads_bare_names_and_string_leaves() {
    assert!(matches!(condition_from_value(&s("job_write_all")), Ok(Condition::JobWriteAll)));
    assert!(matches!(
        condition_from_value(&s("workflow_write_all")),
        Ok(Condition::WorkflowWriteAll)
    ));
    match condition_from_value(&map1(s("uses_matches"), s("^docker://"))) {
        Ok(Condition::UsesMatches(p)) => assert_eq!(p, "^docker://"),
        other => panic!("unexpected {:?}", other),
    }
    match condition_from_value(&map1(s("trigger_equals"), s("push"))) {
        Ok(Condition::TriggerEquals(t)) => assert_eq!(t, "push"),
        other => panic!("unexpected {:?}", other),
    }
    match condition_from_value(&map1(s("env_key_contains"), s("TOKEN"))) {
        Ok(Condition::EnvKeyContains(t)) => assert_eq!(t, "TOKEN"),
        other => panic!("unexpected {:?}", other),
    }
}

#[test]
fn reads_nested_all_any_not() {
    let value = map1(
        s("all"),
        YamlValue::Sequence(vec![
            map1(s("runs_on_contains"), s("self-hosted")),
            map1(s("not"), s("job_write_all")),
            map1(
                s("any"),
                YamlValue::Tagged("!list".to_string(), Box::new(YamlValue::Sequence(vec![
                    map1(s("run_contains"), s("curl")),
                ]))),
            ),
        ]),
    );
    match condition_from_value(&value) {
        Ok(Condition::All(cs)) => {
            assert_eq!(cs.len(), 3);
            assert!(matches!(&cs[0], Condition::RunsOnContains(x) if x == "self-hosted"));
            assert!(matches!(&cs[1], Condition::Not(inner) if matches!(**inner, Condition::JobWriteAll)));
            assert!(matches!(&cs[2], Condition::Any(v) if v.len() == 1
                && matches!(&v[0], Condition::RunContains(x) if x == "curl")));
        }
        other => panic!("unexpected {:?}", other),
    }
}

#[test]
fn rejects_unknown_names_and_malformed_maps() {
    assert_eq!(
        condition_from_value(&s("sometimes")).unwrap_err(),
        "unknown condition 'sometimes'"
    );
    assert_eq!(
        condition_from_value(&map1(s("uses_equals"), s("x"))).unwrap_err(),
        "unknown condition 'uses_equals'"
    );
    let two_keys = YamlValue::Mapping(vec![
        YamlEntry { key: s("run_contains"), value: s("a") },
        YamlEntry { key: s("uses_matches"), value: s("b") },
    ]);
    assert_eq!(
        condition_from_value(&two_keys).unwrap_err(),
        "a condition map must have exactly one key"
    );
    assert_eq!(
        condition_from_value(&YamlValue::Mapping(vec![])).unwrap_err(),
        "a condition map must have exactly one key"
    );
    assert_eq!(
        condition_from_value(&map1(YamlValue::Bool(true), s("x"))).unwrap_err(),
        "condition key must be a string"
    );
}

#[test]
fn rejects_values_of_the_wrong_shape() {
    assert_eq!(
        condition_from_value(&map1(s("run_contains"), YamlValue::Number("3".to_string())))
            .unwrap_err(),
        "expected a string condition value"
    );
    assert_eq!(
        condition_from_value(&map1(s("all"), s("job_write_all"))).unwrap_err(),
        "expected a list of conditions"
    );
    assert_eq!(
        condition_from_value(&map1(
            s("any"),
            YamlValue::Sequence(vec![s("job_write_all"), s("oops"), s("also bad")]),
        ))
        .unwrap_err(),
        "unknown condition 'oops'"
    );
    assert_eq!(
        condition_from_value(&map1(s("not"), YamlValue::Null)).unwrap_err(),
        "a condition must be a string or a single-key map, got Null"
    );
    assert_eq!(
        condition_from_value(&YamlValue::Number("5".to_string())).unwrap_err(),
        "a condition must be a string or a single-key map, got Number(5)"
    );
    assert_eq!(
        condition_from_value(&YamlValue::Bool(true)).unwrap_err(),
        "a condition must be a string or a single-key map, got Bool(true)"
    );
    assert_eq!(
        condition_from_value(&YamlValue::Sequence(vec![])).unwrap_err(),
        "a condition must be a string or a single-key map, got Sequence []"
    );
}

#[test]
fn lists_and_tagged_values_are_shown_in_their_debug_form() {
    let seq = YamlValue::Sequence(vec![
        s("a \"q\""),
        YamlValue::Number("1".to_string()),
        YamlValue::Null,
        YamlValue::Mapping(vec![
            YamlEntry { key: s("k"), value: YamlValue::Bool(false) },
            YamlEntry { key: YamlValue::Number("2".to_string()), value: s("v") },
        ]),
    ]);
    let original: serde_yaml::Value =
        serde_yaml::from_str("[\"a \\\"q\\\"\", 1, null, {k: false, 2: v}]").unwrap();
    assert_eq!(
        condition_from_value(&seq).unwrap_err(),
        format!("a condition must be a string or a single-key map, got {:?}", original)
    );

    let tagged = YamlValue::Tagged(
        "!custom".to_string(),
        Box::new(YamlValue::Sequence(vec![s("x")])),
    );
    let original: serde_yaml::Value = serde_yaml::from_str("!custom [x]").unwrap();
    assert_eq!(
        condition_from_value(&tagged).unwrap_err(),
        format!("a condition must be a string or a single-key map, got {:?}", original)
    );
    assert_eq!(
        condition_from_value(&tagged).unwrap_err(),
        "a condition must be a string or a single-key map, got TaggedValue { tag: !custom, value: Sequence [String(\"x\")] }"
    );
}
