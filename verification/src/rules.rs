//! Custom policy rules: organisation-specific checks read from a rules
//! file and evaluated against a parsed workflow beside the built-in
//! analyzers.
//!
//! A rule matches at exactly one granularity (step, job or workflow),
//! inferred from the condition leaves it uses, so a job-level rule reports
//! once per job rather than once per step of that job.

use vstd::prelude::*;
use crate::models::{Job, Severity, Step, WorkflowFile};
use crate::text::{contains_seq, debug_quoted, debug_str, lowercase, str_contains, str_eq, to_lowercase};
use crate::yaml::{as_str, yaml_str, YamlEntry, YamlValue};

verus! {

/// A condition of a custom rule.
#[derive(Debug)]
pub enum Condition {
    /// The step's `uses:` matches this regular expression.
    UsesMatches(String),
    /// The step's `run:` script contains this text.
    RunContains(String),
    /// Some `env:` key of the step contains this text.
    EnvKeyContains(String),
    /// The job's `runs-on:` contains this text, ignoring case.
    RunsOnContains(String),
    /// The job grants itself `write-all`.
    JobWriteAll,
    /// The workflow grants `write-all` at the top level.
    WorkflowWriteAll,
    /// The workflow has this trigger.
    TriggerEquals(String),
    All(Vec<Condition>),
    Any(Vec<Condition>),
    Not(Box<Condition>),
}

/// One custom rule: what to report, and when.
#[derive(Debug)]
pub struct Rule {
    pub id: String,
    pub title: String,
    pub severity: Severity,
    pub description: String,
    pub remediation: String,
    pub cwe: Option<String>,
    pub condition: Condition,
}

/// The rules of a rules file, in file order.
#[derive(Debug)]
pub struct RuleSet {
    pub rules: Vec<Rule>,
}

/// What a condition is evaluated against: the workflow, and the job and
/// step in question where the rule works at that granularity.
pub struct MatchContext<'a> {
    pub workflow: &'a WorkflowFile,
    pub job: Option<&'a Job>,
    pub step: Option<&'a Step>,
}

/// What `regex::Regex::new` decides of a pattern: whether it compiles.
pub uninterp spec fn regex_compiles(pattern: Seq<char>) -> bool;

/// What `regex::Regex::is_match` answers for the compiled `pattern` and a text.
pub uninterp spec fn regex_finds(pattern: Seq<char>, haystack: Seq<char>) -> bool;

/// Calls `regex::Regex::new` and reports whether the pattern compiled.
/// The claim is only that the answer depends on the pattern alone.
#[verifier::external_body]
fn regex_is_valid(pattern: &str) -> (res: bool)
    ensures
        res == regex_compiles(pattern@),
{
    regex::Regex::new(pattern).is_ok()
}

/// Compiles `pattern` with `regex::Regex::new` and asks `Regex::is_match`
/// about `haystack`; a pattern that does not compile matches nothing. The
/// claim is only that each answer depends on the pattern and the text.
#[verifier::external_body]
fn regex_matches(pattern: &str, haystack: &str) -> (res: bool)
    ensures
        res == (regex_compiles(pattern@) && regex_finds(pattern@, haystack@)),
{
    regex::Regex::new(pattern).map(|re| re.is_match(haystack)).unwrap_or(false)
}

/// Whether a condition holds in a context.
pub open spec fn holds(c: Condition, ctx: MatchContext) -> bool
    decreases c,
{
    match c {
        Condition::UsesMatches(pattern) => match ctx.step {
            Some(s) => match s.uses {
                Some(u) => regex_compiles(pattern@) && regex_finds(pattern@, u@),
                None => false,
            },
            None => false,
        },
        Condition::RunContains(needle) => match ctx.step {
            Some(s) => match s.run {
                Some(r) => contains_seq(r@, needle@),
                None => false,
            },
            None => false,
        },
        Condition::EnvKeyContains(needle) => match ctx.step {
            Some(s) => exists|i: int|
                0 <= i < s.env@.len() && contains_seq(#[trigger] s.env@[i].0@, needle@),
            None => false,
        },
        Condition::RunsOnContains(needle) => match ctx.job {
            Some(j) => contains_seq(lowercase(j.runs_on@), lowercase(needle@)),
            None => false,
        },
        Condition::JobWriteAll => match ctx.job {
            Some(j) => match j.permissions {
                Some(p) => p.write_all,
                None => false,
            },
            None => false,
        },
        Condition::WorkflowWriteAll => match ctx.workflow.global_permissions {
            Some(p) => p.write_all,
            None => false,
        },
        Condition::TriggerEquals(t) => exists|i: int|
            0 <= i < ctx.workflow.triggers@.len() && #[trigger] ctx.workflow.triggers@[i]@ == t@,
        Condition::All(cs) => forall|i: int| 0 <= i < cs@.len() ==> holds(#[trigger] cs@[i], ctx),
        Condition::Any(cs) => exists|i: int| 0 <= i < cs@.len() && holds(#[trigger] cs@[i], ctx),
        Condition::Not(inner) => !holds(*inner, ctx),
    }
}

/// Whether a condition uses a step-level leaf (`uses_matches`,
/// `run_contains`, `env_key_contains`).
pub open spec fn uses_step_leaf(c: Condition) -> bool
    decreases c,
{
    match c {
        Condition::UsesMatches(_) | Condition::RunContains(_) | Condition::EnvKeyContains(_) => true,
        Condition::All(cs) => exists|i: int| 0 <= i < cs@.len() && uses_step_leaf(#[trigger] cs@[i]),
        Condition::Any(cs) => exists|i: int| 0 <= i < cs@.len() && uses_step_leaf(#[trigger] cs@[i]),
        Condition::Not(inner) => uses_step_leaf(*inner),
        _ => false,
    }
}

/// Whether a condition uses a job-level leaf (`runs_on_contains`, `job_write_all`).
pub open spec fn uses_job_leaf(c: Condition) -> bool
    decreases c,
{
    match c {
        Condition::RunsOnContains(_) | Condition::JobWriteAll => true,
        Condition::All(cs) => exists|i: int| 0 <= i < cs@.len() && uses_job_leaf(#[trigger] cs@[i]),
        Condition::Any(cs) => exists|i: int| 0 <= i < cs@.len() && uses_job_leaf(#[trigger] cs@[i]),
        Condition::Not(inner) => uses_job_leaf(*inner),
        _ => false,
    }
}

/// Whether `key` names a condition leaf that takes a string.
pub open spec fn is_string_key(key: Seq<char>) -> bool {
    ||| key == "uses_matches"@
    ||| key == "run_contains"@
    ||| key == "env_key_contains"@
    ||| key == "runs_on_contains"@
    ||| key == "trigger_equals"@
}

/// Whether `c` is the leaf that `key` names, carrying the string `s`.
pub open spec fn string_leaf(key: Seq<char>, s: Seq<char>, c: Condition) -> bool {
    if key == "uses_matches"@ {
        c matches Condition::UsesMatches(p) && p@ == s
    } else if key == "run_contains"@ {
        c matches Condition::RunContains(p) && p@ == s
    } else if key == "env_key_contains"@ {
        c matches Condition::EnvKeyContains(p) && p@ == s
    } else if key == "runs_on_contains"@ {
        c matches Condition::RunsOnContains(p) && p@ == s
    } else {
        c matches Condition::TriggerEquals(p) && p@ == s
    }
}

/// Whether a YAML value is a well-formed condition: one of the bare names
/// `job_write_all`, `workflow_write_all`, or a map with exactly one key
/// naming a condition, whose value has the shape that condition takes.
pub open spec fn parse_ok(v: YamlValue) -> bool
    decreases v,
{
    match v {
        YamlValue::Str(s) => s@ == "job_write_all"@ || s@ == "workflow_write_all"@,
        YamlValue::Mapping(entries) => entries@.len() == 1 && match yaml_str(entries@[0].key) {
            Some(k) => if is_string_key(k) {
                yaml_str(entries@[0].value) is Some
            } else if k == "all"@ || k == "any"@ {
                list_ok(entries@[0].value)
            } else if k == "not"@ {
                parse_ok(entries@[0].value)
            } else {
                false
            },
            None => false,
        },
        _ => false,
    }
}

/// Whether a YAML value is a (possibly tagged) list of well-formed conditions.
pub open spec fn list_ok(v: YamlValue) -> bool
    decreases v,
{
    match v {
        YamlValue::Tagged(_, inner) => list_ok(*inner),
        YamlValue::Sequence(items) => forall|i: int|
            0 <= i < items@.len() ==> parse_ok(#[trigger] items@[i]),
        _ => false,
    }
}

/// Whether `c` is the condition that the YAML value `v` describes.
pub open spec fn parses_to(v: YamlValue, c: Condition) -> bool
    decreases v,
{
    match v {
        YamlValue::Str(s) => {
            ||| s@ == "job_write_all"@ && c is JobWriteAll
            ||| s@ == "workflow_write_all"@ && c is WorkflowWriteAll
        },
        YamlValue::Mapping(entries) => entries@.len() == 1 && match yaml_str(entries@[0].key) {
            Some(k) => if is_string_key(k) {
                match yaml_str(entries@[0].value) {
                    Some(s) => string_leaf(k, s, c),
                    None => false,
                }
            } else if k == "all"@ {
                c matches Condition::All(cs) && list_parses_to(entries@[0].value, cs@)
            } else if k == "any"@ {
                c matches Condition::Any(cs) && list_parses_to(entries@[0].value, cs@)
            } else if k == "not"@ {
                c matches Condition::Not(inner) && parses_to(entries@[0].value, *inner)
            } else {
                false
            },
            None => false,
        },
        _ => false,
    }
}

/// Whether `cs` are, item by item, the conditions of the (possibly tagged)
/// YAML list `v`.
pub open spec fn list_parses_to(v: YamlValue, cs: Seq<Condition>) -> bool
    decreases v,
{
    match v {
        YamlValue::Tagged(_, inner) => list_parses_to(*inner, cs),
        YamlValue::Sequence(items) => items@.len() == cs.len() && forall|i: int|
            0 <= i < items@.len() ==> parses_to(#[trigger] items@[i], cs[i]),
        _ => false,
    }
}

/// The index of the first item that is not a well-formed condition.
pub open spec fn first_failing(items: Seq<YamlValue>) -> int {
    choose|i: int|
        0 <= i < items.len() && !parse_ok(#[trigger] items[i]) && forall|j: int|
            0 <= j < i ==> parse_ok(#[trigger] items[j])
}

/// `true` or `false`.
pub open spec fn bool_text(b: bool) -> Seq<char> {
    if b {
        "true"@
    } else {
        "false"@
    }
}

/// How a mapping key that is a boolean, a number or a string is shown in
/// the debug form of its mapping: bare, without its kind.
pub open spec fn bare_key_text(k: YamlValue) -> Option<Seq<char>> {
    match k {
        YamlValue::Bool(b) => Some(bool_text(b)),
        YamlValue::Number(n) => Some(n@),
        YamlValue::Str(s) => Some(debug_quoted(s@)),
        _ => None,
    }
}

/// The debug form of a YAML value (`{:?}` of `serde_yaml::Value`):
/// `Null`, `Bool(true)`, `Number(5)`, `String("x")`, `Sequence [..]`,
/// `Mapping {k: v, ..}`, `TaggedValue { tag: !t, value: .. }`.
pub open spec fn value_debug(v: YamlValue) -> Seq<char>
    decreases v,
{
    match v {
        YamlValue::Null => "Null"@,
        YamlValue::Bool(b) => "Bool("@ + bool_text(b) + ")"@,
        YamlValue::Number(n) => "Number("@ + n@ + ")"@,
        YamlValue::Str(s) => "String("@ + debug_quoted(s@) + ")"@,
        YamlValue::Sequence(items) => "Sequence ["@ + items_debug(items@) + "]"@,
        YamlValue::Mapping(entries) => "Mapping {"@ + entries_debug(entries@) + "}"@,
        YamlValue::Tagged(t, inner) => "TaggedValue { tag: "@ + t@ + ", value: "@ + value_debug(
            *inner,
        ) + " }"@,
    }
}

/// The debug forms of list items, separated by `, `.
pub open spec fn items_debug(items: Seq<YamlValue>) -> Seq<char>
    decreases items,
{
    if items.len() == 0 {
        Seq::empty()
    } else if items.len() == 1 {
        value_debug(items[0])
    } else {
        items_debug(items.subrange(0, items.len() - 1)) + ", "@ + value_debug(
            items[items.len() - 1],
        )
    }
}

/// The debug forms of mapping entries (`key: value`), separated by `, `.
pub open spec fn entries_debug(entries: Seq<YamlEntry>) -> Seq<char>
    decreases entries,
{
    if entries.len() == 0 {
        Seq::empty()
    } else {
        let last = entries[entries.len() - 1];
        let key = match bare_key_text(last.key) {
            Some(t) => t,
            None => value_debug(last.key),
        };
        let entry = key + ": "@ + value_debug(last.value);
        if entries.len() == 1 {
            entry
        } else {
            entries_debug(entries.subrange(0, entries.len() - 1)) + ", "@ + entry
        }
    }
}

/// The message for a YAML value that is not a well-formed condition: the
/// first fault met, reading the value from the outside in.
pub open spec fn parse_error(v: YamlValue) -> Seq<char>
    decreases v,
{
    match v {
        YamlValue::Str(s) => "unknown condition '"@ + s@ + "'"@,
        YamlValue::Mapping(entries) => if entries@.len() != 1 {
            "a condition map must have exactly one key"@
        } else {
            match yaml_str(entries@[0].key) {
                None => "condition key must be a string"@,
                Some(k) => if is_string_key(k) {
                    "expected a string condition value"@
                } else if k == "all"@ || k == "any"@ {
                    list_error(entries@[0].value)
                } else if k == "not"@ {
                    parse_error(entries@[0].value)
                } else {
                    "unknown condition '"@ + k + "'"@
                },
            }
        },
        _ => "a condition must be a string or a single-key map, got "@ + value_debug(v),
    }
}

/// The message for a YAML value that is not a list of well-formed
/// conditions: that of its first bad item, if it is a list.
pub open spec fn list_error(v: YamlValue) -> Seq<char>
    decreases v,
{
    match v {
        YamlValue::Tagged(_, inner) => list_error(*inner),
        YamlValue::Sequence(items) => {
            let i = first_failing(items@);
            if 0 <= i < items@.len() {
                parse_error(items@[i])
            } else {
                Seq::empty()
            }
        },
        _ => "expected a list of conditions"@,
    }
}

/// The debug form of a YAML value.
fn value_debug_text(v: &YamlValue) -> (res: String)
    ensures
        res@ == value_debug(*v),
    decreases v,
{
    match v {
        YamlValue::Null => String::from_str("Null"),
        YamlValue::Bool(b) => enclose("Bool(", bool_str(*b), ")"),
        YamlValue::Number(n) => enclose("Number(", n.as_str(), ")"),
        YamlValue::Str(s) => enclose("String(", debug_str(s.as_str()).as_str(), ")"),
        YamlValue::Sequence(items) => {
            let mut out = String::from_str("Sequence [");
            let mut i: usize = 0;
            assert(forall|j: int| 0 <= j < items@.len() ==> decreases_to!(*v => #[trigger] items@[j]));
            assert(items@.subrange(0, 0) =~= Seq::<YamlValue>::empty());
            while i < items.len()
                invariant
                    *v == YamlValue::Sequence(*items),
                    forall|j: int| 0 <= j < items@.len() ==> decreases_to!(*v => #[trigger] items@[j]),
                    i <= items@.len(),
                    out@ == "Sequence ["@ + items_debug(items@.subrange(0, i as int)),
                decreases items@.len() - i,
            {
                let ghost sub = items@.subrange(0, i + 1);
                assert(sub.subrange(0, i as int) =~= items@.subrange(0, i as int));
                assert(sub[i as int] == items@[i as int]);
                if i > 0 {
                    out.append(", ");
                }
                let d = value_debug_text(&items[i]);
                out.append(d.as_str());
                assert(out@ =~= "Sequence ["@ + items_debug(sub));
                i += 1;
            }
            assert(items@.subrange(0, items@.len() as int) =~= items@);
            out.append("]");
            out
        },
        YamlValue::Mapping(entries) => {
            let mut out = String::from_str("Mapping {");
            let mut i: usize = 0;
            assert(forall|j: int|
                0 <= j < entries@.len() ==> decreases_to!(*v => (#[trigger] entries@[j]).key)
                    && decreases_to!(*v => entries@[j].value));
            assert(entries@.subrange(0, 0) =~= Seq::<YamlEntry>::empty());
            while i < entries.len()
                invariant
                    *v == YamlValue::Mapping(*entries),
                    forall|j: int|
                        0 <= j < entries@.len() ==> decreases_to!(*v => (#[trigger] entries@[j]).key)
                            && decreases_to!(*v => entries@[j].value),
                    i <= entries@.len(),
                    out@ == "Mapping {"@ + entries_debug(entries@.subrange(0, i as int)),
                decreases entries@.len() - i,
            {
                let ghost sub = entries@.subrange(0, i + 1);
                assert(sub.subrange(0, i as int) =~= entries@.subrange(0, i as int));
                assert(sub[i as int] == entries@[i as int]);
                if i > 0 {
                    out.append(", ");
                }
                let e = &entries[i];
                let key = match &e.key {
                    YamlValue::Bool(b) => String::from_str(bool_str(*b)),
                    YamlValue::Number(n) => n.clone(),
                    YamlValue::Str(s) => debug_str(s.as_str()),
                    other => value_debug_text(other),
                };
                out.append(key.as_str());
                out.append(": ");
                let d = value_debug_text(&e.value);
                out.append(d.as_str());
                assert(out@ =~= "Mapping {"@ + entries_debug(sub));
                i += 1;
            }
            assert(entries@.subrange(0, entries@.len() as int) =~= entries@);
            out.append("}");
            out
        },
        YamlValue::Tagged(t, inner) => {
            let mut out = enclose("TaggedValue { tag: ", t.as_str(), ", value: ");
            let d = value_debug_text(inner);
            out.append(d.as_str());
            out.append(" }");
            out
        },
    }
}

/// `true` or `false`.
fn bool_str(b: bool) -> (res: &'static str)
    ensures
        res@ == bool_text(b),
{
    if b {
        "true"
    } else {
        "false"
    }
}

/// `"{prefix}{middle}{suffix}"`.
fn enclose(prefix: &str, middle: &str, suffix: &str) -> (res: String)
    ensures
        res@ == prefix@ + middle@ + suffix@,
{
    let mut s = String::from_str(prefix);
    s.append(middle);
    s.append(suffix);
    s
}

/// The text of a condition value that must be a string.
fn value_as_string(value: &YamlValue) -> (res: Result<String, String>)
    ensures
        match res {
            Ok(s) => yaml_str(*value) == Some(s@),
            Err(m) => yaml_str(*value) is None && m@ == "expected a string condition value"@,
        },
{
    match as_str(value) {
        Some(s) => Ok(s.clone()),
        None => Err(String::from_str("expected a string condition value")),
    }
}

/// The conditions of a value that must be a list of conditions.
fn value_as_condition_list(value: &YamlValue) -> (res: Result<Vec<Condition>, String>)
    ensures
        res is Ok <==> list_ok(*value),
        res matches Ok(cs) ==> list_parses_to(*value, cs@),
        res matches Err(m) ==> m@ == list_error(*value),
    decreases value,
{
    match value {
        YamlValue::Tagged(_, inner) => value_as_condition_list(inner),
        YamlValue::Sequence(items) => {
            let mut out: Vec<Condition> = Vec::new();
            let mut i: usize = 0;
            assert(forall|j: int| 0 <= j < items@.len() ==> decreases_to!(*value => #[trigger] items@[j]));
            while i < items.len()
                invariant
                    *value == YamlValue::Sequence(*items),
                    forall|j: int| 0 <= j < items@.len() ==> decreases_to!(*value => #[trigger] items@[j]),
                    i <= items@.len(),
                    out@.len() == i,
                    forall|j: int| 0 <= j < i ==> parse_ok(#[trigger] items@[j]),
                    forall|j: int| 0 <= j < i ==> parses_to(#[trigger] items@[j], out@[j]),
                decreases items@.len() - i,
            {
                match condition_from_value(&items[i]) {
                    Ok(c) => {
                        out.push(c);
                    },
                    Err(m) => {
                        proof {
                            let k = first_failing(items@);
                            assert(!parse_ok(items@[i as int]));
                            assert(0 <= k < items@.len() && !parse_ok(items@[k]) && forall|j: int|
                                0 <= j < k ==> parse_ok(#[trigger] items@[j]));
                            if k < i {
                                assert(parse_ok(items@[k]));
                            } else if k > i {
                                assert(parse_ok(items@[i as int]));
                            }
                            assert(k == i);
                            assert(m@ == list_error(*value));
                            assert(!list_ok(*value));
                        }
                        return Err(m);
                    },
                }
                i += 1;
            }
            Ok(out)
        },
        _ => Err(String::from_str("expected a list of conditions")),
    }
}

/// Reads one condition of a rules file from its YAML value: a bare name
/// (`job_write_all`, `workflow_write_all`) or a single-key map such as
/// `{uses_matches: "^docker://"}`, `{all: [...]}` or `{not: ...}`.
pub fn condition_from_value(value: &YamlValue) -> (res: Result<Condition, String>)
    ensures
        res is Ok <==> parse_ok(*value),
        res matches Ok(c) ==> parses_to(*value, c),
        res matches Err(m) ==> m@ == parse_error(*value),
    decreases value,
{
    match value {
        YamlValue::Str(s) => {
            if str_eq(s.as_str(), "job_write_all") {
                Ok(Condition::JobWriteAll)
            } else if str_eq(s.as_str(), "workflow_write_all") {
                Ok(Condition::WorkflowWriteAll)
            } else {
                Err(enclose("unknown condition '", s.as_str(), "'"))
            }
        },
        YamlValue::Mapping(entries) => {
            if entries.len() != 1 {
                return Err(String::from_str("a condition map must have exactly one key"));
            }
            let entry = &entries[0];
            let key = match as_str(&entry.key) {
                Some(k) => k.as_str(),
                None => {
                    return Err(String::from_str("condition key must be a string"));
                },
            };
            let val = &entry.value;
            assert(decreases_to!(*value => *val));
            if str_eq(key, "uses_matches") {
                match value_as_string(val) {
                    Ok(s) => Ok(Condition::UsesMatches(s)),
                    Err(m) => Err(m),
                }
            } else if str_eq(key, "run_contains") {
                match value_as_string(val) {
                    Ok(s) => Ok(Condition::RunContains(s)),
                    Err(m) => Err(m),
                }
            } else if str_eq(key, "env_key_contains") {
                match value_as_string(val) {
                    Ok(s) => Ok(Condition::EnvKeyContains(s)),
                    Err(m) => Err(m),
                }
            } else if str_eq(key, "runs_on_contains") {
                match value_as_string(val) {
                    Ok(s) => Ok(Condition::RunsOnContains(s)),
                    Err(m) => Err(m),
                }
            } else if str_eq(key, "trigger_equals") {
                match value_as_string(val) {
                    Ok(s) => Ok(Condition::TriggerEquals(s)),
                    Err(m) => Err(m),
                }
            } else if str_eq(key, "all") {
                match value_as_condition_list(val) {
                    Ok(cs) => Ok(Condition::All(cs)),
                    Err(m) => Err(m),
                }
            } else if str_eq(key, "any") {
                match value_as_condition_list(val) {
                    Ok(cs) => Ok(Condition::Any(cs)),
                    Err(m) => Err(m),
                }
            } else if str_eq(key, "not") {
                match condition_from_value(val) {
                    Ok(c) => Ok(Condition::Not(Box::new(c))),
                    Err(m) => Err(m),
                }
            } else {
                Err(enclose("unknown condition '", key, "'"))
            }
        },
        _ => {
            proof {
                reveal_strlit("");
            }
            Err(enclose(
            "a condition must be a string or a single-key map, got ",
            value_debug_text(value).as_str(),
            "",
        ))
        },
    }
}

/// The `uses_matches` patterns of a condition, left to right.
pub open spec fn condition_patterns(c: Condition) -> Seq<Seq<char>>
    decreases c,
{
    match c {
        Condition::UsesMatches(p) => seq![p@],
        Condition::All(cs) => list_patterns(cs@),
        Condition::Any(cs) => list_patterns(cs@),
        Condition::Not(inner) => condition_patterns(*inner),
        _ => Seq::empty(),
    }
}

/// The `uses_matches` patterns of a list of conditions, left to right.
pub open spec fn list_patterns(cs: Seq<Condition>) -> Seq<Seq<char>>
    decreases cs,
{
    if cs.len() == 0 {
        Seq::empty()
    } else {
        list_patterns(cs.subrange(0, cs.len() - 1)) + condition_patterns(cs[cs.len() - 1])
    }
}

/// Why a rules file is refused.
#[derive(Debug)]
pub enum RuleError {
    /// Two rules share this id.
    DuplicateId(String),
    /// A `uses_matches` pattern of this rule does not compile.
    InvalidRegex { rule_id: String, pattern: String },
}

/// The abstract value of a `RuleError`.
pub enum RuleErrorView {
    DuplicateId(Seq<char>),
    InvalidRegex(Seq<char>, Seq<char>),
}

impl View for RuleError {
    type V = RuleErrorView;

    open spec fn view(&self) -> RuleErrorView {
        match self {
            RuleError::DuplicateId(id) => RuleErrorView::DuplicateId(id@),
            RuleError::InvalidRegex { rule_id, pattern } => RuleErrorView::InvalidRegex(
                rule_id@,
                pattern@,
            ),
        }
    }
}

/// The message under which a refusal is reported.
pub open spec fn rule_error_message(e: RuleErrorView) -> Seq<char> {
    match e {
        RuleErrorView::DuplicateId(id) => "duplicate rule id '"@ + id + "' in rules file"@,
        RuleErrorView::InvalidRegex(id, p) => "rule '"@ + id + "': invalid regex '"@ + p + "'"@,
    }
}

impl RuleError {
    /// The message under which this refusal is reported.
    pub fn message(&self) -> (res: String)
        ensures
            res@ == rule_error_message(self@),
    {
        match self {
            RuleError::DuplicateId(id) => enclose("duplicate rule id '", id.as_str(), "' in rules file"),
            RuleError::InvalidRegex { rule_id, pattern } => {
                let mut s = enclose("rule '", rule_id.as_str(), "': invalid regex '");
                s.append(pattern.as_str());
                s.append("'");
                s
            },
        }
    }
}

/// The first pattern of `ps` that does not compile.
pub open spec fn first_bad_pattern(ps: Seq<Seq<char>>) -> Option<Seq<char>>
    decreases ps.len(),
{
    if ps.len() == 0 {
        None
    } else if !regex_compiles(ps[0]) {
        Some(ps[0])
    } else {
        first_bad_pattern(ps.drop_first())
    }
}

/// The first fault of the rules from index `i` on, given that the rules
/// before `i` are fine: a rule whose id an earlier rule already has, or a
/// rule with a `uses_matches` pattern that does not compile.
pub open spec fn rules_fault_from(rules: Seq<Rule>, i: int) -> Option<RuleErrorView>
    decreases rules.len() - i,
{
    if i < 0 || i >= rules.len() {
        None
    } else if exists|j: int| 0 <= j < i && #[trigger] rules[j].id@ == rules[i].id@ {
        Some(RuleErrorView::DuplicateId(rules[i].id@))
    } else {
        match first_bad_pattern(condition_patterns(rules[i].condition)) {
            Some(p) => Some(RuleErrorView::InvalidRegex(rules[i].id@, p)),
            None => rules_fault_from(rules, i + 1),
        }
    }
}

/// The first fault of a list of rules, in file order.
pub open spec fn rules_fault(rules: Seq<Rule>) -> Option<RuleErrorView> {
    rules_fault_from(rules, 0)
}

impl Condition {
    /// A rule using any step-level leaf is evaluated once per step.
    pub fn touches_step(&self) -> (res: bool)
        ensures
            res == uses_step_leaf(*self),
        decreases self,
    {
        match self {
            Condition::UsesMatches(_) | Condition::RunContains(_) | Condition::EnvKeyContains(_) => true,
            Condition::All(cs) | Condition::Any(cs) => {
                let mut i: usize = 0;
                assert(uses_step_leaf(*self) == (exists|j: int| 0 <= j < cs@.len() && uses_step_leaf(#[trigger] cs@[j])));
                assert(forall|j: int| 0 <= j < cs@.len() ==> decreases_to!(*self => #[trigger] cs@[j]));
                while i < cs.len()
                    invariant
                        uses_step_leaf(*self) == (exists|j: int| 0 <= j < cs@.len() && uses_step_leaf(#[trigger] cs@[j])),
                        forall|j: int| 0 <= j < cs@.len() ==> decreases_to!(*self => #[trigger] cs@[j]),
                        i <= cs@.len(),
                        forall|j: int| 0 <= j < i ==> !uses_step_leaf(#[trigger] cs@[j]),
                    decreases cs@.len() - i,
                {
                    if cs[i].touches_step() {
                        assert(uses_step_leaf(cs@[i as int]));
                        return true;
                    }
                    i += 1;
                }
                false
            },
            Condition::Not(c) => c.touches_step(),
            _ => false,
        }
    }

    /// A rule using any job-level leaf (and no step leaf) is evaluated once per job.
    pub fn touches_job(&self) -> (res: bool)
        ensures
            res == uses_job_leaf(*self),
        decreases self,
    {
        match self {
            Condition::RunsOnContains(_) | Condition::JobWriteAll => true,
            Condition::All(cs) | Condition::Any(cs) => {
                let mut i: usize = 0;
                assert(uses_job_leaf(*self) == (exists|j: int| 0 <= j < cs@.len() && uses_job_leaf(#[trigger] cs@[j])));
                assert(forall|j: int| 0 <= j < cs@.len() ==> decreases_to!(*self => #[trigger] cs@[j]));
                while i < cs.len()
                    invariant
                        uses_job_leaf(*self) == (exists|j: int| 0 <= j < cs@.len() && uses_job_leaf(#[trigger] cs@[j])),
                        forall|j: int| 0 <= j < cs@.len() ==> decreases_to!(*self => #[trigger] cs@[j]),
                        i <= cs@.len(),
                        forall|j: int| 0 <= j < i ==> !uses_job_leaf(#[trigger] cs@[j]),
                    decreases cs@.len() - i,
                {
                    if cs[i].touches_job() {
                        assert(uses_job_leaf(cs@[i as int]));
                        return true;
                    }
                    i += 1;
                }
                false
            },
            Condition::Not(c) => c.touches_job(),
            _ => false,
        }
    }

    /// The `uses_matches` patterns of this condition, left to right, so that
    /// they can be checked once when the rules are loaded.
    fn regex_patterns(&self) -> (res: Vec<String>)
        ensures
            res.deep_view() == condition_patterns(*self),
        decreases self,
    {
        match self {
            Condition::UsesMatches(p) => {
                let mut v: Vec<String> = Vec::new();
                v.push(p.clone());
                v
            },
            Condition::All(cs) | Condition::Any(cs) => {
                let mut out: Vec<String> = Vec::new();
                let mut i: usize = 0;
                assert(condition_patterns(*self) == list_patterns(cs@));
                assert(forall|j: int| 0 <= j < cs@.len() ==> decreases_to!(*self => #[trigger] cs@[j]));
                while i < cs.len()
                    invariant
                        condition_patterns(*self) == list_patterns(cs@),
                        forall|j: int| 0 <= j < cs@.len() ==> decreases_to!(*self => #[trigger] cs@[j]),
                        i <= cs@.len(),
                        out.deep_view() == list_patterns(cs@.subrange(0, i as int)),
                    decreases cs@.len() - i,
                {
                    let mut more = cs[i].regex_patterns();
                    let ghost before = out.deep_view();
                    assert(cs@.subrange(0, i + 1).subrange(0, i as int) =~= cs@.subrange(0, i as int));
                    out.append(&mut more);
                    assert(out.deep_view() =~= before + condition_patterns(cs@[i as int]));
                    i += 1;
                }
                assert(cs@.subrange(0, cs@.len() as int) =~= cs@);
                out
            },
            Condition::Not(c) => c.regex_patterns(),
            _ => Vec::new(),
        }
    }

    /// Whether this condition holds in `ctx`.
    pub fn eval(&self, ctx: &MatchContext) -> (res: bool)
        ensures
            res == holds(*self, *ctx),
        decreases self,
    {
        match self {
            Condition::UsesMatches(pattern) => match ctx.step {
                Some(s) => match &s.uses {
                    Some(uses) => regex_matches(pattern.as_str(), uses.as_str()),
                    None => false,
                },
                None => false,
            },
            Condition::RunContains(needle) => match ctx.step {
                Some(s) => match &s.run {
                    Some(run) => str_contains(run.as_str(), needle.as_str()),
                    None => false,
                },
                None => false,
            },
            Condition::EnvKeyContains(needle) => match ctx.step {
                Some(s) => {
                    let mut i: usize = 0;
                    while i < s.env.len()
                        invariant
                            ctx.step == Some(s),
                            *self == Condition::EnvKeyContains(*needle),
                            i <= s.env@.len(),
                            forall|j: int| 0 <= j < i ==> !contains_seq(#[trigger] s.env@[j].0@, needle@),
                        decreases s.env@.len() - i,
                    {
                        if str_contains(s.env[i].0.as_str(), needle.as_str()) {
                            assert(contains_seq(s.env@[i as int].0@, needle@));
                            return true;
                        }
                        i += 1;
                    }
                    false
                },
                None => false,
            },
            Condition::RunsOnContains(needle) => match ctx.job {
                Some(j) => {
                    let hay = to_lowercase(j.runs_on.as_str());
                    let n = to_lowercase(needle.as_str());
                    str_contains(hay.as_str(), n.as_str())
                },
                None => false,
            },
            Condition::JobWriteAll => match ctx.job {
                Some(j) => match &j.permissions {
                    Some(p) => p.write_all,
                    None => false,
                },
                None => false,
            },
            Condition::WorkflowWriteAll => match &ctx.workflow.global_permissions {
                Some(p) => p.write_all,
                None => false,
            },
            Condition::TriggerEquals(trigger) => {
                let triggers = &ctx.workflow.triggers;
                let mut i: usize = 0;
                while i < triggers.len()
                    invariant
                        *triggers == ctx.workflow.triggers,
                        *self == Condition::TriggerEquals(*trigger),
                        i <= triggers@.len(),
                        forall|j: int| 0 <= j < i ==> #[trigger] triggers@[j]@ != trigger@,
                    decreases triggers@.len() - i,
                {
                    if str_eq(triggers[i].as_str(), trigger.as_str()) {
                        return true;
                    }
                    i += 1;
                }
                false
            },
            Condition::All(cs) => {
                let mut i: usize = 0;
                assert(holds(*self, *ctx) == (forall|j: int| 0 <= j < cs@.len() ==> holds(#[trigger] cs@[j], *ctx)));
                assert(forall|j: int| 0 <= j < cs@.len() ==> decreases_to!(*self => #[trigger] cs@[j]));
                while i < cs.len()
                    invariant
                        holds(*self, *ctx) == (forall|j: int| 0 <= j < cs@.len() ==> holds(#[trigger] cs@[j], *ctx)),
                        forall|j: int| 0 <= j < cs@.len() ==> decreases_to!(*self => #[trigger] cs@[j]),
                        i <= cs@.len(),
                        forall|j: int| 0 <= j < i ==> holds(#[trigger] cs@[j], *ctx),
                    decreases cs@.len() - i,
                {
                    if !cs[i].eval(ctx) {
                        assert(!holds(cs@[i as int], *ctx));

                        return false;
                    }
                    i += 1;
                }
                true
            },
            Condition::Any(cs) => {
                let mut i: usize = 0;
                assert(holds(*self, *ctx) == (exists|j: int| 0 <= j < cs@.len() && holds(#[trigger] cs@[j], *ctx)));
                assert(forall|j: int| 0 <= j < cs@.len() ==> decreases_to!(*self => #[trigger] cs@[j]));
                while i < cs.len()
                    invariant
                        holds(*self, *ctx) == (exists|j: int| 0 <= j < cs@.len() && holds(#[trigger] cs@[j], *ctx)),
                        forall|j: int| 0 <= j < cs@.len() ==> decreases_to!(*self => #[trigger] cs@[j]),
                        i <= cs@.len(),
                        forall|j: int| 0 <= j < i ==> !holds(#[trigger] cs@[j], *ctx),
                    decreases cs@.len() - i,
                {
                    if cs[i].eval(ctx) {
                        assert(holds(cs@[i as int], *ctx));
                        return true;
                    }
                    i += 1;
                }
                false
            },
            Condition::Not(c) => !c.eval(ctx),
        }
    }
}

impl RuleSet {
    /// Checks a rule set once it is loaded: no two rules share an id, and
    /// every `uses_matches` pattern compiles. The first fault in file order
    /// is reported.
    pub fn validate(&self) -> (res: Result<(), RuleError>)
        ensures
            res is Ok <==> rules_fault(self.rules@) is None,
            res matches Err(e) ==> rules_fault(self.rules@) == Some(e@),
    {
        let rules = &self.rules;
        let mut i: usize = 0;
        while i < rules.len()
            invariant
                *rules == self.rules,
                i <= rules@.len(),
                rules_fault(rules@) == rules_fault_from(rules@, i as int),
            decreases rules@.len() - i,
        {
            let rule = &rules[i];
            let mut j: usize = 0;
            while j < i
                invariant
                    *rules == self.rules,
                    rules_fault(rules@) == rules_fault_from(rules@, i as int),
                    i < rules@.len(),
                    *rule == rules@[i as int],
                    j <= i,
                    forall|k: int| 0 <= k < j ==> #[trigger] rules@[k].id@ != rule.id@,
                decreases i - j,
            {
                if str_eq(rules[j].id.as_str(), rule.id.as_str()) {
                    assert(rules@[j as int].id@ == rules@[i as int].id@);
                    return Err(RuleError::DuplicateId(rule.id.clone()));
                }
                j += 1;
            }
            assert(!exists|j: int| 0 <= j < i && #[trigger] rules@[j].id@ == rules@[i as int].id@);
            let patterns = rule.condition.regex_patterns();
            let ghost ps = patterns.deep_view();
            let mut k: usize = 0;
            assert(ps.subrange(0, ps.len() as int) =~= ps);
            while k < patterns.len()
                invariant
                    *rules == self.rules,
                    rules_fault(rules@) == rules_fault_from(rules@, i as int),
                    i < rules@.len(),
                    *rule == rules@[i as int],
                    forall|j: int| 0 <= j < i ==> #[trigger] rules@[j].id@ != rule.id@,
                    ps == condition_patterns(rule.condition),
                    ps == patterns.deep_view(),
                    k <= ps.len(),
                    first_bad_pattern(ps) == first_bad_pattern(ps.subrange(k as int, ps.len() as int)),
                decreases ps.len() - k,
            {
                assert(ps.subrange(k as int, ps.len() as int).drop_first() =~= ps.subrange(
                    k + 1,
                    ps.len() as int,
                ));
                if !regex_is_valid(patterns[k].as_str()) {
                    return Err(
                        RuleError::InvalidRegex {
                            rule_id: rule.id.clone(),
                            pattern: patterns[k].clone(),
                        },
                    );
                }
                k += 1;
            }
            i += 1;
        }
        Ok(())
    }
}

/// Law: a condition that uses no step-level leaf does not look at the
/// step, and one that uses no job-level leaf does not look at the job. So a
/// rule evaluated once per job, or once per workflow, decides as it would
/// at any step (or job) of it.
pub proof fn lemma_granularity(c: Condition, ctx: MatchContext)
    ensures
        !uses_step_leaf(c) ==> holds(c, ctx) == holds(
            c,
            MatchContext { workflow: ctx.workflow, job: ctx.job, step: None },
        ),
        !uses_job_leaf(c) ==> holds(c, ctx) == holds(
            c,
            MatchContext { workflow: ctx.workflow, job: None, step: ctx.step },
        ),
    decreases c,
{
    let no_step = MatchContext { workflow: ctx.workflow, job: ctx.job, step: None };
    let no_job = MatchContext { workflow: ctx.workflow, job: None, step: ctx.step };
    match c {
        Condition::All(cs) | Condition::Any(cs) => {
            assert forall|j: int| 0 <= j < cs@.len() implies {
                &&& (!uses_step_leaf(#[trigger] cs@[j]) ==> holds(cs@[j], ctx) == holds(
                    cs@[j],
                    no_step,
                ))
                &&& (!uses_job_leaf(cs@[j]) ==> holds(cs@[j], ctx) == holds(cs@[j], no_job))
            } by {
                lemma_granularity(cs@[j], ctx);
            }
        },
        Condition::Not(inner) => {
            lemma_granularity(*inner, ctx);
        },
        _ => {},
    }
}

/// No pattern of `ps` is refused exactly when all of them compile.
proof fn lemma_first_bad_pattern(ps: Seq<Seq<char>>)
    ensures
        first_bad_pattern(ps) is None <==> forall|k: int|
            0 <= k < ps.len() ==> regex_compiles(#[trigger] ps[k]),
    decreases ps.len(),
{
    if ps.len() > 0 {
        lemma_first_bad_pattern(ps.drop_first());
        assert forall|k: int| 1 <= k < ps.len() implies #[trigger] ps[k] == ps.drop_first()[k - 1] by {}
        if first_bad_pattern(ps) is None {
            assert forall|k: int| 0 <= k < ps.len() implies regex_compiles(#[trigger] ps[k]) by {
                if k > 0 {
                    assert(ps[k] == ps.drop_first()[k - 1]);
                }
            }
        }
    }
}

/// Whether the rules from index `i` on have ids unseen before them and
/// patterns that all compile.
pub open spec fn rules_sound_from(rules: Seq<Rule>, i: int) -> bool {
    &&& forall|j: int, k: int|
        0 <= j < k < rules.len() && i <= k ==> #[trigger] rules[j].id@ != #[trigger] rules[k].id@
    &&& forall|k: int, n: int|
        i <= k < rules.len() && 0 <= n < condition_patterns(rules[k].condition).len()
            ==> regex_compiles(#[trigger] condition_patterns(#[trigger] rules[k].condition)[n])
}

proof fn lemma_rules_fault_from(rules: Seq<Rule>, i: int)
    requires
        0 <= i <= rules.len(),
    ensures
        rules_fault_from(rules, i) is None <==> rules_sound_from(rules, i),
    decreases rules.len() - i,
{
    if i < rules.len() {
        lemma_rules_fault_from(rules, i + 1);
        lemma_first_bad_pattern(condition_patterns(rules[i].condition));
        if rules_fault_from(rules, i) is None {
            assert forall|j: int, k: int|
                0 <= j < k < rules.len() && i <= k implies #[trigger] rules[j].id@
                != #[trigger] rules[k].id@ by {
                if k == i {
                    assert(!(0 <= j < i && rules[j].id@ == rules[i].id@));
                }
            }
        }
        if rules_sound_from(rules, i) {
            assert(!exists|j: int| 0 <= j < i && #[trigger] rules[j].id@ == rules[i].id@) by {
                assert forall|j: int| 0 <= j < i implies #[trigger] rules[j].id@ != rules[i].id@ by {
                    assert(rules[j].id@ != rules[i].id@);
                }
            }
            assert forall|n: int|
                0 <= n < condition_patterns(rules[i].condition).len() implies regex_compiles(
                #[trigger] condition_patterns(rules[i].condition)[n],
            ) by {
                assert(regex_compiles(condition_patterns(rules[i].condition)[n]));
            }
        }
    }
}

/// Law: a list of rules passes validation exactly when no two rules share
/// an id and every `uses_matches` pattern of every rule compiles.
pub proof fn lemma_valid_rules(rules: Seq<Rule>)
    ensures
        rules_fault(rules) is None <==> (forall|i: int, j: int|
            0 <= i < j < rules.len() ==> #[trigger] rules[i].id@ != #[trigger] rules[j].id@) && (
        forall|i: int, n: int|
            0 <= i < rules.len() && 0 <= n < condition_patterns(rules[i].condition).len()
                ==> regex_compiles(#[trigger] condition_patterns(#[trigger] rules[i].condition)[n])),
{
    lemma_rules_fault_from(rules, 0);
}

/// Law: `Not` inverts its condition, `All` holds exactly when every part
/// holds and `Any` exactly when some part holds; so `All` of nothing always
/// holds and `Any` of nothing never does.
pub proof fn lemma_connectives(c: Condition, cs: Vec<Condition>, ctx: MatchContext)
    ensures
        holds(Condition::Not(Box::new(c)), ctx) == !holds(c, ctx),
        holds(Condition::All(cs), ctx) <==> forall|i: int|
            0 <= i < cs@.len() ==> holds(#[trigger] cs@[i], ctx),
        holds(Condition::Any(cs), ctx) <==> exists|i: int|
            0 <= i < cs@.len() && holds(#[trigger] cs@[i], ctx),
        cs@.len() == 0 ==> holds(Condition::All(cs), ctx) && !holds(Condition::Any(cs), ctx),
{
    let all = Condition::All(cs);
    let any = Condition::Any(cs);
    assert(all matches Condition::All(xs) && xs == cs);
    assert(holds(all, ctx) == (forall|i: int| 0 <= i < cs@.len() ==> holds(#[trigger] cs@[i], ctx)));
    assert(any matches Condition::Any(xs) && xs == cs);
    assert(holds(any, ctx) == (exists|i: int| 0 <= i < cs@.len() && holds(#[trigger] cs@[i], ctx)));
}

/// Law: what each leaf condition asks of its context. `trigger_equals`
/// holds when the text equals any of the workflow's triggers, wherever it
/// stands among them; `run_contains`, `env_key_contains` and `uses_matches`
/// look at the step (any `env:` key), and never hold without one;
/// `runs_on_contains` compares the job's runner case-insensitively and
/// `job_write_all` reads the job's own permissions, neither holding without
/// a job; `workflow_write_all` reads the top-level permissions.
pub proof fn lemma_leaf_conditions(text: String, ctx: MatchContext)
    ensures
        holds(Condition::TriggerEquals(text), ctx) <==> exists|i: int|
            0 <= i < ctx.workflow.triggers@.len() && (#[trigger] ctx.workflow.triggers@[i])@
                == text@,
        holds(Condition::RunContains(text), ctx) <==> (ctx.step matches Some(st) && st.run matches Some(
            r,
        ) && contains_seq(r@, text@)),
        holds(Condition::EnvKeyContains(text), ctx) <==> (ctx.step matches Some(st) && exists|i: int|
            0 <= i < st.env@.len() && contains_seq((#[trigger] st.env@[i]).0@, text@)),
        holds(Condition::UsesMatches(text), ctx) <==> (ctx.step matches Some(st) && st.uses matches Some(
            u,
        ) && regex_compiles(text@) && regex_finds(text@, u@)),
        holds(Condition::RunsOnContains(text), ctx) <==> (ctx.job matches Some(j) && contains_seq(
            lowercase(j.runs_on@),
            lowercase(text@),
        )),
        holds(Condition::JobWriteAll, ctx) <==> (ctx.job matches Some(j) && j.permissions matches Some(
            p,
        ) && p.write_all),
        holds(Condition::WorkflowWriteAll, ctx) <==> (ctx.workflow.global_permissions matches Some(p)
            && p.write_all),
{
    let t = Condition::TriggerEquals(text);
    assert(t matches Condition::TriggerEquals(x) && x == text);
    let r = Condition::RunContains(text);
    assert(r matches Condition::RunContains(x) && x == text);
    let e = Condition::EnvKeyContains(text);
    assert(e matches Condition::EnvKeyContains(x) && x == text);
    if let Some(st) = ctx.step {
        assert(holds(e, ctx) == (exists|i: int|
            0 <= i < st.env@.len() && contains_seq((#[trigger] st.env@[i]).0@, text@)));
    }
    assert(holds(t, ctx) == (exists|i: int|
        0 <= i < ctx.workflow.triggers@.len() && (#[trigger] ctx.workflow.triggers@[i])@ == text@));
}

} // verus!
