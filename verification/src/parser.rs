//! Turns a workflow's YAML document into the typed model.

use vstd::prelude::*;
use crate::line_index::{job_line_of, line_index_of, step_line_of, LineIndex};
use crate::models::{
    flat_map, lemma_flat_map_all, lemma_flat_map_contains, lemma_flat_map_full,
    lemma_flat_map_take, Job, JobView, Permissions,
    PermissionsView, Step, StepView, WorkflowFile, WorkflowView,
};
use crate::text::{join_seq, join_strings, str_eq};
use crate::yaml::{as_str, get, index, load_yaml, yaml_document, yaml_str, YamlEntry, YamlValue};

verus! {

/// The strings among `items`, in order.
pub open spec fn str_items(items: Seq<YamlValue>) -> Seq<Seq<char>> {
    flat_map(
        items,
        |v: YamlValue|
            match yaml_str(v) {
                Some(s) => seq![s],
                None => Seq::empty(),
            },
    )
}

/// The string keys among `entries`, in order.
pub open spec fn str_keys(entries: Seq<YamlEntry>) -> Seq<Seq<char>> {
    flat_map(
        entries,
        |e: YamlEntry|
            match yaml_str(e.key) {
                Some(s) => seq![s],
                None => Seq::empty(),
            },
    )
}

/// The triggers under `on:`: one string, the strings of a list, or the
/// string keys of a mapping.
pub open spec fn triggers_of(doc: YamlValue) -> Seq<Seq<char>> {
    match index(doc, "on"@) {
        YamlValue::Str(s) => seq![s@],
        YamlValue::Sequence(items) => str_items(items@),
        YamlValue::Mapping(entries) => str_keys(entries@),
        _ => Seq::empty(),
    }
}

/// A job's `runs-on:` as one string: the string itself, the strings of a
/// list joined by `", "`, or `unknown`.
pub open spec fn runs_on_of(job: YamlValue) -> Seq<char> {
    match index(job, "runs-on"@) {
        YamlValue::Str(s) => s@,
        YamlValue::Sequence(items) => join_seq(str_items(items@), ", "@),
        _ => "unknown"@,
    }
}

/// The string-to-string entries of a mapping, in order.
pub open spec fn string_map_of(v: YamlValue) -> Seq<(Seq<char>, Seq<char>)> {
    match v {
        YamlValue::Mapping(entries) => flat_map(
            entries@,
            |e: YamlEntry|
                match (yaml_str(e.key), yaml_str(e.value)) {
                    (Some(k), Some(x)) => seq![(k, x)],
                    _ => Seq::empty(),
                },
        ),
        _ => Seq::empty(),
    }
}

/// A `permissions:` value: `write-all` grants everything, any other string
/// nothing; a mapping gives its `contents` and `pull-requests` strings
/// (none when it has neither); anything else gives none.
pub open spec fn permissions_of(v: YamlValue) -> Option<PermissionsView> {
    match v {
        YamlValue::Str(s) => Some(
            PermissionsView { contents: None, pull_requests: None, write_all: s@ == "write-all"@ },
        ),
        YamlValue::Mapping(_) => {
            let contents = yaml_str(index(v, "contents"@));
            let pull_requests = yaml_str(index(v, "pull-requests"@));
            if contents is None && pull_requests is None {
                None
            } else {
                Some(PermissionsView { contents, pull_requests, write_all: false })
            }
        },
        _ => None,
    }
}

/// A line found by the index, as a `usize`.
pub open spec fn line_value(l: Option<int>) -> Option<usize> {
    match l {
        Some(x) => Some(x as usize),
        None => None,
    }
}

/// Step `k` of the job `job_id`.
pub open spec fn step_of(
    step: YamlValue,
    job_id: Seq<char>,
    k: int,
    lines: Seq<(Seq<char>, int, Option<Seq<int>>)>,
) -> StepView {
    StepView {
        name: yaml_str(index(step, "name"@)),
        uses: yaml_str(index(step, "uses"@)),
        run: yaml_str(index(step, "run"@)),
        env: string_map_of(index(step, "env"@)),
        with: string_map_of(index(step, "with"@)),
        line: line_value(step_line_of(lines, job_id, k)),
    }
}

/// The steps of a job: one per item of its `steps:` list.
pub open spec fn steps_of(
    job: YamlValue,
    job_id: Seq<char>,
    lines: Seq<(Seq<char>, int, Option<Seq<int>>)>,
) -> Seq<StepView> {
    match index(job, "steps"@) {
        YamlValue::Sequence(items) => Seq::new(
            items@.len(),
            |k: int| step_of(items@[k], job_id, k, lines),
        ),
        _ => Seq::empty(),
    }
}

/// The id of a job entry: its string key, or `unknown`.
pub open spec fn job_id_of(entry: YamlEntry) -> Seq<char> {
    match yaml_str(entry.key) {
        Some(s) => s,
        None => "unknown"@,
    }
}

/// The job of one entry under `jobs:`.
pub open spec fn job_of(entry: YamlEntry, lines: Seq<(Seq<char>, int, Option<Seq<int>>)>) -> JobView {
    let id = job_id_of(entry);
    JobView {
        id: id,
        runs_on: runs_on_of(entry.value),
        permissions: permissions_of(index(entry.value, "permissions"@)),
        steps: steps_of(entry.value, id, lines),
        is_reusable_call: yaml_str(index(entry.value, "uses"@)) is Some,
        line: line_value(job_line_of(lines, id)),
    }
}

/// The jobs: one per entry of the `jobs:` mapping, in order.
pub open spec fn jobs_of(doc: YamlValue, lines: Seq<(Seq<char>, int, Option<Seq<int>>)>) -> Seq<JobView> {
    match index(doc, "jobs"@) {
        YamlValue::Mapping(entries) => Seq::new(
            entries@.len(),
            |k: int| job_of(entries@[k], lines),
        ),
        _ => Seq::empty(),
    }
}

/// The workflow a YAML document describes, with lines from `lines`.
pub open spec fn workflow_of(
    doc: YamlValue,
    lines: Seq<(Seq<char>, int, Option<Seq<int>>)>,
    path: Seq<char>,
) -> WorkflowView {
    WorkflowView {
        path: path,
        name: match yaml_str(index(doc, "name"@)) {
            Some(n) => n,
            None => path,
        },
        triggers: triggers_of(doc),
        jobs: jobs_of(doc, lines),
        global_permissions: permissions_of(index(doc, "permissions"@)),
    }
}

/// Why a workflow text could not be read.
#[derive(Debug, Clone)]
pub enum WorkflowError {
    /// The text is not valid YAML; carries the path and the parser's message.
    InvalidYaml { path: String, detail: String },
}

fn str_items_exec(items: &Vec<YamlValue>) -> (res: Vec<String>)
    ensures
        res.deep_view() == str_items(items@),
{
    let ghost f = |v: YamlValue|
        match yaml_str(v) {
            Some(s) => seq![s],
            None => Seq::<Seq<char>>::empty(),
        };
    let mut res: Vec<String> = Vec::new();
    let mut i: usize = 0;
    while i < items.len()
        invariant
            i <= items@.len(),
            f == (|v: YamlValue|
                match yaml_str(v) {
                    Some(s) => seq![s],
                    None => Seq::<Seq<char>>::empty(),
                }),
            res.deep_view() == flat_map(items@.take(i as int), f),
        decreases items@.len() - i,
    {
        proof {
            lemma_flat_map_take(items@, f, i as int);
        }
        if let Some(s) = as_str(&items[i]) {
            let ghost before = res.deep_view();
            res.push(s.clone());
            assert(res.deep_view() =~= before.push(s@));
        }
        i += 1;
    }
    proof {
        lemma_flat_map_full(items@, f);
    }
    res
}

fn str_keys_exec(entries: &Vec<YamlEntry>) -> (res: Vec<String>)
    ensures
        res.deep_view() == str_keys(entries@),
{
    let ghost f = |e: YamlEntry|
        match yaml_str(e.key) {
            Some(s) => seq![s],
            None => Seq::<Seq<char>>::empty(),
        };
    let mut res: Vec<String> = Vec::new();
    let mut i: usize = 0;
    while i < entries.len()
        invariant
            i <= entries@.len(),
            f == (|e: YamlEntry|
                match yaml_str(e.key) {
                    Some(s) => seq![s],
                    None => Seq::<Seq<char>>::empty(),
                }),
            res.deep_view() == flat_map(entries@.take(i as int), f),
        decreases entries@.len() - i,
    {
        proof {
            lemma_flat_map_take(entries@, f, i as int);
        }
        if let Some(s) = as_str(&entries[i].key) {
            let ghost before = res.deep_view();
            res.push(s.clone());
            assert(res.deep_view() =~= before.push(s@));
        }
        i += 1;
    }
    proof {
        lemma_flat_map_full(entries@, f);
    }
    res
}

/// The triggers under `on:`.
fn extract_triggers(doc: &YamlValue) -> (res: Vec<String>)
    ensures
        res.deep_view() == triggers_of(*doc),
{
    match get(doc, "on") {
        Some(YamlValue::Str(s)) => {
            let mut v: Vec<String> = Vec::new();
            v.push(s.clone());
            assert(v.deep_view() =~= seq![s@]);
            v
        },
        Some(YamlValue::Sequence(items)) => str_items_exec(items),
        Some(YamlValue::Mapping(entries)) => str_keys_exec(entries),
        _ => {
            let v: Vec<String> = Vec::new();
            assert(v.deep_view() =~= Seq::<Seq<char>>::empty());
            v
        },
    }
}

/// A job's `runs-on:` as one string.
fn extract_runs_on(job: &YamlValue) -> (res: String)
    ensures
        res@ == runs_on_of(*job),
{
    match get(job, "runs-on") {
        Some(YamlValue::Str(s)) => s.clone(),
        Some(YamlValue::Sequence(items)) => {
            let labels = str_items_exec(items);
            join_strings(&labels, ", ")
        },
        _ => String::from_str("unknown"),
    }
}

/// The string-to-string entries of a mapping.
fn extract_string_map(v: Option<&YamlValue>) -> (res: Vec<(String, String)>)
    ensures
        res.deep_view() == string_map_of(
            match v {
                Some(x) => *x,
                None => YamlValue::Null,
            },
        ),
{
    let mut res: Vec<(String, String)> = Vec::new();
    if let Some(YamlValue::Mapping(entries)) = v {
        let ghost f = |e: YamlEntry|
            match (yaml_str(e.key), yaml_str(e.value)) {
                (Some(k), Some(x)) => seq![(k, x)],
                _ => Seq::<(Seq<char>, Seq<char>)>::empty(),
            };
        let mut i: usize = 0;
        while i < entries.len()
            invariant
                i <= entries@.len(),
                f == (|e: YamlEntry|
                    match (yaml_str(e.key), yaml_str(e.value)) {
                        (Some(k), Some(x)) => seq![(k, x)],
                        _ => Seq::<(Seq<char>, Seq<char>)>::empty(),
                    }),
                res.deep_view() == flat_map(entries@.take(i as int), f),
            decreases entries@.len() - i,
        {
            proof {
                lemma_flat_map_take(entries@, f, i as int);
            }
            let e = &entries[i];
            match (as_str(&e.key), as_str(&e.value)) {
                (Some(k), Some(x)) => {
                    let ghost before = res.deep_view();
                    res.push((k.clone(), x.clone()));
                    assert(res.deep_view() =~= before.push((k@, x@)));
                },
                _ => {},
            }
            i += 1;
        }
        proof {
            lemma_flat_map_full(entries@, f);
        }
        return res;
    }
    assert(res.deep_view() =~= Seq::<(Seq<char>, Seq<char>)>::empty());
    res
}

/// The grants of a `permissions:` value.
fn extract_permissions(v: Option<&YamlValue>) -> (res: Option<Permissions>)
    ensures
        crate::models::opt_permissions_view(res) == permissions_of(
            match v {
                Some(x) => *x,
                None => YamlValue::Null,
            },
        ),
{
    match v {
        Some(YamlValue::Str(s)) => {
            let write_all = str_eq(s.as_str(), "write-all");
            Some(Permissions { contents: None, pull_requests: None, write_all })
        },
        Some(m) => {
            if let YamlValue::Mapping(_) = m {
                let contents = match get(m, "contents") {
                    Some(x) => match as_str(x) {
                        Some(s) => Some(s.clone()),
                        None => None,
                    },
                    None => None,
                };
                let pull_requests = match get(m, "pull-requests") {
                    Some(x) => match as_str(x) {
                        Some(s) => Some(s.clone()),
                        None => None,
                    },
                    None => None,
                };
                if contents.is_none() && pull_requests.is_none() {
                    None
                } else {
                    Some(Permissions { contents, pull_requests, write_all: false })
                }
            } else {
                None
            }
        },
        None => None,
    }
}

fn opt_str_field(v: &YamlValue, key: &str) -> (res: Option<String>)
    ensures
        res.deep_view() == yaml_str(index(*v, key@)),
{
    match get(v, key) {
        Some(x) => match as_str(x) {
            Some(s) => Some(s.clone()),
            None => None,
        },
        None => None,
    }
}

/// The steps of the job `job_id`.
fn extract_steps(job: &YamlValue, job_id: &str, line_index: &LineIndex) -> (res: Vec<Step>)
    ensures
        res@.map_values(|s: Step| s@) == steps_of(*job, job_id@, line_index@),
{
    let mut steps: Vec<Step> = Vec::new();
    if let Some(YamlValue::Sequence(items)) = get(job, "steps") {
        let mut k: usize = 0;
        while k < items.len()
            invariant
                index(*job, "steps"@) == YamlValue::Sequence(*items),
                k <= items@.len(),
                steps@.len() == k,
                forall|m: int|
                    0 <= m < k ==> #[trigger] steps@[m]@ == step_of(
                        items@[m],
                        job_id@,
                        m,
                        line_index@,
                    ),
            decreases items@.len() - k,
        {
            let step_val = &items[k];
            let step = Step {
                name: opt_str_field(step_val, "name"),
                uses: opt_str_field(step_val, "uses"),
                run: opt_str_field(step_val, "run"),
                env: extract_string_map(get(step_val, "env")),
                with: extract_string_map(get(step_val, "with")),
                line: line_index.step_line(job_id, k),
            };
            steps.push(step);
            k += 1;
        }
        assert(steps@.map_values(|s: Step| s@) =~= steps_of(*job, job_id@, line_index@));
        return steps;
    }
    assert(steps@.map_values(|s: Step| s@) =~= steps_of(*job, job_id@, line_index@));
    steps
}

/// The jobs under `jobs:`.
fn extract_jobs(doc: &YamlValue, line_index: &LineIndex) -> (res: Vec<Job>)
    ensures
        res@.map_values(|j: Job| j@) == jobs_of(*doc, line_index@),
{
    let mut jobs: Vec<Job> = Vec::new();
    if let Some(YamlValue::Mapping(entries)) = get(doc, "jobs") {
        let mut k: usize = 0;
        while k < entries.len()
            invariant
                index(*doc, "jobs"@) == YamlValue::Mapping(*entries),
                k <= entries@.len(),
                jobs@.len() == k,
                forall|m: int| 0 <= m < k ==> #[trigger] jobs@[m]@ == job_of(entries@[m], line_index@),
            decreases entries@.len() - k,
        {
            let entry = &entries[k];
            let id = match as_str(&entry.key) {
                Some(s) => s.clone(),
                None => String::from_str("unknown"),
            };
            let job_val = &entry.value;
            let runs_on = extract_runs_on(job_val);
            let permissions = extract_permissions(get(job_val, "permissions"));
            let steps = extract_steps(job_val, id.as_str(), line_index);
            let is_reusable_call = match get(job_val, "uses") {
                Some(x) => as_str(x).is_some(),
                None => false,
            };
            let line = line_index.job_line(id.as_str());
            let job = Job { id, runs_on, permissions, steps, is_reusable_call, line };
            jobs.push(job);
            k += 1;
        }
        assert(jobs@.map_values(|j: Job| j@) =~= jobs_of(*doc, line_index@));
        return jobs;
    }
    assert(jobs@.map_values(|j: Job| j@) =~= jobs_of(*doc, line_index@));
    jobs
}

/// The workflow a parsed YAML document describes, with the source lines
/// of its jobs and steps taken from `line_index`.
pub fn workflow_from_document(doc: &YamlValue, line_index: &LineIndex, path: &str) -> (res:
    WorkflowFile)
    ensures
        res@ == workflow_of(*doc, line_index@, path@),
{
    let name = match get(doc, "name") {
        Some(x) => match as_str(x) {
            Some(s) => s.clone(),
            None => String::from_str(path),
        },
        None => String::from_str(path),
    };
    let triggers = extract_triggers(doc);
    let jobs = extract_jobs(doc, line_index);
    let global_permissions = extract_permissions(get(doc, "permissions"));
    WorkflowFile { path: String::from_str(path), name, triggers, jobs, global_permissions }
}

/// Parses a workflow text: fails exactly when the text is not valid YAML,
/// and otherwise yields the workflow its document describes, with job and
/// step lines found in the text itself.
pub fn parse_workflow_str(content: &str, path: &str) -> (res: Result<WorkflowFile, WorkflowError>)
    ensures
        match yaml_document(content@) {
            Ok(doc) => res matches Ok(wf) && wf@ == workflow_of(doc, line_index_of(content@), path@),
            Err(m) => res matches Err(WorkflowError::InvalidYaml { path: p, detail: d }) && p@
                == path@ && d@ == m,
        },
{
    match load_yaml(content) {
        Ok(doc) => {
            let line_index = LineIndex::build(content);
            Ok(workflow_from_document(&doc, &line_index, path))
        },
        Err(detail) => Err(WorkflowError::InvalidYaml { path: String::from_str(path), detail }),
    }
}

/// Law: how a `permissions:` value is read. A string grants `write-all`
/// exactly when it is `write-all`, and nothing else. A mapping gives
/// permissions exactly when its `contents` or its `pull-requests` entry is
/// a string (either one suffices), and then carries those two strings as
/// they are, with no `write-all`. Any other value gives none.
pub proof fn lemma_permissions_read(v: YamlValue)
    ensures
        v matches YamlValue::Str(s) ==> permissions_of(v) == Some(
            PermissionsView { contents: None, pull_requests: None, write_all: s@ == "write-all"@ },
        ),
        v is Mapping ==> (permissions_of(v) is Some <==> (yaml_str(index(v, "contents"@)) is Some
            || yaml_str(index(v, "pull-requests"@)) is Some)),
        v is Mapping ==> (permissions_of(v) matches Some(p) ==> p.contents == yaml_str(
            index(v, "contents"@),
        ) && p.pull_requests == yaml_str(index(v, "pull-requests"@)) && !p.write_all),
        !(v is Str || v is Mapping) ==> permissions_of(v) is None,
{
}

/// Law: the workflow's top-level permissions and each job's own
/// permissions are read from their `permissions:` values as
/// `lemma_permissions_read` states; in particular a mapping holding only
/// `pull-requests: write` gives that grant and no `contents` grant.
pub proof fn lemma_workflow_permissions_read(
    doc: YamlValue,
    lines: Seq<(Seq<char>, int, Option<Seq<int>>)>,
    path: Seq<char>,
)
    ensures
        ({
            let v = index(doc, "permissions"@);
            let g = workflow_of(doc, lines, path).global_permissions;
            &&& v is Mapping ==> (g is Some <==> (yaml_str(index(v, "contents"@)) is Some
                || yaml_str(index(v, "pull-requests"@)) is Some))
            &&& v is Mapping ==> (g matches Some(p) ==> p.contents == yaml_str(
                index(v, "contents"@),
            ) && p.pull_requests == yaml_str(index(v, "pull-requests"@)) && !p.write_all)
            &&& v matches YamlValue::Str(s) ==> g == Some(
                PermissionsView {
                    contents: None,
                    pull_requests: None,
                    write_all: s@ == "write-all"@,
                },
            )
            &&& !(v is Str || v is Mapping) ==> g is None
        }),
        forall|k: int|
            0 <= k < jobs_of(doc, lines).len() ==> {
                let jv = (#[trigger] jobs_of(doc, lines)[k]).permissions;
                let v = index(
                    match index(doc, "jobs"@) {
                        YamlValue::Mapping(entries) => entries@[k].value,
                        _ => YamlValue::Null,
                    },
                    "permissions"@,
                );
                &&& v is Mapping ==> (jv is Some <==> (yaml_str(index(v, "contents"@)) is Some
                    || yaml_str(index(v, "pull-requests"@)) is Some))
                &&& v is Mapping ==> (jv matches Some(p) ==> p.contents == yaml_str(
                    index(v, "contents"@),
                ) && p.pull_requests == yaml_str(index(v, "pull-requests"@)) && !p.write_all)
            },
{
    lemma_permissions_read(index(doc, "permissions"@));
    assert forall|k: int| 0 <= k < jobs_of(doc, lines).len() implies {
        let jv = (#[trigger] jobs_of(doc, lines)[k]).permissions;
        let v = index(
            match index(doc, "jobs"@) {
                YamlValue::Mapping(entries) => entries@[k].value,
                _ => YamlValue::Null,
            },
            "permissions"@,
        );
        &&& v is Mapping ==> (jv is Some <==> (yaml_str(index(v, "contents"@)) is Some
            || yaml_str(index(v, "pull-requests"@)) is Some))
        &&& v is Mapping ==> (jv matches Some(p) ==> p.contents == yaml_str(index(v, "contents"@))
            && p.pull_requests == yaml_str(index(v, "pull-requests"@)) && !p.write_all)
    } by {
        if let YamlValue::Mapping(entries) = index(doc, "jobs"@) {
            lemma_permissions_read(index(entries@[k].value, "permissions"@));
        }
    }
}

/// Law: the triggers are read from `on:`. A string is the one trigger. For
/// a list, the triggers are exactly its string items; for a mapping,
/// exactly its string keys: each one is a trigger, and each trigger is one
/// of them. Anything else gives no trigger.
pub proof fn lemma_triggers_read(doc: YamlValue)
    ensures
        index(doc, "on"@) matches YamlValue::Str(s) ==> triggers_of(doc) == seq![s@],
        index(doc, "on"@) matches YamlValue::Sequence(items) ==> {
            &&& forall|k: int|
                #![trigger triggers_of(doc)[k]]
                0 <= k < triggers_of(doc).len() ==> exists|i: int|
                    0 <= i < items@.len() && yaml_str(#[trigger] items@[i]) == Some(
                        triggers_of(doc)[k],
                    )
            &&& forall|i: int|
                0 <= i < items@.len() && (yaml_str(#[trigger] items@[i]) matches Some(x))
                    ==> triggers_of(doc).contains(yaml_str(items@[i])->0)
        },
        index(doc, "on"@) matches YamlValue::Mapping(entries) ==> {
            &&& forall|k: int|
                #![trigger triggers_of(doc)[k]]
                0 <= k < triggers_of(doc).len() ==> exists|i: int|
                    0 <= i < entries@.len() && yaml_str((#[trigger] entries@[i]).key) == Some(
                        triggers_of(doc)[k],
                    )
            &&& forall|i: int|
                0 <= i < entries@.len() && (yaml_str((#[trigger] entries@[i]).key) matches Some(x))
                    ==> triggers_of(doc).contains(yaml_str(entries@[i].key)->0)
        },
        !(index(doc, "on"@) is Str || index(doc, "on"@) is Sequence || index(doc, "on"@) is Mapping)
            ==> triggers_of(doc).len() == 0,
{
    let t = triggers_of(doc);
    match index(doc, "on"@) {
        YamlValue::Sequence(items) => {
            let f = |v: YamlValue|
                match yaml_str(v) {
                    Some(s) => seq![s],
                    None => Seq::<Seq<char>>::empty(),
                };
            let p = |x: Seq<char>|
                exists|i: int| 0 <= i < items@.len() && yaml_str(#[trigger] items@[i]) == Some(x);
            assert forall|a: int, b: int| 0 <= a < items@.len() && 0 <= b < f(items@[a]).len() implies p(
                #[trigger] f(items@[a])[b],
            ) by {
                assert(yaml_str(items@[a]) == Some(f(items@[a])[b]));
            }
            lemma_flat_map_all(items@, f, p);
            assert forall|i: int|
                0 <= i < items@.len() && (yaml_str(#[trigger] items@[i]) matches Some(x)) implies t.contains(
                yaml_str(items@[i])->0,
            ) by {
                lemma_flat_map_contains(items@, f, i, 0);
            }
        },
        YamlValue::Mapping(entries) => {
            let f = |e: YamlEntry|
                match yaml_str(e.key) {
                    Some(s) => seq![s],
                    None => Seq::<Seq<char>>::empty(),
                };
            let p = |x: Seq<char>|
                exists|i: int|
                    0 <= i < entries@.len() && yaml_str((#[trigger] entries@[i]).key) == Some(x);
            assert forall|a: int, b: int|
                0 <= a < entries@.len() && 0 <= b < f(entries@[a]).len() implies p(
                #[trigger] f(entries@[a])[b],
            ) by {
                assert(yaml_str(entries@[a].key) == Some(f(entries@[a])[b]));
            }
            lemma_flat_map_all(entries@, f, p);
            assert forall|i: int|
                0 <= i < entries@.len() && (yaml_str((#[trigger] entries@[i]).key) matches Some(
                    x,
                )) implies t.contains(yaml_str(entries@[i].key)->0) by {
                lemma_flat_map_contains(entries@, f, i, 0);
            }
        },
        _ => {},
    }
}

} // verus!
