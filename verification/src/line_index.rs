//! Best-effort lookup of the source lines of jobs and steps.
//!
//! The YAML model carries no positions, so this is a second, independent
//! pass over the raw text driven by indentation: it finds the top-level
//! `jobs:` key, the job keys one level below it, and the `- ` items of each
//! job's `steps:` block. Unusual formatting (tabs, flow-style `steps: [...]`,
//! anchors) can defeat it; block-style, space-indented workflows cannot.

use vstd::prelude::*;
use crate::text::{
    char_is_ws, chars_of, copy_range, find_char, first_index_of, leading_space_count,
    leading_spaces, lemma_first_index_of, split_lines, string_of, text_lines, trim_char,
    trim_char_vec, trim_start_vec, trim_start_ws, trim_vec, trim_ws,
};

verus! {

/// A line holding nothing but white space.
pub open spec fn is_blank(l: Seq<char>) -> bool {
    trim_ws(l).len() == 0
}

/// The key of a line that looks like a YAML mapping key (`key:` or
/// `key: value`; not a sequence item, not a comment), without surrounding
/// quotes.
pub open spec fn mapping_key(line: Seq<char>) -> Option<Seq<char>> {
    let t = trim_start_ws(line);
    if t.len() == 0 || t[0] == '#' || t[0] == '-' {
        None
    } else {
        match first_index_of(t, ':') {
            None => None,
            Some(idx) => {
                let key = trim_ws(t.subrange(0, idx));
                if key.len() == 0 {
                    None
                } else {
                    Some(trim_char(trim_char(key, '"'), '\''))
                }
            },
        }
    }
}

/// The first line at or after `from` that is unindented and has key `key`.
pub open spec fn top_key_line(lines: Seq<Seq<char>>, key: Seq<char>, from: int) -> Option<int>
    decreases lines.len() - from,
{
    if from < 0 || from >= lines.len() {
        None
    } else if leading_space_count(lines[from]) == 0 && mapping_key(lines[from]) == Some(key) {
        Some(from)
    } else {
        top_key_line(lines, key, from + 1)
    }
}

/// The first non-blank line in `[from, end)`.
pub open spec fn next_nonblank(lines: Seq<Seq<char>>, from: int, end: int) -> Option<int>
    decreases end - from,
{
    if from < 0 || from >= end || from >= lines.len() {
        None
    } else if !is_blank(lines[from]) {
        Some(from)
    } else {
        next_nonblank(lines, from + 1, end)
    }
}

/// The indentation of the first non-blank line after line `after`.
pub open spec fn indent_after(lines: Seq<Seq<char>>, after: int) -> Option<nat> {
    match next_nonblank(lines, after + 1, lines.len() as int) {
        Some(j) => Some(leading_space_count(lines[j])),
        None => None,
    }
}

/// Where the block of a mapping entry ends: the first non-blank line at or
/// after `j` indented at most `indent`, or the end of the text.
pub open spec fn entry_end(lines: Seq<Seq<char>>, j: int, indent: nat) -> int
    decreases lines.len() - j,
{
    if j < 0 || j >= lines.len() {
        lines.len() as int
    } else if !is_blank(lines[j]) && leading_space_count(lines[j]) <= indent {
        j
    } else {
        entry_end(lines, j + 1, indent)
    }
}

/// `entry_end` lies between its start and the end of the text.
pub proof fn lemma_entry_end(lines: Seq<Seq<char>>, j: int, indent: nat)
    requires
        0 <= j,
    ensures
        j <= lines.len() ==> j <= entry_end(lines, j, indent) <= lines.len(),
        j > lines.len() ==> entry_end(lines, j, indent) == lines.len(),
    decreases lines.len() - j,
{
    if j < lines.len() && !(!is_blank(lines[j]) && leading_space_count(lines[j]) <= indent) {
        lemma_entry_end(lines, j + 1, indent);
    }
}

/// The mapping entries at exactly `indent` from line `i` on, up to the
/// first non-blank line indented less: each as its key, its first line and
/// the line where its block ends.
pub open spec fn mapping_entries_from(lines: Seq<Seq<char>>, i: int, indent: nat) -> Seq<
    (Seq<char>, int, int),
>
    decreases lines.len() - i,
{
    if i < 0 || i >= lines.len() {
        Seq::empty()
    } else if is_blank(lines[i]) {
        mapping_entries_from(lines, i + 1, indent)
    } else if leading_space_count(lines[i]) < indent {
        Seq::empty()
    } else if leading_space_count(lines[i]) == indent && mapping_key(lines[i]) is Some {
        let end = entry_end(lines, i + 1, indent);
        proof {
            lemma_entry_end(lines, i + 1, indent);
        }
        seq![(mapping_key(lines[i])->0, i, end)] + mapping_entries_from(lines, end, indent)
    } else {
        mapping_entries_from(lines, i + 1, indent)
    }
}

/// The first line in `[i, end)` whose key is `steps`.
pub open spec fn steps_key_in(lines: Seq<Seq<char>>, i: int, end: int) -> Option<int>
    decreases end - i,
{
    if i < 0 || i >= end || i >= lines.len() {
        None
    } else if mapping_key(lines[i]) == Some("steps"@) {
        Some(i)
    } else {
        steps_key_in(lines, i + 1, end)
    }
}

/// A line whose first non-blank character is `-`.
pub open spec fn is_item_line(l: Seq<char>) -> bool {
    trim_start_ws(l).len() > 0 && trim_start_ws(l)[0] == '-'
}

/// The `-` items at exactly `indent` in `[i, end)`, stopping at the first
/// non-blank line indented less.
pub open spec fn step_items_from(lines: Seq<Seq<char>>, i: int, end: int, indent: nat) -> Seq<int>
    decreases end - i,
{
    if i < 0 || i >= end || i >= lines.len() {
        Seq::empty()
    } else if is_blank(lines[i]) {
        step_items_from(lines, i + 1, end, indent)
    } else if leading_space_count(lines[i]) < indent {
        Seq::empty()
    } else if leading_space_count(lines[i]) == indent && is_item_line(lines[i]) {
        seq![i] + step_items_from(lines, i + 1, end, indent)
    } else {
        step_items_from(lines, i + 1, end, indent)
    }
}

/// The step lines of the job block `[start, end)`: none without a `steps:`
/// key or without anything after it, an empty list when the first line
/// after it is not a `-` item, else every `-` item at the first item's
/// indentation.
pub open spec fn find_step_lines(lines: Seq<Seq<char>>, start: int, end: int) -> Option<Seq<int>> {
    match steps_key_in(lines, start, end) {
        None => None,
        Some(sk) => match indent_after(lines, sk) {
            None => None,
            Some(item_indent) => {
                let first_is_item = match next_nonblank(lines, sk + 1, end) {
                    Some(j) => is_item_line(lines[j]),
                    None => false,
                };
                if !first_is_item {
                    Some(Seq::empty())
                } else {
                    Some(step_items_from(lines, sk + 1, end, item_indent))
                }
            },
        },
    }
}

/// One job of the index: its id, its 1-based line and its steps' 1-based lines.
pub open spec fn index_entry(lines: Seq<Seq<char>>, e: (Seq<char>, int, int)) -> (
    Seq<char>,
    int,
    Option<Seq<int>>,
) {
    (
        e.0,
        e.1 + 1,
        match find_step_lines(lines, e.1, e.2) {
            Some(s) => Some(s.map_values(|l: int| l + 1)),
            None => None,
        },
    )
}

/// What the index records for a text: one entry per job key under the
/// top-level `jobs:` key, in document order.
pub open spec fn line_index_of(content: Seq<char>) -> Seq<(Seq<char>, int, Option<Seq<int>>)> {
    let lines = text_lines(content);
    match top_key_line(lines, "jobs"@, 0) {
        None => Seq::empty(),
        Some(jk) => match indent_after(lines, jk) {
            None => Seq::empty(),
            Some(ind) => mapping_entries_from(lines, jk + 1, ind).map_values(
                |e: (Seq<char>, int, int)| index_entry(lines, e),
            ),
        },
    }
}

/// The line of the last recorded job named `id`.
pub open spec fn job_line_of(entries: Seq<(Seq<char>, int, Option<Seq<int>>)>, id: Seq<char>) -> Option<int>
    decreases entries.len(),
{
    if entries.len() == 0 {
        None
    } else if entries.last().0 == id {
        Some(entries.last().1)
    } else {
        job_line_of(entries.drop_last(), id)
    }
}

/// The step lines of the last recorded job named `id` that has some.
pub open spec fn step_lines_of(entries: Seq<(Seq<char>, int, Option<Seq<int>>)>, id: Seq<char>) -> Option<Seq<int>>
    decreases entries.len(),
{
    if entries.len() == 0 {
        None
    } else if entries.last().0 == id && entries.last().2 is Some {
        entries.last().2
    } else {
        step_lines_of(entries.drop_last(), id)
    }
}

/// The line of step `k` of the last recorded job named `id`.
pub open spec fn step_line_of(entries: Seq<(Seq<char>, int, Option<Seq<int>>)>, id: Seq<char>, k: int) -> Option<int> {
    match step_lines_of(entries, id) {
        Some(s) => if 0 <= k < s.len() {
            Some(s[k])
        } else {
            None
        },
        None => None,
    }
}

/// The recorded lines of one job.
pub struct JobLines {
    id: String,
    line: usize,
    step_lines: Option<Vec<usize>>,
}

/// Source lines of jobs and steps, found in the raw workflow text.
pub struct LineIndex {
    entries: Vec<JobLines>,
}

impl View for LineIndex {
    type V = Seq<(Seq<char>, int, Option<Seq<int>>)>;

    closed spec fn view(&self) -> Seq<(Seq<char>, int, Option<Seq<int>>)> {
        self.entries@.map_values(
            |e: JobLines|
                (
                    e.id@,
                    e.line as int,
                    match e.step_lines {
                        Some(v) => Some(v@.map_values(|l: usize| l as int)),
                        None => None,
                    },
                ),
        )
    }
}

/// `lines` holds the characters of the lines `ls`.
pub open spec fn lines_hold(lines: Seq<Vec<char>>, ls: Seq<Seq<char>>) -> bool {
    lines.len() == ls.len() && forall|i: int| 0 <= i < lines.len() ==> #[trigger] lines[i]@ == ls[i]
}

fn is_blank_line(line: &[char]) -> (res: bool)
    ensures
        res == is_blank(line@),
{
    trim_vec(line).len() == 0
}

fn is_item(line: &[char]) -> (res: bool)
    ensures
        res == is_item_line(line@),
{
    let t = trim_start_vec(line);
    t.len() > 0 && t[0] == '-'
}

/// The key of a line that looks like a YAML mapping key.
fn line_key(line: &[char]) -> (res: Option<Vec<char>>)
    ensures
        match res {
            Some(k) => mapping_key(line@) == Some(k@),
            None => mapping_key(line@) is None,
        },
{
    let t = trim_start_vec(line);
    if t.len() == 0 || t[0] == '#' || t[0] == '-' {
        return None;
    }
    let idx = match find_char(t.as_slice(), ':') {
        Some(i) => i,
        None => return None,
    };
    proof {
        lemma_first_index_of(t@, ':');
    }
    let head = copy_range(t.as_slice(), 0, idx);
    let key = trim_vec(head.as_slice());
    if key.len() == 0 {
        return None;
    }
    let k1 = trim_char_vec(key.as_slice(), '"');
    let k2 = trim_char_vec(k1.as_slice(), '\'');
    Some(k2)
}

fn chars_eq(a: &[char], b: &[char]) -> (res: bool)
    ensures
        res == (a@ == b@),
{
    if a.len() != b.len() {
        return false;
    }
    let mut i: usize = 0;
    while i < a.len()
        invariant
            a@.len() == b@.len(),
            i <= a@.len(),
            forall|j: int| 0 <= j < i ==> a@[j] == b@[j],
        decreases a.len() - i,
    {
        if a[i] != b[i] {
            return false;
        }
        i += 1;
    }
    assert(a@ =~= b@);
    true
}

fn key_is(line: &[char], key: &[char]) -> (res: bool)
    ensures
        res == (mapping_key(line@) == Some(key@)),
{
    match line_key(line) {
        Some(k) => chars_eq(k.as_slice(), key),
        None => false,
    }
}

fn find_top_level_key_line(lines: &Vec<Vec<char>>, key: &[char], Ghost(ls): Ghost<Seq<Seq<char>>>) -> (res: Option<usize>)
    requires
        lines_hold(lines@, ls),
    ensures
        match res {
            Some(i) => top_key_line(ls, key@, 0) == Some(i as int),
            None => top_key_line(ls, key@, 0) is None,
        },
{
    let mut i: usize = 0;
    while i < lines.len()
        invariant
            lines_hold(lines@, ls),
            i <= lines@.len(),
            top_key_line(ls, key@, 0) == top_key_line(ls, key@, i as int),
        decreases lines@.len() - i,
    {
        let line = lines[i].as_slice();
        if leading_spaces(line) == 0 && key_is(line, key) {
            return Some(i);
        }
        i += 1;
    }
    None
}

fn next_nonblank_exec(lines: &Vec<Vec<char>>, from: usize, end: usize, Ghost(ls): Ghost<Seq<Seq<char>>>) -> (res: Option<usize>)
    requires
        lines_hold(lines@, ls),
        end <= lines@.len(),
    ensures
        match res {
            Some(j) => next_nonblank(ls, from as int, end as int) == Some(j as int) && from <= j < end,
            None => next_nonblank(ls, from as int, end as int) is None,
        },
{
    let mut i = from;
    while i < end
        invariant
            lines_hold(lines@, ls),
            end <= lines@.len(),
            from <= i,
            next_nonblank(ls, from as int, end as int) == next_nonblank(ls, i as int, end as int),
        decreases end - i,
    {
        if !is_blank_line(lines[i].as_slice()) {
            return Some(i);
        }
        i += 1;
    }
    None
}

fn indent_after_exec(lines: &Vec<Vec<char>>, after: usize, Ghost(ls): Ghost<Seq<Seq<char>>>) -> (res: Option<usize>)
    requires
        lines_hold(lines@, ls),
        after < lines@.len(),
    ensures
        match res {
            Some(n) => indent_after(ls, after as int) == Some(n as nat),
            None => indent_after(ls, after as int) is None,
        },
{
    let n = lines.len();
    match next_nonblank_exec(lines, after + 1, n, Ghost(ls)) {
        Some(j) => Some(leading_spaces(lines[j].as_slice())),
        None => None,
    }
}

fn entry_end_exec(lines: &Vec<Vec<char>>, from: usize, indent: usize, Ghost(ls): Ghost<Seq<Seq<char>>>) -> (res: usize)
    requires
        lines_hold(lines@, ls),
        from <= lines@.len(),
    ensures
        res == entry_end(ls, from as int, indent as nat),
{
    let mut j = from;
    while j < lines.len()
        invariant
            lines_hold(lines@, ls),
            from <= j <= lines@.len(),
            entry_end(ls, from as int, indent as nat) == entry_end(ls, j as int, indent as nat),
        decreases lines@.len() - j,
    {
        let line = lines[j].as_slice();
        if !is_blank_line(line) && leading_spaces(line) <= indent {
            return j;
        }
        j += 1;
    }
    j
}

/// The mapping entries at exactly `indent` from line `from` on.
fn find_mapping_entries(lines: &Vec<Vec<char>>, from: usize, indent: usize, Ghost(ls): Ghost<Seq<Seq<char>>>) -> (res: Vec<(Vec<char>, usize, usize)>)
    requires
        lines_hold(lines@, ls),
        from <= lines@.len(),
    ensures
        res@.len() == mapping_entries_from(ls, from as int, indent as nat).len(),
        forall|k: int| 0 <= k < res@.len() ==> {
            let e = #[trigger] res@[k];
            let s = mapping_entries_from(ls, from as int, indent as nat)[k];
            e.0@ == s.0 && e.1 as int == s.1 && e.2 as int == s.2
        },
{
    let mut entries: Vec<(Vec<char>, usize, usize)> = Vec::new();
    let ghost done: Seq<(Seq<char>, int, int)> = Seq::empty();
    let mut i = from;
    while i < lines.len()
        invariant
            lines_hold(lines@, ls),
            from <= i <= lines@.len(),
            entries@.len() == done.len(),
            forall|k: int| 0 <= k < entries@.len() ==> {
                let e = #[trigger] entries@[k];
                e.0@ == done[k].0 && e.1 as int == done[k].1 && e.2 as int == done[k].2
            },
            mapping_entries_from(ls, from as int, indent as nat) == done + mapping_entries_from(
                ls,
                i as int,
                indent as nat,
            ),
        ensures
            entries@.len() == done.len(),
            forall|k: int| 0 <= k < entries@.len() ==> {
                let e = #[trigger] entries@[k];
                e.0@ == done[k].0 && e.1 as int == done[k].1 && e.2 as int == done[k].2
            },
            mapping_entries_from(ls, from as int, indent as nat) == done,
        decreases lines@.len() - i,
    {
        let line = lines[i].as_slice();
        if is_blank_line(line) {
            i += 1;
            continue;
        }
        let this_indent = leading_spaces(line);
        if this_indent < indent {
            proof {
                assert(mapping_entries_from(ls, i as int, indent as nat) =~= Seq::empty());
            }
            break;
        }
        if this_indent == indent {
            if let Some(key) = line_key(line) {
                let end = entry_end_exec(lines, i + 1, indent, Ghost(ls));
                proof {
                    lemma_entry_end(ls, i + 1, indent as nat);
                    done = done.push((key@, i as int, end as int));
                }
                entries.push((key, i, end));
                i = end;
                continue;
            }
        }
        i += 1;
    }
    entries
}

fn steps_key_exec(lines: &Vec<Vec<char>>, start: usize, end: usize, Ghost(ls): Ghost<Seq<Seq<char>>>) -> (res: Option<usize>)
    requires
        lines_hold(lines@, ls),
        end <= lines@.len(),
    ensures
        match res {
            Some(j) => steps_key_in(ls, start as int, end as int) == Some(j as int) && start <= j < end,
            None => steps_key_in(ls, start as int, end as int) is None,
        },
{
    let steps: Vec<char> = chars_of("steps");
    let mut i = start;
    while i < end
        invariant
            lines_hold(lines@, ls),
            end <= lines@.len(),
            start <= i,
            steps@ == "steps"@,
            steps_key_in(ls, start as int, end as int) == steps_key_in(ls, i as int, end as int),
        decreases end - i,
    {
        if key_is(lines[i].as_slice(), steps.as_slice()) {
            return Some(i);
        }
        i += 1;
    }
    None
}

fn step_items_exec(lines: &Vec<Vec<char>>, from: usize, end: usize, indent: usize, Ghost(ls): Ghost<Seq<Seq<char>>>) -> (res: Vec<usize>)
    requires
        lines_hold(lines@, ls),
        end <= lines@.len(),
    ensures
        res@.map_values(|l: usize| l as int) == step_items_from(ls, from as int, end as int, indent as nat),
{
    let mut items: Vec<usize> = Vec::new();
    let mut i = from;
    while i < end
        invariant
            lines_hold(lines@, ls),
            end <= lines@.len(),
            from <= i,
            step_items_from(ls, from as int, end as int, indent as nat) == items@.map_values(
                |l: usize| l as int,
            ) + step_items_from(ls, i as int, end as int, indent as nat),
        ensures
            step_items_from(ls, from as int, end as int, indent as nat) == items@.map_values(
                |l: usize| l as int,
            ),
        decreases end - i,
    {
        let line = lines[i].as_slice();
        if is_blank_line(line) {
            i += 1;
            continue;
        }
        let this_indent = leading_spaces(line);
        if this_indent < indent {
            proof {
                assert(step_items_from(ls, i as int, end as int, indent as nat) =~= Seq::empty());
            }
            break;
        }
        if this_indent == indent && is_item(line) {
            let ghost before = items@;
            items.push(i);
            assert(items@.map_values(|l: usize| l as int) =~= before.map_values(|l: usize| l as int).push(i as int));
        }
        i += 1;
    }
    items
}

fn find_step_lines_exec(lines: &Vec<Vec<char>>, start: usize, end: usize, Ghost(ls): Ghost<Seq<Seq<char>>>) -> (res: Option<Vec<usize>>)
    requires
        lines_hold(lines@, ls),
        end <= lines@.len(),
    ensures
        match res {
            Some(v) => find_step_lines(ls, start as int, end as int) == Some(v@.map_values(|l: usize| l as int)),
            None => find_step_lines(ls, start as int, end as int) is None,
        },
{
    let steps_key_line = match steps_key_exec(lines, start, end, Ghost(ls)) {
        Some(j) => j,
        None => return None,
    };
    let item_indent = match indent_after_exec(lines, steps_key_line, Ghost(ls)) {
        Some(n) => n,
        None => return None,
    };
    let first_is_item = match next_nonblank_exec(lines, steps_key_line + 1, end, Ghost(ls)) {
        Some(j) => is_item(lines[j].as_slice()),
        None => false,
    };
    if !first_is_item {
        let empty: Vec<usize> = Vec::new();
        assert(empty@.map_values(|l: usize| l as int) =~= Seq::<int>::empty());
        return Some(empty);
    }
    Some(step_items_exec(lines, steps_key_line + 1, end, item_indent, Ghost(ls)))
}

impl LineIndex {
    /// Indexes the job and step lines of a workflow text.
    pub fn build(content: &str) -> (res: LineIndex)
        ensures
            res@ == line_index_of(content@),
    {
        let cs = chars_of(content);
        let lines = split_lines(cs.as_slice());
        let ghost ls = text_lines(content@);
        assert(lines_hold(lines@, ls));
        let mut entries: Vec<JobLines> = Vec::new();
        let jobs_key: Vec<char> = chars_of("jobs");
        let jobs_key_line = match find_top_level_key_line(&lines, jobs_key.as_slice(), Ghost(ls)) {
            Some(j) => j,
            None => {
                let res = LineIndex { entries };
                assert(res@ =~= line_index_of(content@));
                return res;
            },
        };
        assert(jobs_key_line < lines@.len()) by {
            lemma_top_key_line(ls, "jobs"@, 0);
        }
        let nlines = lines.len();
        let job_indent = match indent_after_exec(&lines, jobs_key_line, Ghost(ls)) {
            Some(n) => n,
            None => {
                let res = LineIndex { entries };
                assert(res@ =~= line_index_of(content@));
                return res;
            },
        };
        let found = find_mapping_entries(&lines, jobs_key_line + 1, job_indent, Ghost(ls));
        let ghost spec_entries = mapping_entries_from(ls, jobs_key_line + 1, job_indent as nat);
        proof {
            lemma_mapping_entries_bounds(ls, jobs_key_line + 1, job_indent as nat);
        }
        let mut k: usize = 0;
        while k < found.len()
            invariant
                lines_hold(lines@, ls),
                found@.len() == spec_entries.len(),
                forall|m: int| 0 <= m < found@.len() ==> {
                    let e = #[trigger] found@[m];
                    let s = spec_entries[m];
                    e.0@ == s.0 && e.1 as int == s.1 && e.2 as int == s.2
                },
                forall|m: int| 0 <= m < spec_entries.len() ==> #[trigger] spec_entries[m].1 < ls.len() && spec_entries[m].2 <= ls.len(),
                k <= found@.len(),
                ls.len() == nlines,
                (LineIndex { entries })@ == spec_entries.take(k as int).map_values(
                    |e: (Seq<char>, int, int)| index_entry(ls, e),
                ),
            decreases found@.len() - k,
        {
            let (id_chars, start, end) = &found[k];
            assert(found@[k as int].2 as int == spec_entries[k as int].2);
            assert(spec_entries[k as int].2 <= ls.len());
            let found_steps = find_step_lines_exec(&lines, *start, *end, Ghost(ls));
            let ghost spec_steps = find_step_lines(ls, *start as int, *end as int);
            proof {
                lemma_find_step_lines_bounds(ls, *start as int, *end as int);
            }
            let step_lines = match found_steps {
                Some(v) => {
                    let ghost sv = spec_steps->0;
                    assert(sv == v@.map_values(|l: usize| l as int));
                    assert forall|x: int| 0 <= x < v@.len() implies v@[x] < ls.len() by {
                        assert(sv[x] == v@[x] as int);
                        assert(sv[x] < *end as int);
                    }
                    let mut shifted: Vec<usize> = Vec::new();
                    let mut m: usize = 0;
                    while m < v.len()
                        invariant
                            m <= v@.len(),
                            forall|x: int| 0 <= x < v@.len() ==> v@[x] < ls.len(),
                            ls.len() == nlines,
                            shifted@.len() == m,
                            forall|x: int| 0 <= x < m ==> #[trigger] shifted@[x] == v@[x] + 1,
                        decreases v@.len() - m,
                    {
                        shifted.push(v[m] + 1);
                        m += 1;
                    }
                    assert(shifted@.map_values(|l: usize| l as int) =~= sv.map_values(|l: int| l + 1));
                    Some(shifted)
                },
                None => None,
            };
            let ghost before = (LineIndex { entries })@;
            let job = JobLines { id: string_of(id_chars.as_slice()), line: *start + 1, step_lines };
            entries.push(job);
            proof {
                let f = |e: (Seq<char>, int, int)| index_entry(ls, e);
                assert((LineIndex { entries })@ =~= before.push(index_entry(ls, spec_entries[k as int])));
                assert(spec_entries.take(k + 1) =~= spec_entries.take(k as int).push(spec_entries[k as int]));
                assert(spec_entries.take(k + 1).map_values(f) =~= spec_entries.take(k as int).map_values(f).push(f(spec_entries[k as int])));
            }
            k += 1;
        }
        let res = LineIndex { entries };
        assert(spec_entries.take(found@.len() as int) =~= spec_entries);
        res
    }

    /// The line of the job named `job_id`, if it was found.
    pub fn job_line(&self, job_id: &str) -> (res: Option<usize>)
        ensures
            match res {
                Some(l) => job_line_of(self@, job_id@) == Some(l as int),
                None => job_line_of(self@, job_id@) is None,
            },
    {
        let mut k = self.entries.len();
        assert(self@.take(k as int) =~= self@);
        while k > 0
            invariant
                k <= self.entries@.len(),
                self@.len() == self.entries@.len(),
                job_line_of(self@, job_id@) == job_line_of(self@.take(k as int), job_id@),
            decreases k,
        {
            assert(self@.take(k as int).drop_last() =~= self@.take(k - 1));
            let e = &self.entries[k - 1];
            assert(self@.take(k as int).last() == self@[k - 1]);
            if crate::text::str_eq(e.id.as_str(), job_id) {
                return Some(e.line);
            }
            k -= 1;
        }
        None
    }

    /// The line of step `step_index` of the job named `job_id`, if found.
    pub fn step_line(&self, job_id: &str, step_index: usize) -> (res: Option<usize>)
        ensures
            match res {
                Some(l) => step_line_of(self@, job_id@, step_index as int) == Some(l as int),
                None => step_line_of(self@, job_id@, step_index as int) is None,
            },
    {
        let mut k = self.entries.len();
        assert(self@.take(k as int) =~= self@);
        while k > 0
            invariant
                k <= self.entries@.len(),
                self@.len() == self.entries@.len(),
                step_lines_of(self@, job_id@) == step_lines_of(self@.take(k as int), job_id@),
            decreases k,
        {
            assert(self@.take(k as int).drop_last() =~= self@.take(k - 1));
            let e = &self.entries[k - 1];
            assert(self@.take(k as int).last() == self@[k - 1]);
            if crate::text::str_eq(e.id.as_str(), job_id) {
                if let Some(lines) = &e.step_lines {
                    if step_index < lines.len() {
                        return Some(lines[step_index]);
                    } else {
                        return None;
                    }
                }
            }
            k -= 1;
        }
        None
    }
}

/// Every entry found starts inside the text and ends at most at its end.
pub proof fn lemma_mapping_entries_bounds(lines: Seq<Seq<char>>, i: int, indent: nat)
    requires
        0 <= i,
    ensures
        forall|m: int|
            0 <= m < mapping_entries_from(lines, i, indent).len() ==> {
                let e = #[trigger] mapping_entries_from(lines, i, indent)[m];
                0 <= e.1 < lines.len() && e.2 <= lines.len()
            },
    decreases lines.len() - i,
{
    let all = mapping_entries_from(lines, i, indent);
    if 0 <= i < lines.len() {
        if is_blank(lines[i]) {
            lemma_mapping_entries_bounds(lines, i + 1, indent);
            assert(all == mapping_entries_from(lines, i + 1, indent));
        } else if leading_space_count(lines[i]) < indent {
            assert(all.len() == 0);
        } else if leading_space_count(lines[i]) == indent && mapping_key(lines[i]) is Some {
            let end = entry_end(lines, i + 1, indent);
            lemma_entry_end(lines, i + 1, indent);
            lemma_mapping_entries_bounds(lines, end, indent);
            let rest = mapping_entries_from(lines, end, indent);
            assert(all == seq![(mapping_key(lines[i])->0, i, end)] + rest);
            assert forall|m: int| 0 <= m < all.len() implies {
                let e = #[trigger] all[m];
                0 <= e.1 < lines.len() && e.2 <= lines.len()
            } by {
                if m > 0 {
                    assert(all[m] == rest[m - 1]);
                } else {
                    assert(all[0] == (mapping_key(lines[i])->0, i, end));
                }
            }
        } else {
            lemma_mapping_entries_bounds(lines, i + 1, indent);
            assert(all == mapping_entries_from(lines, i + 1, indent));
        }
    } else {
        assert(all.len() == 0);
    }
}

/// The step items found lie before the block's end.
pub proof fn lemma_step_items_bounds(lines: Seq<Seq<char>>, i: int, end: int, indent: nat)
    ensures
        forall|m: int|
            0 <= m < step_items_from(lines, i, end, indent).len() ==> #[trigger] step_items_from(
                lines,
                i,
                end,
                indent,
            )[m] < end,
    decreases end - i,
{
    let all = step_items_from(lines, i, end, indent);
    if 0 <= i < end && i < lines.len() {
        lemma_step_items_bounds(lines, i + 1, end, indent);
        let rest = step_items_from(lines, i + 1, end, indent);
        if is_blank(lines[i]) {
            assert(all == rest);
        } else if leading_space_count(lines[i]) < indent {
            assert(all.len() == 0);
        } else if leading_space_count(lines[i]) == indent && is_item_line(lines[i]) {
            assert(all == seq![i] + rest);
            assert forall|m: int| 0 <= m < all.len() implies #[trigger] all[m] < end by {
                if m > 0 {
                    assert(all[m] == rest[m - 1]);
                }
            }
        } else {
            assert(all == rest);
        }
    } else {
        assert(all.len() == 0);
    }
}

/// The step lines found lie before the block's end.
pub proof fn lemma_find_step_lines_bounds(lines: Seq<Seq<char>>, start: int, end: int)
    ensures
        find_step_lines(lines, start, end) matches Some(s) ==> forall|m: int|
            0 <= m < s.len() ==> #[trigger] s[m] < end,
{
    if let Some(sk) = steps_key_in(lines, start, end) {
        if let Some(ind) = indent_after(lines, sk) {
            lemma_step_items_bounds(lines, sk + 1, end, ind);
        }
    }
}

/// What `top_key_line` finds lies in the text.
pub proof fn lemma_top_key_line(lines: Seq<Seq<char>>, key: Seq<char>, from: int)
    requires
        0 <= from,
    ensures
        top_key_line(lines, key, from) matches Some(i) ==> from <= i < lines.len(),
    decreases lines.len() - from,
{
    if from < lines.len() {
        lemma_top_key_line(lines, key, from + 1);
    }
}

/// The step items found increase and lie in `[i, end)` inside the text.
proof fn lemma_step_items_order(lines: Seq<Seq<char>>, i: int, end: int, indent: nat)
    requires
        0 <= i,
    ensures
        forall|m: int|
            0 <= m < step_items_from(lines, i, end, indent).len() ==> i <= #[trigger] step_items_from(
                lines,
                i,
                end,
                indent,
            )[m] && step_items_from(lines, i, end, indent)[m] < end
                && step_items_from(lines, i, end, indent)[m] < lines.len(),
        forall|m: int, n: int|
            0 <= m < n < step_items_from(lines, i, end, indent).len() ==> #[trigger] step_items_from(
                lines,
                i,
                end,
                indent,
            )[m] < #[trigger] step_items_from(lines, i, end, indent)[n],
    decreases end - i,
{
    let all = step_items_from(lines, i, end, indent);
    if 0 <= i < end && i < lines.len() {
        lemma_step_items_order(lines, i + 1, end, indent);
        let rest = step_items_from(lines, i + 1, end, indent);
        if is_blank(lines[i]) {
            assert(all == rest);
        } else if leading_space_count(lines[i]) < indent {
            assert(all.len() == 0);
        } else if leading_space_count(lines[i]) == indent && is_item_line(lines[i]) {
            assert(all == seq![i] + rest);
            assert forall|m: int| 0 <= m < all.len() implies i <= #[trigger] all[m] && all[m]
                < end && all[m] < lines.len() by {
                if m > 0 {
                    assert(all[m] == rest[m - 1]);
                }
            }
            assert forall|m: int, n: int| 0 <= m < n < all.len() implies #[trigger] all[m]
                < #[trigger] all[n] by {
                assert(all[n] == rest[n - 1]);
                if m > 0 {
                    assert(all[m] == rest[m - 1]);
                }
            }
        } else {
            assert(all == rest);
        }
    } else {
        assert(all.len() == 0);
    }
}

/// What `steps_key_in` finds lies in `[i, end)`.
proof fn lemma_steps_key_in(lines: Seq<Seq<char>>, i: int, end: int)
    ensures
        steps_key_in(lines, i, end) matches Some(k) ==> i <= k < end,
    decreases end - i,
{
    if 0 <= i < end && i < lines.len() {
        lemma_steps_key_in(lines, i + 1, end);
    }
}

/// The entries found start at or after `i`, in increasing order.
proof fn lemma_mapping_entries_order(lines: Seq<Seq<char>>, i: int, indent: nat)
    requires
        0 <= i,
    ensures
        forall|m: int|
            0 <= m < mapping_entries_from(lines, i, indent).len() ==> i <= (
            #[trigger] mapping_entries_from(lines, i, indent)[m]).1,
        forall|m: int, n: int|
            0 <= m < n < mapping_entries_from(lines, i, indent).len() ==> (
            #[trigger] mapping_entries_from(lines, i, indent)[m]).1 < (
            #[trigger] mapping_entries_from(lines, i, indent)[n]).1,
    decreases lines.len() - i,
{
    let all = mapping_entries_from(lines, i, indent);
    if 0 <= i < lines.len() {
        if is_blank(lines[i]) {
            lemma_mapping_entries_order(lines, i + 1, indent);
            assert(all == mapping_entries_from(lines, i + 1, indent));
        } else if leading_space_count(lines[i]) < indent {
            assert(all.len() == 0);
        } else if leading_space_count(lines[i]) == indent && mapping_key(lines[i]) is Some {
            let end = entry_end(lines, i + 1, indent);
            lemma_entry_end(lines, i + 1, indent);
            lemma_mapping_entries_order(lines, end, indent);
            let rest = mapping_entries_from(lines, end, indent);
            assert(all == seq![(mapping_key(lines[i])->0, i, end)] + rest);
            assert forall|m: int| 0 <= m < all.len() implies i <= (#[trigger] all[m]).1 by {
                if m > 0 {
                    assert(all[m] == rest[m - 1]);
                }
            }
            assert forall|m: int, n: int| 0 <= m < n < all.len() implies (#[trigger] all[m]).1 < (
            #[trigger] all[n]).1 by {
                assert(all[n] == rest[n - 1]);
                if m > 0 {
                    assert(all[m] == rest[m - 1]);
                }
            }
        } else {
            lemma_mapping_entries_order(lines, i + 1, indent);
            assert(all == mapping_entries_from(lines, i + 1, indent));
        }
    } else {
        assert(all.len() == 0);
    }
}

/// Whether an index lists its jobs in document order, and each job's
/// steps in document order after the job's own line, every line 1-based,
/// below the `jobs:` line (so at least 2) and within a text of `n` lines.
pub open spec fn in_document_order(idx: Seq<(Seq<char>, int, Option<Seq<int>>)>, n: int) -> bool {
    &&& forall|m: int, k: int| 0 <= m < k < idx.len() ==> (#[trigger] idx[m]).1 < (
    #[trigger] idx[k]).1
    &&& forall|m: int| 0 <= m < idx.len() ==> 2 <= (#[trigger] idx[m]).1 <= n
    &&& forall|m: int, a: int|
        0 <= m < idx.len() && (#[trigger] idx[m]).2 is Some && 0 <= a < idx[m].2->0.len() ==> idx[m].1
            < #[trigger] idx[m].2->0[a] <= n
    &&& forall|m: int, a: int, b: int|
        0 <= m < idx.len() && (#[trigger] idx[m]).2 is Some && 0 <= a < b < idx[m].2->0.len()
            ==> #[trigger] idx[m].2->0[a] < #[trigger] idx[m].2->0[b]
}

/// Law: the line index lists jobs in the order they appear, and each job's
/// steps in the order they appear, after the job's own line; every line it
/// gives is 1-based and lies within the text.
pub proof fn lemma_index_in_document_order(content: Seq<char>)
    ensures
        in_document_order(line_index_of(content), text_lines(content).len() as int),
{
    let lines = text_lines(content);
    let n = lines.len() as int;
    let idx = line_index_of(content);
    lemma_top_key_line(lines, "jobs"@, 0);
    match top_key_line(lines, "jobs"@, 0) {
        None => {},
        Some(jk) => match indent_after(lines, jk) {
            None => {},
            Some(ind) => {
                let es = mapping_entries_from(lines, jk + 1, ind);
                lemma_mapping_entries_order(lines, jk + 1, ind);
                lemma_mapping_entries_bounds(lines, jk + 1, ind);
                assert(idx == es.map_values(|e: (Seq<char>, int, int)| index_entry(lines, e)));
                assert forall|m: int| 0 <= m < idx.len() implies idx[m] == index_entry(
                    lines,
                    #[trigger] es[m],
                ) by {}
                assert forall|m: int| 0 <= m < idx.len() implies ({
                    let e = #[trigger] es[m];
                    let fs = find_step_lines(lines, e.1, e.2);
                    fs matches Some(s) ==> (forall|a: int|
                        0 <= a < s.len() ==> e.1 < #[trigger] s[a] < n) && (forall|a: int, b: int|
                        0 <= a < b < s.len() ==> #[trigger] s[a] < #[trigger] s[b])
                }) by {
                    let e = es[m];
                    lemma_steps_key_in(lines, e.1, e.2);
                    if let Some(sk) = steps_key_in(lines, e.1, e.2) {
                        if let Some(ind2) = indent_after(lines, sk) {
                            lemma_step_items_order(lines, sk + 1, e.2, ind2);
                        }
                    }
                }
                assert forall|m: int, a: int|
                    0 <= m < idx.len() && (#[trigger] idx[m]).2 is Some && 0 <= a < idx[m].2->0.len()
                        implies idx[m].1 < #[trigger] idx[m].2->0[a] <= n by {
                    let e = es[m];
                    let s = find_step_lines(lines, e.1, e.2)->0;
                    assert(idx[m].2->0 == s.map_values(|l: int| l + 1));
                    assert(idx[m].2->0[a] == s[a] + 1);
                }
                assert forall|m: int, a: int, b: int|
                    0 <= m < idx.len() && (#[trigger] idx[m]).2 is Some && 0 <= a < b
                        < idx[m].2->0.len() implies #[trigger] idx[m].2->0[a]
                        < #[trigger] idx[m].2->0[b] by {
                    let e = es[m];
                    let s = find_step_lines(lines, e.1, e.2)->0;
                    assert(idx[m].2->0 == s.map_values(|l: int| l + 1));
                    assert(idx[m].2->0[a] == s[a] + 1);
                    assert(idx[m].2->0[b] == s[b] + 1);
                }
                assert forall|m: int, k: int| 0 <= m < k < idx.len() implies (
                #[trigger] idx[m]).1 < (#[trigger] idx[k]).1 by {
                    assert(idx[m].1 == es[m].1 + 1);
                    assert(idx[k].1 == es[k].1 + 1);
                }
                assert forall|m: int| 0 <= m < idx.len() implies 2 <= (#[trigger] idx[m]).1 <= n by {
                    assert(idx[m].1 == es[m].1 + 1);
                    assert(jk + 1 <= es[m].1);
                }
            },
        },
    }
}

/// What `job_line_of` finds is the line of an entry with that id, and it
/// finds one whenever such an entry exists.
proof fn lemma_job_line_of(entries: Seq<(Seq<char>, int, Option<Seq<int>>)>, id: Seq<char>)
    ensures
        job_line_of(entries, id) matches Some(l) ==> exists|m: int|
            0 <= m < entries.len() && (#[trigger] entries[m]).0 == id && entries[m].1 == l,
        (exists|m: int| 0 <= m < entries.len() && (#[trigger] entries[m]).0 == id)
            ==> job_line_of(entries, id) is Some,
    decreases entries.len(),
{
    if entries.len() > 0 {
        let init = entries.drop_last();
        lemma_job_line_of(init, id);
        if entries.last().0 != id {
            if let Some(l) = job_line_of(init, id) {
                let m = choose|m: int| 0 <= m < init.len() && (#[trigger] init[m]).0 == id && init[m].1 == l;
                assert(entries[m] == init[m]);
            }
            if exists|m: int| 0 <= m < entries.len() && (#[trigger] entries[m]).0 == id {
                let m = choose|m: int| 0 <= m < entries.len() && (#[trigger] entries[m]).0 == id;
                assert(init[m] == entries[m]);
            }
        } else {
            assert(entries[entries.len() - 1] == entries.last());
        }
    }
}

/// What `step_lines_of` finds are the step lines of an entry with that id.
proof fn lemma_step_lines_of(entries: Seq<(Seq<char>, int, Option<Seq<int>>)>, id: Seq<char>)
    ensures
        step_lines_of(entries, id) matches Some(s) ==> exists|m: int|
            0 <= m < entries.len() && (#[trigger] entries[m]).0 == id && entries[m].2 == Some(s),
    decreases entries.len(),
{
    if entries.len() > 0 {
        let init = entries.drop_last();
        lemma_step_lines_of(init, id);
        if entries.last().0 == id && entries.last().2 is Some {
            assert(entries[entries.len() - 1] == entries.last());
        } else if let Some(s) = step_lines_of(init, id) {
            let m = choose|m: int| 0 <= m < init.len() && (#[trigger] init[m]).0 == id && init[m].2 == Some(s);
            assert(entries[m] == init[m]);
        }
    }
}

/// Law: in the index of a text of `n` lines, a job's line lies in `2..=n`;
/// a step's line lies in `2..=n`, its job has a line too, and it comes after
/// the line of the step before it; and a text without a top-level `jobs:`
/// key gives no lines at all.
pub proof fn lemma_index_lines(content: Seq<char>, id: Seq<char>, k: int)
    ensures
        job_line_of(line_index_of(content), id) matches Some(l) ==> 2 <= l <= text_lines(
            content,
        ).len(),
        step_line_of(line_index_of(content), id, k) matches Some(m) ==> {
            &&& job_line_of(line_index_of(content), id) is Some
            &&& 2 <= m <= text_lines(content).len()
            &&& k > 0 ==> (step_line_of(line_index_of(content), id, k - 1) matches Some(p) && p < m)
        },
        top_key_line(text_lines(content), "jobs"@, 0) is None ==> line_index_of(content).len() == 0,
{
    let idx = line_index_of(content);
    let n = text_lines(content).len() as int;
    lemma_index_in_document_order(content);
    lemma_job_line_of(idx, id);
    lemma_step_lines_of(idx, id);
    if let Some(l) = job_line_of(idx, id) {
        let m = choose|m: int| 0 <= m < idx.len() && (#[trigger] idx[m]).0 == id && idx[m].1 == l;
        assert(2 <= idx[m].1 <= n);
    }
    if let Some(s) = step_lines_of(idx, id) {
        let m = choose|m: int| 0 <= m < idx.len() && (#[trigger] idx[m]).0 == id && idx[m].2 == Some(s);
        if 0 <= k < s.len() {
            assert(idx[m].2 is Some);
            assert(idx[m].1 < idx[m].2->0[k] <= n);
            assert(2 <= idx[m].1);
            if k > 0 {
                assert(idx[m].2->0[k - 1] < idx[m].2->0[k]);
            }
        }
    }
}

} // verus!
