//! Character-level text operations used by the parser and the analyzers.
//!
//! Strings are specified by their views (`Seq<char>`); every operation here
//! is stated against a short spec function over those sequences.

use vstd::prelude::*;

verus! {

/// `c` is a white-space character in the sense of Unicode's `White_Space`
/// property, the set that `char::is_whitespace` tests.
pub open spec fn is_ws(c: char) -> bool {
    ||| ('\t' <= c && c <= '\r')
    ||| c == ' '
    ||| c == '\u{85}'
    ||| c == '\u{a0}'
    ||| c == '\u{1680}'
    ||| ('\u{2000}' <= c && c <= '\u{200a}')
    ||| c == '\u{2028}'
    ||| c == '\u{2029}'
    ||| c == '\u{202f}'
    ||| c == '\u{205f}'
    ||| c == '\u{3000}'
}

/// `needle` occurs in `hay` starting at position `i`.
pub open spec fn occurs_at(hay: Seq<char>, needle: Seq<char>, i: int) -> bool {
    0 <= i && i + needle.len() <= hay.len() && hay.subrange(i, i + needle.len()) == needle
}

/// `needle` occurs somewhere in `hay` (the empty needle occurs in every text).
pub open spec fn contains_seq(hay: Seq<char>, needle: Seq<char>) -> bool {
    exists|i: int| occurs_at(hay, needle, i)
}

/// `hay` begins with `prefix`.
pub open spec fn starts_with(hay: Seq<char>, prefix: Seq<char>) -> bool {
    occurs_at(hay, prefix, 0)
}

/// A text that contains `needle` contains every prefix of it.
pub proof fn lemma_contains_prefix(hay: Seq<char>, needle: Seq<char>, prefix: Seq<char>)
    requires
        contains_seq(hay, needle),
        starts_with(needle, prefix),
    ensures
        contains_seq(hay, prefix),
{
    let i = choose|i: int| occurs_at(hay, needle, i);
    assert(hay.subrange(i, i + prefix.len()) =~= needle.subrange(0, prefix.len() as int));
    assert(occurs_at(hay, prefix, i));
}

/// Joined parts contain each part.
pub proof fn lemma_join_contains(parts: Seq<Seq<char>>, sep: Seq<char>, i: int)
    requires
        0 <= i < parts.len(),
    ensures
        contains_seq(join_seq(parts, sep), parts[i]),
    decreases parts.len(),
{
    let j = join_seq(parts, sep);
    if parts.len() == 1 {
        assert(j.subrange(0, parts[0].len() as int) =~= parts[0]);
        assert(occurs_at(j, parts[i], 0));
    } else {
        let init = parts.drop_last();
        let a = join_seq(init, sep);
        assert(j == a + sep + parts.last());
        if i == parts.len() - 1 {
            let at: int = (a.len() + sep.len()) as int;
            assert(j.subrange(at, at + parts[i].len()) =~= parts[i]);
            assert(occurs_at(j, parts[i], at));
        } else {
            assert(init[i] == parts[i]);
            lemma_join_contains(init, sep, i);
            let at = choose|at: int| occurs_at(a, parts[i], at);
            assert(j.subrange(at, at + parts[i].len()) =~= a.subrange(at, at + parts[i].len()));
            assert(occurs_at(j, parts[i], at));
        }
    }
}

/// Position of the first `c` in `s`.
pub open spec fn first_index_of(s: Seq<char>, c: char) -> Option<int>
    decreases s.len(),
{
    if s.len() == 0 {
        None
    } else if s[0] == c {
        Some(0)
    } else {
        match first_index_of(s.drop_first(), c) {
            Some(i) => Some(i + 1),
            None => None,
        }
    }
}

/// Position of the last `c` in `s`.
pub open spec fn last_index_of(s: Seq<char>, c: char) -> Option<int>
    decreases s.len(),
{
    if s.len() == 0 {
        None
    } else if s.last() == c {
        Some(s.len() - 1)
    } else {
        last_index_of(s.drop_last(), c)
    }
}

/// `s` without its leading white space.
pub open spec fn trim_start_ws(s: Seq<char>) -> Seq<char>
    decreases s.len(),
{
    if s.len() > 0 && is_ws(s[0]) {
        trim_start_ws(s.drop_first())
    } else {
        s
    }
}

/// `s` without its trailing white space.
pub open spec fn trim_end_ws(s: Seq<char>) -> Seq<char>
    decreases s.len(),
{
    if s.len() > 0 && is_ws(s.last()) {
        trim_end_ws(s.drop_last())
    } else {
        s
    }
}

/// `s` without leading and trailing white space.
pub open spec fn trim_ws(s: Seq<char>) -> Seq<char> {
    trim_end_ws(trim_start_ws(s))
}

/// `s` without its leading copies of `c`.
pub open spec fn trim_start_char(s: Seq<char>, c: char) -> Seq<char>
    decreases s.len(),
{
    if s.len() > 0 && s[0] == c {
        trim_start_char(s.drop_first(), c)
    } else {
        s
    }
}

/// `s` without its trailing copies of `c`.
pub open spec fn trim_end_char(s: Seq<char>, c: char) -> Seq<char>
    decreases s.len(),
{
    if s.len() > 0 && s.last() == c {
        trim_end_char(s.drop_last(), c)
    } else {
        s
    }
}

/// `s` without leading and trailing copies of `c`.
pub open spec fn trim_char(s: Seq<char>, c: char) -> Seq<char> {
    trim_end_char(trim_start_char(s, c), c)
}

/// The number of leading `' '` characters of `s`.
pub open spec fn leading_space_count(s: Seq<char>) -> nat
    decreases s.len(),
{
    if s.len() > 0 && s[0] == ' ' {
        1 + leading_space_count(s.drop_first())
    } else {
        0
    }
}

/// `parts` joined with `sep` between neighbours.
pub open spec fn join_seq(parts: Seq<Seq<char>>, sep: Seq<char>) -> Seq<char>
    decreases parts.len(),
{
    if parts.len() == 0 {
        Seq::empty()
    } else if parts.len() == 1 {
        parts[0]
    } else {
        join_seq(parts.drop_last(), sep) + sep + parts.last()
    }
}

/// What `str::to_lowercase` returns for a string with these characters.
pub uninterp spec fn lowercase(s: Seq<char>) -> Seq<char>;

/// Calls `str::to_lowercase`. Its result is named `lowercase` of the
/// argument's characters: the Unicode lower-case mapping, which depends on
/// the argument alone. Nothing more is claimed of it.
#[verifier::external_body]
pub(crate) fn to_lowercase(s: &str) -> (res: String)
    ensures
        res@ == lowercase(s@),
{
    s.to_lowercase()
}

/// What `<str as Debug>::fmt` writes for a string with these characters:
/// the text in double quotes, with quotes, backslashes, control and
/// non-printable characters escaped.
pub uninterp spec fn debug_quoted(s: Seq<char>) -> Seq<char>;

/// Formats a string with `{:?}` (`<str as Debug>::fmt`). Its result is
/// named `debug_quoted` of the argument's characters, which depends on them
/// alone; the escaping rules are not restated.
#[verifier::external_body]
pub(crate) fn debug_str(s: &str) -> (res: String)
    ensures
        res@ == debug_quoted(s@),
{
    format!("{:?}", s)
}

/// Calls `String::push`, which appends one character.
#[verifier::external_body]
pub(crate) fn push_char(s: &mut String, c: char)
    ensures
        final(s)@ == old(s)@.push(c),
{
    s.push(c)
}

/// The characters of `s`, in order.
pub fn chars_of(s: &str) -> (res: Vec<char>)
    ensures
        res@ == s@,
{
    let mut res: Vec<char> = Vec::new();
    for c in it: s.chars()
        invariant
            res@ == it.seq().take(it.index() as int),
            it.seq() == s@,
    {
        res.push(c);
    }
    res
}

/// A `String` holding the characters `cs[from..to]`.
pub fn string_of_range(cs: &[char], from: usize, to: usize) -> (res: String)
    requires
        from <= to <= cs@.len(),
    ensures
        res@ == cs@.subrange(from as int, to as int),
{
    let mut res = String::new();
    let mut i = from;
    while i < to
        invariant
            from <= i <= to <= cs@.len(),
            res@ == cs@.subrange(from as int, i as int),
        decreases to - i,
    {
        push_char(&mut res, cs[i]);
        assert(cs@.subrange(from as int, i + 1) =~= cs@.subrange(from as int, i as int).push(
            cs@[i as int],
        ));
        i += 1;
    }
    res
}

/// A `String` holding the characters `cs`.
pub fn string_of(cs: &[char]) -> (res: String)
    ensures
        res@ == cs@,
{
    let res = string_of_range(cs, 0, cs.len());
    assert(cs@.subrange(0, cs@.len() as int) =~= cs@);
    res
}

/// A copy of `cs[from..to]`.
pub fn copy_range(cs: &[char], from: usize, to: usize) -> (res: Vec<char>)
    requires
        from <= to <= cs@.len(),
    ensures
        res@ == cs@.subrange(from as int, to as int),
{
    let mut res: Vec<char> = Vec::new();
    let mut i = from;
    while i < to
        invariant
            from <= i <= to <= cs@.len(),
            res@ == cs@.subrange(from as int, i as int),
        decreases to - i,
    {
        res.push(cs[i]);
        assert(cs@.subrange(from as int, i + 1) =~= cs@.subrange(from as int, i as int).push(
            cs@[i as int],
        ));
        i += 1;
    }
    res
}

/// Whether `c` is white space (`char::is_whitespace`).
pub fn char_is_ws(c: char) -> (res: bool)
    ensures
        res == is_ws(c),
{
    ('\t' <= c && c <= '\r') || c == ' ' || c == '\u{85}' || c == '\u{a0}' || c == '\u{1680}'
        || ('\u{2000}' <= c && c <= '\u{200a}') || c == '\u{2028}' || c == '\u{2029}' || c
        == '\u{202f}' || c == '\u{205f}' || c == '\u{3000}'
}

/// Whether `needle` occurs in `hay` at position `i`.
pub fn occurs_at_exec(hay: &[char], needle: &[char], i: usize) -> (res: bool)
    ensures
        res == occurs_at(hay@, needle@, i as int),
{
    if i > hay.len() || needle.len() > hay.len() - i {
        return false;
    }
    let mut k: usize = 0;
    while k < needle.len()
        invariant
            i + needle@.len() <= hay@.len(),
            hay@.len() <= usize::MAX,
            k <= needle@.len(),
            forall|j: int| 0 <= j < k ==> hay@[i + j] == needle@[j],
        decreases needle.len() - k,
    {
        if hay[i + k] != needle[k] {
            assert(hay@.subrange(i as int, i + needle@.len())[k as int] != needle@[k as int]);
            return false;
        }
        k += 1;
    }
    assert(hay@.subrange(i as int, i + needle@.len()) =~= needle@);
    true
}

/// Whether `needle` occurs in `hay` (`str::contains` on characters).
pub fn contains_chars(hay: &[char], needle: &[char]) -> (res: bool)
    ensures
        res == contains_seq(hay@, needle@),
{
    if needle.len() > hay.len() {
        assert(forall|i: int| !#[trigger] occurs_at(hay@, needle@, i));
        return false;
    }
    let last = hay.len() - needle.len();
    let mut i: usize = 0;
    loop
        invariant
            last == hay@.len() - needle@.len(),
            i <= last,
            forall|j: int| 0 <= j < i ==> !#[trigger] occurs_at(hay@, needle@, j),
        ensures
            forall|j: int| 0 <= j <= last ==> !#[trigger] occurs_at(hay@, needle@, j),
        decreases last - i,
    {
        if occurs_at_exec(hay, needle, i) {
            return true;
        }
        if i == last {
            break;
        }
        i += 1;
    }
    assert(forall|j: int| !#[trigger] occurs_at(hay@, needle@, j));
    false
}

/// Whether `needle` occurs in `hay`.
pub fn str_contains(hay: &str, needle: &str) -> (res: bool)
    ensures
        res == contains_seq(hay@, needle@),
{
    let h = chars_of(hay);
    let n = chars_of(needle);
    contains_chars(h.as_slice(), n.as_slice())
}

/// Whether `hay` begins with `prefix`.
pub fn str_starts_with(hay: &str, prefix: &str) -> (res: bool)
    ensures
        res == starts_with(hay@, prefix@),
{
    let h = chars_of(hay);
    let p = chars_of(prefix);
    occurs_at_exec(h.as_slice(), p.as_slice(), 0)
}

/// Whether two texts are equal.
pub fn str_eq(a: &str, b: &str) -> (res: bool)
    ensures
        res == (a@ == b@),
{
    let x = chars_of(a);
    let y = chars_of(b);
    if x.len() != y.len() {
        return false;
    }
    let mut i: usize = 0;
    while i < x.len()
        invariant
            x@ == a@,
            y@ == b@,
            x@.len() == y@.len(),
            i <= x@.len(),
            forall|j: int| 0 <= j < i ==> x@[j] == y@[j],
        decreases x.len() - i,
    {
        if x[i] != y[i] {
            return false;
        }
        i += 1;
    }
    assert(x@ =~= y@);
    true
}

/// Shifts a position found in a suffix back to the whole text.
pub open spec fn shift_index(found: Option<int>, by: int) -> Option<int> {
    match found {
        Some(i) => Some(i + by),
        None => None,
    }
}

/// `l` without one trailing carriage return.
pub open spec fn strip_cr(l: Seq<char>) -> Seq<char> {
    if l.len() > 0 && l.last() == '\r' {
        l.drop_last()
    } else {
        l
    }
}

/// The lines of `s` as `str::lines` yields them: split at `'\n'`, a
/// `'\r'` right before a `'\n'` dropped, no empty line after a final `'\n'`.
pub open spec fn text_lines(s: Seq<char>) -> Seq<Seq<char>>
    decreases s.len(),
{
    if s.len() == 0 {
        Seq::empty()
    } else {
        match first_index_of(s, '\n') {
            Some(i) => {
                proof {
                    lemma_first_index_of(s, '\n');
                }
                seq![strip_cr(s.subrange(0, i))] + text_lines(s.subrange(i + 1, s.len() as int))
            },
            None => seq![s],
        }
    }
}

/// What `first_index_of` finds: the first position holding `c`, or none.
pub proof fn lemma_first_index_of(s: Seq<char>, c: char)
    ensures
        match first_index_of(s, c) {
            Some(i) => 0 <= i < s.len() && s[i] == c && forall|j: int| 0 <= j < i ==> s[j] != c,
            None => forall|j: int| 0 <= j < s.len() ==> s[j] != c,
        },
    decreases s.len(),
{
    if s.len() > 0 && s[0] != c {
        lemma_first_index_of(s.drop_first(), c);
        assert forall|j: int| 0 < j < s.len() implies s[j] == s.drop_first()[j - 1] by {}
    }
}

/// What `last_index_of` finds: the last position holding `c`, or none.
pub proof fn lemma_last_index_of(s: Seq<char>, c: char)
    ensures
        match last_index_of(s, c) {
            Some(i) => 0 <= i < s.len() && s[i] == c && forall|j: int| i < j < s.len() ==> s[j] != c,
            None => forall|j: int| 0 <= j < s.len() ==> s[j] != c,
        },
    decreases s.len(),
{
    if s.len() > 0 && s.last() != c {
        lemma_last_index_of(s.drop_last(), c);
        assert forall|j: int| 0 <= j < s.len() - 1 implies s[j] == s.drop_last()[j] by {}
    }
}

/// Number of leading white-space characters of `cs`.
pub fn ws_prefix_len(cs: &[char]) -> (r: usize)
    ensures
        r <= cs@.len(),
        cs@.subrange(r as int, cs@.len() as int) == trim_start_ws(cs@),
{
    let n = cs.len();
    let mut i: usize = 0;
    assert(cs@.subrange(0, n as int) =~= cs@);
    while i < n && char_is_ws(cs[i])
        invariant
            n == cs@.len(),
            i <= n,
            trim_start_ws(cs@) == trim_start_ws(cs@.subrange(i as int, n as int)),
        decreases n - i,
    {
        assert(cs@.subrange(i as int, n as int).drop_first() =~= cs@.subrange(i + 1, n as int));
        i += 1;
    }
    i
}

/// Length of `cs` once its trailing white space is removed.
pub fn ws_trimmed_end(cs: &[char]) -> (r: usize)
    ensures
        r <= cs@.len(),
        cs@.subrange(0, r as int) == trim_end_ws(cs@),
{
    let mut k: usize = cs.len();
    assert(cs@.subrange(0, k as int) =~= cs@);
    while k > 0 && char_is_ws(cs[k - 1])
        invariant
            k <= cs@.len(),
            trim_end_ws(cs@) == trim_end_ws(cs@.subrange(0, k as int)),
        decreases k,
    {
        assert(cs@.subrange(0, k as int).drop_last() =~= cs@.subrange(0, k - 1));
        k -= 1;
    }
    k
}

/// Number of leading copies of `c` in `cs`.
pub fn char_prefix_len(cs: &[char], c: char) -> (r: usize)
    ensures
        r <= cs@.len(),
        cs@.subrange(r as int, cs@.len() as int) == trim_start_char(cs@, c),
{
    let n = cs.len();
    let mut i: usize = 0;
    assert(cs@.subrange(0, n as int) =~= cs@);
    while i < n && cs[i] == c
        invariant
            n == cs@.len(),
            i <= n,
            trim_start_char(cs@, c) == trim_start_char(cs@.subrange(i as int, n as int), c),
        decreases n - i,
    {
        assert(cs@.subrange(i as int, n as int).drop_first() =~= cs@.subrange(i + 1, n as int));
        i += 1;
    }
    i
}

/// Length of `cs` once its trailing copies of `c` are removed.
pub fn char_trimmed_end(cs: &[char], c: char) -> (r: usize)
    ensures
        r <= cs@.len(),
        cs@.subrange(0, r as int) == trim_end_char(cs@, c),
{
    let mut k: usize = cs.len();
    assert(cs@.subrange(0, k as int) =~= cs@);
    while k > 0 && cs[k - 1] == c
        invariant
            k <= cs@.len(),
            trim_end_char(cs@, c) == trim_end_char(cs@.subrange(0, k as int), c),
        decreases k,
    {
        assert(cs@.subrange(0, k as int).drop_last() =~= cs@.subrange(0, k - 1));
        k -= 1;
    }
    k
}

/// `cs` without its leading white space.
pub fn trim_start_vec(cs: &[char]) -> (res: Vec<char>)
    ensures
        res@ == trim_start_ws(cs@),
{
    let a = ws_prefix_len(cs);
    copy_range(cs, a, cs.len())
}

/// `cs` without leading and trailing white space (`str::trim`).
pub fn trim_vec(cs: &[char]) -> (res: Vec<char>)
    ensures
        res@ == trim_ws(cs@),
{
    let a = trim_start_vec(cs);
    let b = ws_trimmed_end(a.as_slice());
    copy_range(a.as_slice(), 0, b)
}

/// `cs` without leading and trailing copies of `c` (`str::trim_matches`).
pub fn trim_char_vec(cs: &[char], c: char) -> (res: Vec<char>)
    ensures
        res@ == trim_char(cs@, c),
{
    let a = char_prefix_len(cs, c);
    let first = copy_range(cs, a, cs.len());
    let b = char_trimmed_end(first.as_slice(), c);
    copy_range(first.as_slice(), 0, b)
}

/// Number of leading `' '` characters of `cs`.
pub fn leading_spaces(cs: &[char]) -> (r: usize)
    ensures
        r == leading_space_count(cs@),
{
    let n = cs.len();
    let mut i: usize = 0;
    assert(cs@.subrange(0, n as int) =~= cs@);
    while i < n && cs[i] == ' '
        invariant
            n == cs@.len(),
            i <= n,
            leading_space_count(cs@) == i + leading_space_count(cs@.subrange(i as int, n as int)),
        decreases n - i,
    {
        assert(cs@.subrange(i as int, n as int).drop_first() =~= cs@.subrange(i + 1, n as int));
        i += 1;
    }
    i
}

/// Position of the first `c` in `cs`.
pub fn find_char(cs: &[char], c: char) -> (res: Option<usize>)
    ensures
        match res {
            Some(i) => first_index_of(cs@, c) == Some(i as int),
            None => first_index_of(cs@, c) is None,
        },
{
    let n = cs.len();
    let mut i: usize = 0;
    assert(cs@.subrange(0, n as int) =~= cs@);
    while i < n
        invariant
            n == cs@.len(),
            i <= n,
            first_index_of(cs@, c) == shift_index(
                first_index_of(cs@.subrange(i as int, n as int), c),
                i as int,
            ),
        decreases n - i,
    {
        if cs[i] == c {
            return Some(i);
        }
        assert(cs@.subrange(i as int, n as int).drop_first() =~= cs@.subrange(i + 1, n as int));
        i += 1;
    }
    None
}

/// Position of the last `c` in `cs`.
pub fn rfind_char(cs: &[char], c: char) -> (res: Option<usize>)
    ensures
        match res {
            Some(i) => last_index_of(cs@, c) == Some(i as int),
            None => last_index_of(cs@, c) is None,
        },
{
    let mut k: usize = cs.len();
    assert(cs@.subrange(0, k as int) =~= cs@);
    while k > 0
        invariant
            k <= cs@.len(),
            last_index_of(cs@, c) == last_index_of(cs@.subrange(0, k as int), c),
        decreases k,
    {
        if cs[k - 1] == c {
            return Some(k - 1);
        }
        assert(cs@.subrange(0, k as int).drop_last() =~= cs@.subrange(0, k - 1));
        k -= 1;
    }
    None
}

/// `cs` without one trailing carriage return.
pub fn strip_cr_vec(cs: &[char]) -> (res: Vec<char>)
    ensures
        res@ == strip_cr(cs@),
{
    if cs.len() > 0 && cs[cs.len() - 1] == '\r' {
        copy_range(cs, 0, cs.len() - 1)
    } else {
        copy_range(cs, 0, cs.len())
    }
}

/// The lines of a text, as `str::lines` yields them.
pub fn split_lines(cs: &[char]) -> (res: Vec<Vec<char>>)
    ensures
        res@.len() == text_lines(cs@).len(),
        forall|i: int| 0 <= i < res@.len() ==> #[trigger] res@[i]@ == text_lines(cs@)[i],
{
    let n = cs.len();
    let mut res: Vec<Vec<char>> = Vec::new();
    let mut start: usize = 0;
    let ghost done: Seq<Seq<char>> = Seq::empty();
    assert(cs@.subrange(0, n as int) =~= cs@);
    while start < n
        invariant
            n == cs@.len(),
            start <= n,
            res@.len() == done.len(),
            forall|i: int| 0 <= i < res@.len() ==> #[trigger] res@[i]@ == done[i],
            text_lines(cs@) == done + text_lines(cs@.subrange(start as int, n as int)),
        decreases n - start,
    {
        let rest = &cs[start..n];
        assert(rest@ == cs@.subrange(start as int, n as int));
        match find_char(rest, '\n') {
            Some(j) => {
                proof {
                    lemma_first_index_of(rest@, '\n');
                }
                let head = &rest[0..j];
                let line = strip_cr_vec(head);
                proof {
                    assert(rest@.subrange(0, j as int) == head@);
                    assert(rest@.subrange(j + 1, rest@.len() as int) =~= cs@.subrange(
                        start + j + 1,
                        n as int,
                    ));
                    done = done.push(line@);
                    assert(text_lines(rest@) == seq![line@] + text_lines(
                        cs@.subrange(start + j + 1, n as int),
                    ));
                }
                res.push(line);
                start = start + j + 1;
            },
            None => {
                let line = copy_range(rest, 0, rest.len());
                proof {
                    assert(rest@.subrange(0, rest@.len() as int) =~= rest@);
                    done = done.push(line@);
                    assert(cs@.subrange(n as int, n as int) =~= Seq::<char>::empty());
                }
                res.push(line);
                start = n;
            },
        }
    }
    assert(text_lines(cs@.subrange(n as int, n as int)) =~= Seq::<Seq<char>>::empty());
    assert(text_lines(cs@) =~= done);
    res
}

/// `parts` joined with `sep` between neighbours (`[String]::join`).
pub fn join_strings(parts: &Vec<String>, sep: &str) -> (res: String)
    ensures
        res@ == join_seq(parts.deep_view(), sep@),
{
    let mut res = String::new();
    let mut i: usize = 0;
    while i < parts.len()
        invariant
            i <= parts@.len(),
            res@ == join_seq(parts.deep_view().take(i as int), sep@),
        decreases parts@.len() - i,
    {
        proof {
            assert(parts.deep_view().take(i + 1).drop_last() =~= parts.deep_view().take(i as int));
        }
        if i > 0 {
            res.append(sep);
        } else {
            assert(parts.deep_view().take(1) =~= seq![parts@[0]@]);
        }
        res.append(parts[i].as_str());
        i += 1;
    }
    assert(parts.deep_view().take(parts@.len() as int) =~= parts.deep_view());
    res
}

} // verus!
