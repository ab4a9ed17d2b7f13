//! Character-level helpers shared by the parsers of this crate.
//!
//! Text is modelled as `Seq<char>`; executable code works on `Vec<char>` so
//! that every position can be inspected in constant time.

use vstd::prelude::*;
use vstd::string::StringExecFns;

verus! {

/// `String::push` appends exactly the given character.
pub assume_specification[ String::push ](s: &mut String, ch: char)
    ensures
        final(s)@ == old(s)@.push(ch),
;

/// Whether `c` counts as white space: the Unicode property `White_Space`, as
/// `char::is_whitespace` in the standard library decides it.
pub uninterp spec fn is_white_space(c: char) -> bool;

/// `char::is_whitespace` is a function of the character alone.
pub assume_specification[ char::is_whitespace ](c: char) -> (r: bool)
    ensures
        r == is_white_space(c),
;

/// The texts that a list of strings holds, in order.
pub open spec fn texts_of(list: Seq<String>) -> Seq<Seq<char>> {
    list.map_values(|s: String| s@)
}

/// The upper case form of a text, as `str::to_uppercase` in the standard
/// library gives it.
pub uninterp spec fn upper_case(text: Seq<char>) -> Seq<char>;

/// `str::to_uppercase` is a function of the text alone.
pub assume_specification[ str::to_uppercase ](s: &str) -> (r: String)
    ensures
        r@ == upper_case(s@),
;

/// The full name of the member `member` of the variable or member `parent`:
/// the two joined by a dot.
pub open spec fn dotted(parent: Seq<char>, member: Seq<char>) -> Seq<char> {
    parent + seq!['.'] + member
}

/// `pattern` stands in `text` at position `at`.
pub open spec fn occurs_at(text: Seq<char>, pattern: Seq<char>, at: int) -> bool {
    &&& 0 <= at
    &&& at + pattern.len() <= text.len()
    &&& text.subrange(at, at + pattern.len()) == pattern
}

/// `pattern` stands somewhere in `text`.
pub open spec fn contains_text(text: Seq<char>, pattern: Seq<char>) -> bool {
    exists|at: int| occurs_at(text, pattern, at)
}

/// `at` is the leftmost position of `pattern` in `text`.
pub open spec fn is_first_occurrence(text: Seq<char>, pattern: Seq<char>, at: int) -> bool {
    &&& occurs_at(text, pattern, at)
    &&& forall|j: int| 0 <= j < at ==> !occurs_at(text, pattern, j)
}

/// `at` is the rightmost position of `pattern` in `text`.
pub open spec fn is_last_occurrence(text: Seq<char>, pattern: Seq<char>, at: int) -> bool {
    &&& occurs_at(text, pattern, at)
    &&& forall|j: int| at < j ==> !occurs_at(text, pattern, j)
}

/// `text` begins with `prefix`.
pub open spec fn has_prefix(text: Seq<char>, prefix: Seq<char>) -> bool {
    occurs_at(text, prefix, 0)
}

/// `text` ends with `suffix`.
pub open spec fn has_suffix(text: Seq<char>, suffix: Seq<char>) -> bool {
    occurs_at(text, suffix, text.len() - suffix.len())
}

/// `text` without a leading `prefix`; `text` itself where it has none.
pub open spec fn without_prefix(text: Seq<char>, prefix: Seq<char>) -> Seq<char> {
    if has_prefix(text, prefix) {
        text.subrange(prefix.len() as int, text.len() as int)
    } else {
        text
    }
}

/// `text` without a trailing `suffix`; `text` itself where it has none.
pub open spec fn without_suffix(text: Seq<char>, suffix: Seq<char>) -> Seq<char> {
    if has_suffix(text, suffix) {
        text.subrange(0, text.len() - suffix.len())
    } else {
        text
    }
}

/// The characters of `s`, in order.
pub fn chars_of(s: &str) -> (v: Vec<char>)
    ensures
        v@ == s@,
{
    let mut v: Vec<char> = Vec::new();
    for c in it: s.chars()
        invariant
            v@ == it.seq().take(it.index() as int),
            it.seq() == s@,
    {
        v.push(c);
    }
    v
}

/// The string made of the characters of `v`, in order.
pub fn string_of(v: &Vec<char>) -> (s: String)
    ensures
        s@ == v@,
{
    let mut s: String = String::new();
    let mut i: usize = 0;
    while i < v.len()
        invariant
            i <= v.len(),
            s@ == v@.take(i as int),
        decreases v.len() - i,
    {
        s.push(v[i]);
        i = i + 1;
    }
    s
}

/// A copy of the characters of `v` from `from` up to, not including, `to`.
pub fn slice_of(v: &Vec<char>, from: usize, to: usize) -> (r: Vec<char>)
    requires
        from <= to <= v.len(),
    ensures
        r@ == v@.subrange(from as int, to as int),
{
    let mut r: Vec<char> = Vec::new();
    let mut i: usize = from;
    while i < to
        invariant
            from <= i <= to <= v.len(),
            r@ == v@.subrange(from as int, i as int),
        decreases to - i,
    {
        r.push(v[i]);
        i = i + 1;
    }
    r
}

/// Whether two texts hold the same characters.
pub fn same_text(a: &Vec<char>, b: &Vec<char>) -> (r: bool)
    ensures
        r == (a@ == b@),
{
    if a.len() != b.len() {
        return false;
    }
    let mut i: usize = 0;
    while i < a.len()
        invariant
            i <= a.len(),
            a.len() == b.len(),
            forall|j: int| 0 <= j < i ==> a@[j] == b@[j],
        decreases a.len() - i,
    {
        if a[i] != b[i] {
            return false;
        }
        i = i + 1;
    }
    assert(a@ =~= b@);
    true
}

/// Whether `v` spells exactly `literal`.
pub fn is_literal(v: &Vec<char>, literal: &str) -> (r: bool)
    ensures
        r == (v@ == literal@),
{
    let l = chars_of(literal);
    same_text(v, &l)
}

/// Whether `pattern` stands in `text` at position `at`.
pub fn matches_at(text: &Vec<char>, pattern: &Vec<char>, at: usize) -> (r: bool)
    ensures
        r == occurs_at(text@, pattern@, at as int),
{
    if at > text.len() || pattern.len() > text.len() - at {
        return false;
    }
    let mut i: usize = 0;
    while i < pattern.len()
        invariant
            i <= pattern.len(),
            at + pattern.len() <= text.len(),
            forall|j: int| 0 <= j < i ==> text@[at + j] == pattern@[j],
        decreases pattern.len() - i,
    {
        if text[at + i] != pattern[i] {
            return false;
        }
        i = i + 1;
    }
    assert(text@.subrange(at as int, at + pattern.len()) =~= pattern@);
    true
}

/// The leftmost position of `pattern` in `text` at or after `from`.
pub fn find_from(text: &Vec<char>, pattern: &Vec<char>, from: usize) -> (r: Option<usize>)
    ensures
        match r {
            Some(at) => {
                &&& from <= at
                &&& occurs_at(text@, pattern@, at as int)
                &&& forall|j: int| from <= j < at ==> !occurs_at(text@, pattern@, j)
            },
            None => forall|j: int| from <= j ==> !occurs_at(text@, pattern@, j),
        },
{
    let mut i: usize = from;
    while i < text.len()
        invariant
            from <= i,
            forall|j: int| from <= j < i ==> !occurs_at(text@, pattern@, j),
        decreases text.len() - i,
    {
        if matches_at(text, pattern, i) {
            return Some(i);
        }
        i = i + 1;
    }
    if i == text.len() && matches_at(text, pattern, i) {
        return Some(i);
    }
    None
}

/// The leftmost position of `pattern` in `text`.
pub fn find(text: &Vec<char>, pattern: &Vec<char>) -> (r: Option<usize>)
    ensures
        match r {
            Some(at) => is_first_occurrence(text@, pattern@, at as int),
            None => !contains_text(text@, pattern@),
        },
{
    find_from(text, pattern, 0)
}

/// The rightmost position of `pattern` in `text`.
pub fn find_last(text: &Vec<char>, pattern: &Vec<char>) -> (r: Option<usize>)
    ensures
        match r {
            Some(at) => is_last_occurrence(text@, pattern@, at as int),
            None => !contains_text(text@, pattern@),
        },
{
    let mut i: usize = text.len();
    loop
        invariant
            i <= text.len(),
            forall|j: int| i < j ==> !occurs_at(text@, pattern@, j),
        decreases i,
    {
        if matches_at(text, pattern, i) {
            return Some(i);
        }
        if i == 0 {
            return None;
        }
        i = i - 1;
    }
}

/// Whether `pattern` stands somewhere in `text`.
pub fn contains(text: &Vec<char>, pattern: &Vec<char>) -> (r: bool)
    ensures
        r == contains_text(text@, pattern@),
{
    find(text, pattern).is_some()
}

/// `text` without a leading `prefix`.
pub fn strip_prefix(text: Vec<char>, prefix: &Vec<char>) -> (r: Vec<char>)
    ensures
        r@ == without_prefix(text@, prefix@),
{
    if matches_at(&text, prefix, 0) {
        slice_of(&text, prefix.len(), text.len())
    } else {
        text
    }
}

/// `text` without a trailing `suffix`.
pub fn strip_suffix(text: Vec<char>, suffix: &Vec<char>) -> (r: Vec<char>)
    ensures
        r@ == without_suffix(text@, suffix@),
{
    if suffix.len() <= text.len() && matches_at(&text, suffix, text.len() - suffix.len()) {
        slice_of(&text, 0, text.len() - suffix.len())
    } else {
        text
    }
}

/// The number of marked characters that `items` begins with.
pub open spec fn leading_marked(items: Seq<(char, bool)>) -> nat
    decreases items.len(),
{
    if items.len() > 0 && items[0].1 {
        1 + leading_marked(items.drop_first())
    } else {
        0
    }
}

/// The number of marked characters that `items` ends with.
pub open spec fn trailing_marked(items: Seq<(char, bool)>) -> nat
    decreases items.len(),
{
    if items.len() > 0 && items.last().1 {
        1 + trailing_marked(items.drop_last())
    } else {
        0
    }
}

/// The characters of `items` without the marked ones at its start and at
/// its end.
pub open spec fn without_margins(items: Seq<(char, bool)>) -> Seq<char> {
    let from = leading_marked(items);
    let rest = items.subrange(from as int, items.len() as int);
    rest.subrange(0, rest.len() - trailing_marked(rest)).map_values(|item: (char, bool)| item.0)
}

/// The characters of `text`, each marked if it is white space.
pub open spec fn white_marked(text: Seq<char>) -> Seq<(char, bool)> {
    Seq::new(text.len(), |i: int| (text[i], is_white_space(text[i])))
}

/// `text` without the white space around it.
pub open spec fn trimmed(text: Seq<char>) -> Seq<char> {
    without_margins(white_marked(text))
}

/// The part of `text` that follows the rightmost `pattern`; all of `text`
/// where `pattern` does not occur.
pub open spec fn after_last(text: Seq<char>, pattern: Seq<char>) -> Seq<char> {
    if contains_text(text, pattern) {
        let at = choose|at: int| is_last_occurrence(text, pattern, at);
        text.subrange(at + pattern.len(), text.len() as int)
    } else {
        text
    }
}

/// The part of `text` that precedes the leftmost `pattern`; all of `text`
/// where `pattern` does not occur.
pub open spec fn before_first(text: Seq<char>, pattern: Seq<char>) -> Seq<char> {
    if contains_text(text, pattern) {
        let at = choose|at: int| is_first_occurrence(text, pattern, at);
        text.subrange(0, at)
    } else {
        text
    }
}

/// The part of `text` that follows the leftmost `pattern`, if there is one.
pub open spec fn after_first(text: Seq<char>, pattern: Seq<char>) -> Option<Seq<char>> {
    if contains_text(text, pattern) {
        let at = choose|at: int| is_first_occurrence(text, pattern, at);
        Some(text.subrange(at + pattern.len(), text.len() as int))
    } else {
        None
    }
}

/// A pattern that occurs in a text has a leftmost occurrence there.
pub proof fn lemma_first_occurrence_exists(text: Seq<char>, pattern: Seq<char>, at: int)
    requires
        occurs_at(text, pattern, at),
    ensures
        exists|first: int| is_first_occurrence(text, pattern, first),
    decreases at,
{
    if exists|j: int| 0 <= j < at && occurs_at(text, pattern, j) {
        let j = choose|j: int| 0 <= j < at && occurs_at(text, pattern, j);
        lemma_first_occurrence_exists(text, pattern, j);
    } else {
        assert(is_first_occurrence(text, pattern, at));
    }
}

/// What follows the leftmost occurrence of a pattern that is not empty is
/// shorter than the text.
pub proof fn lemma_after_first_is_shorter(text: Seq<char>, pattern: Seq<char>)
    requires
        pattern.len() > 0,
    ensures
        after_first(text, pattern) matches Some(rest) ==> rest.len() < text.len(),
{
    if contains_text(text, pattern) {
        let at = choose|at: int| occurs_at(text, pattern, at);
        lemma_first_occurrence_exists(text, pattern, at);
    }
}

/// The characters of `text`, each marked if it is white space.
pub fn mark_white_space(text: &Vec<char>) -> (r: Vec<(char, bool)>)
    ensures
        r@ == white_marked(text@),
{
    let mut marked: Vec<(char, bool)> = Vec::new();
    let mut i: usize = 0;
    while i < text.len()
        invariant
            i <= text.len(),
            marked.len() == i,
            forall|k: int|
                0 <= k < i ==> (#[trigger] marked@[k]) == (text@[k], is_white_space(text@[k])),
        decreases text.len() - i,
    {
        marked.push((text[i], text[i].is_whitespace()));
        i = i + 1;
    }
    marked
}

/// The characters of `items` without the marked ones at its start and at
/// its end.
pub fn strip_margins(items: &Vec<(char, bool)>) -> (r: Vec<char>)
    ensures
        r@ == without_margins(items@),
{
    let mut from: usize = 0;
    assert(items@.subrange(0, items.len() as int) == items@);
    while from < items.len() && items[from].1
        invariant
            from <= items.len(),
            leading_marked(items@) == from + leading_marked(
                items@.subrange(from as int, items.len() as int),
            ),
        decreases items.len() - from,
    {
        assert(items@.subrange(from as int, items.len() as int).drop_first() == items@.subrange(
            from + 1,
            items.len() as int,
        ));
        from = from + 1;
    }
    let ghost rest = items@.subrange(from as int, items.len() as int);
    let mut to: usize = items.len();
    assert(rest.subrange(0, to - from) == rest);
    while to > from && items[to - 1].1
        invariant
            from <= to <= items.len(),
            rest == items@.subrange(from as int, items.len() as int),
            trailing_marked(rest) == (items.len() - to) + trailing_marked(
                rest.subrange(0, to - from),
            ),
        decreases to,
    {
        assert(rest.subrange(0, to - from).drop_last() == rest.subrange(0, to - from - 1));
        to = to - 1;
    }
    let mut r: Vec<char> = Vec::new();
    let mut i: usize = from;
    while i < to
        invariant
            from <= i <= to <= items.len(),
            r.len() == i - from,
            forall|k: int| 0 <= k < i - from ==> (#[trigger] r@[k]) == items@[from + k].0,
        decreases to - i,
    {
        r.push(items[i].0);
        i = i + 1;
    }
    r
}

/// `text` without the white space around it.
pub fn trim(text: &Vec<char>) -> (r: Vec<char>)
    ensures
        r@ == trimmed(text@),
{
    strip_margins(&mark_white_space(text))
}

/// The part of `text` that follows the rightmost `pattern`.
pub fn take_after_last(text: &Vec<char>, pattern: &Vec<char>) -> (r: Vec<char>)
    ensures
        r@ == after_last(text@, pattern@),
{
    match find_last(text, pattern) {
        Some(at) => {
            let end: usize = text.len();
            slice_of(text, at + pattern.len(), end)
        },
        None => slice_of(text, 0, text.len()),
    }
}

/// The part of `text` that precedes the leftmost `pattern`.
pub fn take_before_first(text: &Vec<char>, pattern: &Vec<char>) -> (r: Vec<char>)
    ensures
        r@ == before_first(text@, pattern@),
{
    match find(text, pattern) {
        Some(at) => slice_of(text, 0, at),
        None => slice_of(text, 0, text.len()),
    }
}

/// The part of `text` that follows the leftmost `pattern`, if there is one.
pub fn take_after_first(text: &Vec<char>, pattern: &Vec<char>) -> (r: Option<Vec<char>>)
    ensures
        match r {
            Some(rest) => after_first(text@, pattern@) == Some(rest@),
            None => after_first(text@, pattern@) is None,
        },
{
    match find(text, pattern) {
        Some(at) => {
            let end: usize = text.len();
            Some(slice_of(text, at + pattern.len(), end))
        },
        None => None,
    }
}

/// The parts of `text` between the occurrences of `separator`. A text of
/// `n` separators has `n + 1` parts, some of which may be empty.
pub open spec fn split_on(text: Seq<char>, separator: char) -> Seq<Seq<char>>
    decreases text.len(),
{
    if text.len() == 0 {
        seq![Seq::empty()]
    } else {
        let parts = split_on(text.drop_last(), separator);
        if text.last() == separator {
            parts.push(Seq::empty())
        } else {
            parts.drop_last().push(parts.last().push(text.last()))
        }
    }
}

/// No two parts of `text` between occurrences of `separator` are the same.
pub open spec fn distinct_parts(text: Seq<char>, separator: char) -> bool {
    forall|i: int, j: int|
        0 <= i < j < split_on(text, separator).len() ==> split_on(text, separator)[i] != split_on(
            text,
            separator,
        )[j]
}

/// A member's full name has the parts of its parent's name and then the
/// member's own name, provided that this holds no dot.
pub proof fn lemma_split_on_dotted(parent: Seq<char>, member: Seq<char>)
    requires
        !member.contains('.'),
    ensures
        split_on(dotted(parent, member), '.') == split_on(parent, '.').push(member),
    decreases member.len(),
{
    let whole = dotted(parent, member);
    if member.len() == 0 {
        assert(whole.drop_last() == parent);
        assert(member == Seq::<char>::empty());
    } else {
        let shorter = member.drop_last();
        lemma_split_on_dotted(parent, shorter);
        assert(whole.drop_last() == dotted(parent, shorter));
        assert(shorter.push(member.last()) == member);
    }
}

/// A member whose name holds no dot and is none of the parts of its
/// parent's name has a full name without two equal parts, if the parent's
/// name has none.
pub proof fn lemma_dotted_stays_distinct(parent: Seq<char>, member: Seq<char>)
    requires
        !member.contains('.'),
        !split_on(parent, '.').contains(member),
        distinct_parts(parent, '.'),
    ensures
        distinct_parts(dotted(parent, member), '.'),
{
    lemma_split_on_dotted(parent, member);
}

/// Whether `text` is one of the parts of `whole` between occurrences of
/// `separator`.
pub fn is_part_of(whole: &Vec<char>, separator: char, text: &Vec<char>) -> (r: bool)
    ensures
        r == split_on(whole@, separator).contains(text@),
{
    let mut start: usize = 0;
    let mut i: usize = 0;
    let ghost mut closed: Seq<Seq<char>> = Seq::empty();
    assert(whole@.take(0) == Seq::<char>::empty());
    while i < whole.len()
        invariant
            start <= i <= whole.len(),
            split_on(whole@.take(i as int), separator) == closed.push(
                whole@.subrange(start as int, i as int),
            ),
            !closed.contains(text@),
        decreases whole.len() - i,
    {
        let ghost open_part = whole@.subrange(start as int, i as int);
        proof {
            assert(whole@.take(i + 1).drop_last() == whole@.take(i as int));
        }
        if whole[i] == separator {
            let part = slice_of(whole, start, i);
            if same_text(&part, text) {
                proof {
                    lemma_split_on_extends(whole@, separator, i as int, start as int, closed);
                }
                return true;
            }
            proof {
                closed = closed.push(open_part);
                assert(whole@.subrange(i + 1, i + 1) == Seq::<char>::empty());
            }
            start = i + 1;
        } else {
            assert(open_part.push(whole@[i as int]) == whole@.subrange(start as int, i + 1));
        }
        i = i + 1;
    }
    assert(whole@.take(whole.len() as int) == whole@);
    let part = slice_of(whole, start, i);
    let r = same_text(&part, text);
    proof {
        if r {
            assert(closed.push(part@)[closed.len() as int] == text@);
        }
    }
    r
}

/// A part that is closed by a separator stays a part of every longer text.
pub proof fn lemma_split_on_extends(
    whole: Seq<char>,
    separator: char,
    i: int,
    start: int,
    closed: Seq<Seq<char>>,
)
    requires
        0 <= start <= i < whole.len(),
        whole[i] == separator,
        split_on(whole.take(i), separator) == closed.push(whole.subrange(start, i)),
    ensures
        split_on(whole, separator).contains(whole.subrange(start, i)),
{
    assert(whole.take(i + 1).drop_last() == whole.take(i));
    lemma_split_on_keeps_closed(whole, separator, i + 1, closed.len() as int);
}

/// Once a separator has been passed, the parts before it do not change.
pub proof fn lemma_split_on_keeps_closed(whole: Seq<char>, separator: char, n: int, k: int)
    requires
        0 <= n <= whole.len(),
        0 <= k < split_on(whole.take(n), separator).len() - 1,
    ensures
        k < split_on(whole, separator).len() - 1,
        split_on(whole, separator)[k] == split_on(whole.take(n), separator)[k],
    decreases whole.len() - n,
{
    if n == whole.len() {
        assert(whole.take(n) == whole);
    } else {
        assert(whole.take(n + 1).drop_last() == whole.take(n));
        lemma_split_on_keeps_closed(whole, separator, n + 1, k);
    }
}

/// `text` without the occurrences of `pattern`, found from left to right
/// and not overlapping.
pub open spec fn without_all(text: Seq<char>, pattern: Seq<char>) -> Seq<char>
    decreases text.len(),
{
    if pattern.len() == 0 || text.len() == 0 {
        text
    } else if has_prefix(text, pattern) {
        without_all(text.skip(pattern.len() as int), pattern)
    } else {
        seq![text[0]] + without_all(text.drop_first(), pattern)
    }
}

/// `text` without the occurrences of `pattern`.
pub fn remove_all(text: &Vec<char>, pattern: &Vec<char>) -> (r: Vec<char>)
    ensures
        r@ == without_all(text@, pattern@),
{
    if pattern.len() == 0 {
        return slice_of(text, 0, text.len());
    }
    let mut out: Vec<char> = Vec::new();
    let mut i: usize = 0;
    assert(text@.skip(0) == text@);
    while i < text.len()
        invariant
            i <= text.len(),
            pattern.len() > 0,
            without_all(text@, pattern@) == out@ + without_all(text@.skip(i as int), pattern@),
        decreases text.len() - i,
    {
        let ghost rest = text@.skip(i as int);
        proof {
            assert(occurs_at(text@, pattern@, i as int) ==> rest.subrange(0, pattern.len() as int)
                == pattern@);
            assert(has_prefix(rest, pattern@) ==> occurs_at(text@, pattern@, i as int)) by {
                if has_prefix(rest, pattern@) {
                    assert(rest.subrange(0, pattern.len() as int) == text@.subrange(
                        i as int,
                        i + pattern.len(),
                    ));
                }
            }
        }
        if matches_at(text, pattern, i) {
            assert(rest.skip(pattern.len() as int) == text@.skip(i + pattern.len()));
            i = i + pattern.len();
        } else {
            out.push(text[i]);
            assert(rest.drop_first() == text@.skip(i + 1));
            i = i + 1;
        }
    }
    out
}

/// The full name of the member `member` of `parent`.
pub fn join_dotted(parent: &str, member: &str) -> (r: String)
    ensures
        r@ == dotted(parent@, member@),
{
    proof {
        reveal_strlit(".");
    }
    String::from_str(parent).concat(".").concat(member)
}

} // verus!
