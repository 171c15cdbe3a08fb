//! The grammar of what a label may carry besides its text: hashtags such as
//! `#urgent`, and variables such as `$cost=4d`.
use crate::text::{copy_range, texts};
use vstd::prelude::*;

verus! {

/// A letter of the basic Latin alphabet.
pub open spec fn is_letter(c: char) -> bool {
    ('A' <= c && c <= 'Z') || ('a' <= c && c <= 'z')
}

/// A character that may follow the first letter of a name: a letter, a
/// digit, an underscore or a hyphen.
pub open spec fn is_name_char(c: char) -> bool {
    is_letter(c) || ('0' <= c && c <= '9') || c == '_' || c == '-'
}

/// White space, as Unicode defines it.
pub open spec fn is_space(c: char) -> bool {
    ('\u{9}' <= c && c <= '\u{d}') || c == ' ' || c == '\u{85}' || c == '\u{a0}' || c
        == '\u{1680}' || ('\u{2000}' <= c && c <= '\u{200a}') || c == '\u{2028}' || c
        == '\u{2029}' || c == '\u{202f}' || c == '\u{205f}' || c == '\u{3000}'
}

/// Whether `c` is a letter of the basic Latin alphabet.
pub fn letter(c: char) -> (r: bool)
    ensures
        r == is_letter(c),
{
    ('A' <= c && c <= 'Z') || ('a' <= c && c <= 'z')
}

/// Whether `c` may follow the first letter of a name.
pub fn name_char(c: char) -> (r: bool)
    ensures
        r == is_name_char(c),
{
    letter(c) || ('0' <= c && c <= '9') || c == '_' || c == '-'
}

/// Whether `c` is white space.
pub fn space(c: char) -> (r: bool)
    ensures
        r == is_space(c),
{
    ('\u{9}' <= c && c <= '\u{d}') || c == ' ' || c == '\u{85}' || c == '\u{a0}' || c
        == '\u{1680}' || ('\u{2000}' <= c && c <= '\u{200a}') || c == '\u{2028}' || c
        == '\u{2029}' || c == '\u{202f}' || c == '\u{205f}' || c == '\u{3000}'
}

/// Where the name characters that start at `from` end.
pub open spec fn name_end(s: Seq<char>, from: int) -> int
    decreases s.len() - from,
{
    if from < 0 || from >= s.len() || !is_name_char(s[from]) {
        from
    } else {
        name_end(s, from + 1)
    }
}

/// Where the characters other than white space that start at `from` end.
pub open spec fn word_end(s: Seq<char>, from: int) -> int
    decreases s.len() - from,
{
    if from < 0 || from >= s.len() || is_space(s[from]) {
        from
    } else {
        word_end(s, from + 1)
    }
}

/// A name ends at or behind where it starts, holds name characters only,
/// and no name character follows it.
pub proof fn lemma_name_end(s: Seq<char>, from: int)
    requires
        0 <= from <= s.len(),
    ensures
        from <= name_end(s, from) <= s.len(),
        forall|k: int| from <= k < name_end(s, from) ==> is_name_char(#[trigger] s[k]),
        name_end(s, from) < s.len() ==> !is_name_char(s[name_end(s, from)]),
    decreases s.len() - from,
{
    if from < s.len() && is_name_char(s[from]) {
        lemma_name_end(s, from + 1);
    }
}

/// A word ends at or behind where it starts, holds no white space, and
/// white space follows it or nothing.
pub proof fn lemma_word_end(s: Seq<char>, from: int)
    requires
        0 <= from <= s.len(),
    ensures
        from <= word_end(s, from) <= s.len(),
        forall|k: int| from <= k < word_end(s, from) ==> !is_space(#[trigger] s[k]),
        word_end(s, from) < s.len() ==> is_space(s[word_end(s, from)]),
    decreases s.len() - from,
{
    if from < s.len() && !is_space(s[from]) {
        lemma_word_end(s, from + 1);
    }
}

/// Where the name characters that start at `from` end.
pub fn find_name_end(s: &Vec<char>, from: usize) -> (r: usize)
    requires
        from <= s.len(),
    ensures
        r == name_end(s@, from as int),
        from <= r <= s.len(),
{
    let mut j: usize = from;
    while j < s.len() && name_char(s[j])
        invariant
            from <= j <= s.len(),
            name_end(s@, from as int) == name_end(s@, j as int),
        decreases s.len() - j,
    {
        j += 1;
    }
    j
}

/// Where the characters other than white space that start at `from` end.
pub fn find_word_end(s: &Vec<char>, from: usize) -> (r: usize)
    requires
        from <= s.len(),
    ensures
        r == word_end(s@, from as int),
        from <= r <= s.len(),
{
    let mut j: usize = from;
    while j < s.len() && !space(s[j])
        invariant
            from <= j <= s.len(),
            word_end(s@, from as int) == word_end(s@, j as int),
        decreases s.len() - j,
    {
        j += 1;
    }
    j
}

/// A hashtag starts at `at`: a `#` and then a letter.
pub open spec fn tag_at(s: Seq<char>, at: int) -> bool {
    0 <= at && at + 1 < s.len() && s[at] == '#' && is_letter(s[at + 1])
}

/// The hashtags of `s` from `from` on, in the order in which they occur. A
/// hashtag is a `#`, a letter, and the name characters that follow.
pub open spec fn hashtags_from(s: Seq<char>, from: int) -> Seq<Seq<char>>
    decreases s.len() - from,
    via hashtags_from_decreases
{
    if from < 0 || from >= s.len() {
        Seq::empty()
    } else if tag_at(s, from) {
        seq![s.subrange(from, name_end(s, from + 1))] + hashtags_from(s, name_end(s, from + 1))
    } else {
        hashtags_from(s, from + 1)
    }
}

#[via_fn]
proof fn hashtags_from_decreases(s: Seq<char>, from: int) {
    if 0 <= from < s.len() && tag_at(s, from) {
        lemma_name_end(s, from + 1);
    }
}

/// A variable starts at `at`: a `$`, a name that starts with a letter, an
/// `=`, and a value of one character or more that is not white space.
pub open spec fn variable_at(s: Seq<char>, at: int) -> bool {
    &&& tag_like(s, at)
    &&& name_end(s, at + 1) + 1 < s.len()
    &&& s[name_end(s, at + 1)] == '='
    &&& !is_space(s[name_end(s, at + 1) + 1])
}

/// A `$` and then a letter stand at `at`.
pub open spec fn tag_like(s: Seq<char>, at: int) -> bool {
    0 <= at && at + 1 < s.len() && s[at] == '$' && is_letter(s[at + 1])
}

/// Where the variable that starts at `at` ends.
pub open spec fn variable_end(s: Seq<char>, at: int) -> int {
    word_end(s, name_end(s, at + 1) + 1)
}

/// The name of the variable that starts at `at`.
pub open spec fn variable_name(s: Seq<char>, at: int) -> Seq<char> {
    s.subrange(at + 1, name_end(s, at + 1))
}

/// The value of the variable that starts at `at`, as it is written.
pub open spec fn variable_value(s: Seq<char>, at: int) -> Seq<char> {
    s.subrange(name_end(s, at + 1) + 1, variable_end(s, at))
}

/// A variable has a name of one character at least and a value of one
/// character at least, and ends within the text.
pub proof fn lemma_variable_end(s: Seq<char>, at: int)
    requires
        variable_at(s, at),
    ensures
        at + 3 < variable_end(s, at) <= s.len(),
        at + 1 < name_end(s, at + 1) < s.len(),
        name_end(s, at + 1) + 1 < variable_end(s, at),
{
    lemma_name_end(s, at + 1);
    lemma_word_end(s, name_end(s, at + 1) + 1);
}

/// The variables of `s` from `from` on, each with its name and its value as
/// written, in the order in which they occur.
pub open spec fn variables_from(s: Seq<char>, from: int) -> Seq<(Seq<char>, Seq<char>)>
    decreases s.len() - from,
    via variables_from_decreases
{
    if from < 0 || from >= s.len() {
        Seq::empty()
    } else if variable_at(s, from) {
        seq![(variable_name(s, from), variable_value(s, from))] + variables_from(
            s,
            variable_end(s, from),
        )
    } else {
        variables_from(s, from + 1)
    }
}

#[via_fn]
proof fn variables_from_decreases(s: Seq<char>, from: int) {
    if 0 <= from < s.len() && variable_at(s, from) {
        lemma_variable_end(s, from);
    }
}

/// The text of `s` from `from` on, without its variables.
pub open spec fn without_variables_from(s: Seq<char>, from: int) -> Seq<char>
    decreases s.len() - from,
    via without_variables_from_decreases
{
    if from < 0 || from >= s.len() {
        Seq::empty()
    } else if variable_at(s, from) {
        without_variables_from(s, variable_end(s, from))
    } else {
        seq![s[from]] + without_variables_from(s, from + 1)
    }
}

#[via_fn]
proof fn without_variables_from_decreases(s: Seq<char>, from: int) {
    if 0 <= from < s.len() && variable_at(s, from) {
        lemma_variable_end(s, from);
    }
}

/// `s` without the white space at its end.
pub open spec fn trim_end(s: Seq<char>) -> Seq<char>
    decreases s.len(),
{
    if s.len() > 0 && is_space(s.last()) {
        trim_end(s.drop_last())
    } else {
        s
    }
}

/// `s` without the white space at its start.
pub open spec fn trim_start(s: Seq<char>) -> Seq<char>
    decreases s.len(),
{
    if s.len() > 0 && is_space(s[0]) {
        trim_start(s.drop_first())
    } else {
        s
    }
}

/// `s` without the white space at its two ends.
pub open spec fn trim(s: Seq<char>) -> Seq<char> {
    trim_start(trim_end(s))
}

/// Where the name characters that `s` ends with start.
pub open spec fn tail_start(s: Seq<char>) -> int
    decreases s.len(),
{
    if s.len() == 0 || !is_name_char(s.last()) {
        s.len() as int
    } else {
        tail_start(s.drop_last())
    }
}

/// `s` ends with a hashtag.
pub open spec fn ends_with_tag(s: Seq<char>) -> bool {
    &&& 1 <= tail_start(s) < s.len()
    &&& s[tail_start(s) - 1] == '#'
    &&& is_letter(s[tail_start(s)])
}

/// From `tail_start` on the text holds name characters only, and before
/// it stands no name character.
pub proof fn lemma_tail_start(s: Seq<char>)
    ensures
        0 <= tail_start(s) <= s.len(),
        forall|k: int| tail_start(s) <= k < s.len() ==> is_name_char(#[trigger] s[k]),
        tail_start(s) > 0 ==> !is_name_char(s[tail_start(s) - 1]),
    decreases s.len(),
{
    if s.len() > 0 && is_name_char(s.last()) {
        lemma_tail_start(s.drop_last());
        assert forall|k: int| tail_start(s) <= k < s.len() implies is_name_char(
            #[trigger] s[k],
        ) by {
            if k < s.len() - 1 {
                assert(s.drop_last()[k] == s[k]);
            }
        }
    }
}

/// Trimming makes no text longer.
pub proof fn lemma_trim_len(s: Seq<char>)
    ensures
        trim(s).len() <= s.len(),
        trim_end(s).len() <= s.len(),
        trim_start(s).len() <= s.len(),
    decreases s.len(),
{
    if s.len() > 0 {
        lemma_trim_len(s.drop_last());
        lemma_trim_len(s.drop_first());
    }
}

/// Trimming the start makes no text longer.
pub proof fn lemma_trim_start_len(s: Seq<char>)
    ensures
        trim_start(s).len() <= s.len(),
    decreases s.len(),
{
    if s.len() > 0 {
        lemma_trim_start_len(s.drop_first());
    }
}

/// The text that is shown for `s`: `s` without the white space at its ends
/// and without the hashtags it ends with, however many.
pub open spec fn without_trailing_tags(s: Seq<char>) -> Seq<char>
    decreases s.len(),
    via without_trailing_tags_decreases
{
    if ends_with_tag(trim(s)) {
        without_trailing_tags(trim(s).take(tail_start(trim(s)) - 1))
    } else {
        trim(s)
    }
}

#[via_fn]
proof fn without_trailing_tags_decreases(s: Seq<char>) {
    lemma_trim_len(s);
}

/// The text that is shown for the label `s`.
pub open spec fn display_text(s: Seq<char>) -> Seq<char> {
    without_trailing_tags(without_variables_from(s, 0))
}

/// The hashtags of `s`, in the order in which they occur.
pub fn scan_hashtags(s: &Vec<char>) -> (r: Vec<Vec<char>>)
    ensures
        texts(r@) == hashtags_from(s@, 0),
{
    let mut out: Vec<Vec<char>> = Vec::new();
    let mut i: usize = 0;
    while i < s.len()
        invariant
            i <= s.len(),
            hashtags_from(s@, 0) == texts(out@) + hashtags_from(s@, i as int),
        decreases s.len() - i,
    {
        if s[i] == '#' && i + 1 < s.len() && letter(s[i + 1]) {
            let end = find_name_end(s, i + 1);
            let tag = copy_range(s, i, end);
            out.push(tag);
            i = end;
        } else {
            i += 1;
        }
    }
    out
}

/// A variable as it is written: its name and the text of its value.
pub struct RawVariable {
    pub name: Vec<char>,
    pub value: Vec<char>,
}

/// The names and values that a vector of written variables holds.
pub open spec fn raw_pairs(v: Seq<RawVariable>) -> Seq<(Seq<char>, Seq<char>)> {
    v.map_values(|x: RawVariable| (x.name@, x.value@))
}

/// Whether a variable starts at `at`.
pub fn starts_variable(s: &Vec<char>, at: usize) -> (r: bool)
    requires
        at < s.len(),
    ensures
        r == variable_at(s@, at as int),
{
    if s[at] == '$' && at + 1 < s.len() && letter(s[at + 1]) {
        let end = find_name_end(s, at + 1);
        end < s.len() && end + 1 < s.len() && s[end] == '=' && !space(s[end + 1])
    } else {
        false
    }
}

/// The variables of `s` as they are written, and `s` without them.
pub fn scan_variables(s: &Vec<char>) -> (r: (Vec<RawVariable>, Vec<char>))
    ensures
        raw_pairs(r.0@) == variables_from(s@, 0),
        r.1@ == without_variables_from(s@, 0),
{
    let mut found: Vec<RawVariable> = Vec::new();
    let mut rest: Vec<char> = Vec::new();
    let mut i: usize = 0;
    while i < s.len()
        invariant
            i <= s.len(),
            variables_from(s@, 0) == raw_pairs(found@) + variables_from(s@, i as int),
            without_variables_from(s@, 0) == rest@ + without_variables_from(s@, i as int),
        decreases s.len() - i,
    {
        if starts_variable(s, i) {
            proof {
                lemma_variable_end(s@, i as int);
            }
            let name_stop = find_name_end(s, i + 1);
            let end = find_word_end(s, name_stop + 1);
            let variable = RawVariable {
                name: copy_range(s, i + 1, name_stop),
                value: copy_range(s, name_stop + 1, end),
            };
            found.push(variable);
            i = end;
        } else {
            rest.push(s[i]);
            i += 1;
        }
    }
    (found, rest)
}

/// `s` without the white space at its two ends.
pub fn trimmed(s: &Vec<char>) -> (r: Vec<char>)
    ensures
        r@ == trim(s@),
{
    let mut end: usize = s.len();
    assert(s@.take(end as int) == s@);
    while end > 0 && space(s[end - 1])
        invariant
            end <= s.len(),
            trim_end(s@) == trim_end(s@.take(end as int)),
        decreases end,
    {
        assert(s@.take(end as int).drop_last() == s@.take(end - 1));
        end -= 1;
    }
    let ghost cut = s@.take(end as int);
    let mut start: usize = 0;
    assert(cut.skip(0) == cut);
    while start < end && space(s[start])
        invariant
            start <= end <= s.len(),
            cut == s@.take(end as int),
            trim_start(cut) == trim_start(cut.skip(start as int)),
        decreases end - start,
    {
        assert(cut.skip(start as int).drop_first() == cut.skip(start + 1));
        start += 1;
    }
    copy_range(s, start, end)
}

/// Where the name characters that `s` ends with start.
pub fn find_tail_start(s: &Vec<char>) -> (r: usize)
    ensures
        r == tail_start(s@),
        r <= s.len(),
{
    let mut at: usize = s.len();
    assert(s@.take(at as int) == s@);
    while at > 0 && name_char(s[at - 1])
        invariant
            at <= s.len(),
            tail_start(s@) == tail_start(s@.take(at as int)),
        decreases at,
    {
        assert(s@.take(at as int).drop_last() == s@.take(at - 1));
        at -= 1;
    }
    at
}

/// `s` without the white space at its ends and without the hashtags it ends with.
pub fn strip_trailing_tags(s: &Vec<char>) -> (r: Vec<char>)
    ensures
        r@ == without_trailing_tags(s@),
{
    let mut text = trimmed(s);
    loop
        invariant
            without_trailing_tags(s@) == if ends_with_tag(text@) {
                without_trailing_tags(text@.take(tail_start(text@) - 1))
            } else {
                text@
            },
        decreases text@.len(),
    {
        let at = find_tail_start(&text);
        if at >= 1 && at < text.len() && text[at - 1] == '#' && letter(text[at]) {
            let shorter = copy_range(&text, 0, at - 1);
            text = trimmed(&shorter);
            proof {
                lemma_trim_len(shorter@);
            }
        } else {
            return text;
        }
    }
}

} // verus!
