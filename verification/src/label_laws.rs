//! What holds of the text that is shown for a label: it holds no variable,
//! and no hashtag that the label did not hold.
use crate::labels::{annotations, first_subgraph, is_subgraph_tag, plain_tags};
use crate::laws::lemma_sorted_members;
use crate::scan::{
    display_text, ends_with_tag, hashtags_from, is_name_char, is_space, lemma_name_end,
    lemma_trim_len, lemma_variable_end, lemma_word_end, name_end, tag_at, tail_start, trim,
    trim_end, trim_start, variable_at, variable_end, variables_from, without_trailing_tags,
    without_variables_from,
};
use crate::text::sorted_texts;
use vstd::prelude::*;

verus! {

/// The positions of the characters of `s` from `from` on that belong to no variable.
pub open spec fn kept_from(s: Seq<char>, from: int) -> Seq<int>
    decreases s.len() - from,
    via kept_from_decreases
{
    if from < 0 || from >= s.len() {
        Seq::empty()
    } else if variable_at(s, from) {
        kept_from(s, variable_end(s, from))
    } else {
        seq![from] + kept_from(s, from + 1)
    }
}

#[via_fn]
proof fn kept_from_decreases(s: Seq<char>, from: int) {
    if 0 <= from < s.len() && variable_at(s, from) {
        lemma_variable_end(s, from);
    }
}

/// The characters that are kept are those at the kept positions. Where two
/// kept positions do not follow on each other, a variable stood between
/// them, and the second is white space; and behind the last kept position
/// the text ends or a variable stands.
pub proof fn lemma_kept(s: Seq<char>, from: int)
    requires
        0 <= from <= s.len(),
    ensures
        kept_from(s, from).len() == without_variables_from(s, from).len(),
        forall|p: int|
            0 <= p < kept_from(s, from).len() ==> from <= (#[trigger] kept_from(s, from)[p])
                < s.len() && without_variables_from(s, from)[p] == s[kept_from(s, from)[p]]
                && !variable_at(s, kept_from(s, from)[p]),
        forall|p: int|
            0 <= p < kept_from(s, from).len() - 1 ==> (#[trigger] kept_from(s, from)[p])
                < kept_from(s, from)[p + 1] && (kept_from(s, from)[p + 1] == kept_from(
                s,
                from,
            )[p] + 1 || (variable_at(s, kept_from(s, from)[p] + 1) && is_space(
                s[kept_from(s, from)[p + 1]],
            ))),
        kept_from(s, from).len() > 0 ==> kept_from(s, from)[0] == from || (variable_at(s, from)
            && is_space(s[kept_from(s, from)[0]])),
        kept_from(s, from).len() > 0 ==> kept_from(s, from).last() + 1 == s.len() || variable_at(
            s,
            kept_from(s, from).last() + 1,
        ),
        kept_from(s, from).len() == 0 ==> from == s.len() || variable_at(s, from),
    decreases s.len() - from,
{
    let k = kept_from(s, from);
    let w = without_variables_from(s, from);
    if from >= s.len() {
    } else if variable_at(s, from) {
        lemma_variable_end(s, from);
        let e = variable_end(s, from);
        lemma_kept(s, e);
        lemma_word_end(s, name_end(s, from + 1) + 1);
    } else {
        lemma_kept(s, from + 1);
        assert(k == seq![from] + kept_from(s, from + 1));
        assert forall|p: int| 0 <= p < k.len() implies from <= (#[trigger] k[p]) < s.len() && w[p]
            == s[k[p]] && !variable_at(s, k[p]) by {}
    }
}

/// A kept character that is no white space stood right behind the kept
/// character before it.
pub proof fn lemma_next_kept(s: Seq<char>, p: int)
    requires
        0 <= p,
        p + 1 < kept_from(s, 0).len(),
        !is_space(without_variables_from(s, 0)[p + 1]),
    ensures
        kept_from(s, 0)[p + 1] == kept_from(s, 0)[p] + 1,
{
    lemma_kept(s, 0);
    let k = kept_from(s, 0);
    assert(without_variables_from(s, 0)[p + 1] == s[k[p + 1]]);
    assert(k[p] < k[p + 1]);
}

/// Kept characters that are no white space, one after the other, stood one
/// after the other in the text.
pub proof fn lemma_contiguous(s: Seq<char>, p: int, n: int)
    requires
        0 <= p,
        0 <= n,
        p + n < kept_from(s, 0).len(),
        forall|j: int| 1 <= j <= n ==> !is_space(#[trigger] without_variables_from(s, 0)[p + j]),
    ensures
        forall|j: int| 0 <= j <= n ==> #[trigger] kept_from(s, 0)[p + j] == kept_from(s, 0)[p] + j,
    decreases n,
{
    if n > 0 {
        lemma_contiguous(s, p, n - 1);
        let k = kept_from(s, 0);
        assert(k[p + (n - 1)] == k[p] + (n - 1));
        assert(!is_space(without_variables_from(s, 0)[p + n]));
        lemma_next_kept(s, p + n - 1);
        assert(k[p + n] == k[p] + n);
    }
}

/// Where `n` name characters stand from `a` on and no name character
/// follows them, there the name ends.
pub proof fn lemma_name_end_is(s: Seq<char>, a: int, n: int)
    requires
        0 <= a,
        0 <= n,
        a + n <= s.len(),
        forall|j: int| 0 <= j < n ==> is_name_char(#[trigger] s[a + j]),
        a + n == s.len() || !is_name_char(s[a + n]),
    ensures
        name_end(s, a) == a + n,
    decreases n,
{
    if n > 0 {
        assert(is_name_char(s[a + 0]));
        assert forall|j: int| 0 <= j < n - 1 implies is_name_char(#[trigger] s[a + 1 + j]) by {
            assert(s[a + 1 + j] == s[a + (j + 1)]);
        }
        lemma_name_end_is(s, a + 1, n - 1);
    }
}

/// A variable in a piece of a text is a variable in the text.
pub proof fn lemma_variable_in_piece(w: Seq<char>, a: int, b: int, i: int)
    requires
        0 <= a <= b <= w.len(),
        variable_at(w.subrange(a, b), i),
    ensures
        variable_at(w, a + i),
{
    let sub = w.subrange(a, b);
    lemma_name_end(sub, i + 1);
    let e = name_end(sub, i + 1);
    assert forall|j: int| 0 <= j < e - (i + 1) implies is_name_char(
        #[trigger] w[a + i + 1 + j],
    ) by {
        assert(sub[i + 1 + j] == w[a + i + 1 + j]);
    }
    lemma_name_end_is(w, a + i + 1, e - (i + 1));
}

/// Kept characters that are no white space, one after the other, are the
/// characters that stood one after the other in the text, from a position
/// at which no variable starts.
pub proof fn lemma_segment(s: Seq<char>, p: int, n: int) -> (at: int)
    requires
        0 <= p,
        0 <= n,
        p + n < without_variables_from(s, 0).len(),
        forall|j: int| 1 <= j <= n ==> !is_space(#[trigger] without_variables_from(s, 0)[p + j]),
    ensures
        0 <= at,
        at + n < s.len(),
        !variable_at(s, at),
        forall|j: int| 0 <= j <= n ==> #[trigger] s[at + j] == without_variables_from(s, 0)[p + j],
        at == kept_from(s, 0)[p],
        kept_from(s, 0)[p + n] == at + n,
        kept_from(s, 0).len() == without_variables_from(s, 0).len(),
{
    lemma_kept(s, 0);
    lemma_contiguous(s, p, n);
    let k = kept_from(s, 0);
    let w = without_variables_from(s, 0);
    let at = k[p];
    assert forall|j: int| 0 <= j <= n implies #[trigger] s[at + j] == w[p + j] by {
        assert(k[p + j] == at + j);
    }
    assert(k[p + n] == at + n);
    at
}

/// No variable is left in a text from which the variables were taken.
pub proof fn lemma_no_variable_left(s: Seq<char>, p: int)
    ensures
        !variable_at(without_variables_from(s, 0), p),
{
    let w = without_variables_from(s, 0);
    if variable_at(w, p) {
        lemma_name_end(w, p + 1);
        let e = name_end(w, p + 1);
        let n = e + 1 - p;
        let a0 = lemma_segment(s, p, n);
        lemma_variable_copy(w, p, s, a0);
    }
}

/// A variable whose characters stand in another text, one after the other,
/// is a variable of that text.
pub proof fn lemma_variable_copy(w: Seq<char>, p: int, s: Seq<char>, at: int)
    requires
        variable_at(w, p),
        0 <= at,
        at + (name_end(w, p + 1) + 1 - p) < s.len(),
        forall|j: int|
            0 <= j <= name_end(w, p + 1) + 1 - p ==> #[trigger] s[at + j] == w[p + j],
    ensures
        variable_at(s, at),
{
    lemma_name_end(w, p + 1);
    let e = name_end(w, p + 1);
    assert forall|j: int| 0 <= j < e - (p + 1) implies is_name_char(#[trigger] s[at + 1 + j]) by {
        assert(s[at + (1 + j)] == w[p + (1 + j)]);
    }
    assert(s[at + (e - p)] == w[p + (e - p)]);
    lemma_name_end_is(s, at + 1, e - (p + 1));
    assert(s[at + 0] == w[p + 0]);
    assert(s[at + (e + 1 - p)] == w[p + (e + 1 - p)]);
}

/// A text without a variable has no variables.
pub proof fn lemma_no_variables(t: Seq<char>, from: int)
    requires
        forall|i: int| !variable_at(t, i),
    ensures
        variables_from(t, from).len() == 0,
    decreases t.len() - from,
{
    if 0 <= from < t.len() {
        lemma_no_variables(t, from + 1);
    }
}

/// What is left of a text without the white space at its end is the start
/// of the text, up to a character that is white space.
pub proof fn lemma_trim_end_piece(s: Seq<char>) -> (b: int)
    ensures
        0 <= b <= s.len(),
        trim_end(s) == s.take(b),
        b == s.len() || is_space(s[b]),
    decreases s.len(),
{
    if s.len() > 0 && is_space(s.last()) {
        let b = lemma_trim_end_piece(s.drop_last());
        b
    } else {
        s.len() as int
    }
}

/// What is left of a text without the white space at its start is the end of the text.
pub proof fn lemma_trim_start_piece(s: Seq<char>) -> (a: int)
    ensures
        0 <= a <= s.len(),
        trim_start(s) == s.skip(a),
    decreases s.len(),
{
    if s.len() > 0 && is_space(s[0]) {
        let a = lemma_trim_start_piece(s.drop_first());
        a + 1
    } else {
        0
    }
}

/// The text that is shown is a piece of the text it is made from, and what
/// follows the piece, if anything does, is no name character.
pub proof fn lemma_shown_piece(w: Seq<char>) -> (r: (int, int))
    ensures
        0 <= r.0 <= r.1 <= w.len(),
        without_trailing_tags(w) == w.subrange(r.0, r.1),
        r.1 == w.len() || !is_name_char(w[r.1]),
    decreases w.len(),
{
    let b = lemma_trim_end_piece(w);
    let a0 = lemma_trim_start_piece(w.take(b));
    let a = a0;
    let t = trim(w);
    if ends_with_tag(t) {
        let q = tail_start(t);
        let shorter = t.take(q - 1);
        let (a2, b2) = lemma_shown_piece(shorter);
        (a + a2, a + b2)
    } else {
        (a, b)
    }
}

/// The text that is shown for a label holds no variable.
pub proof fn lemma_shown_text_has_no_variable(s: Seq<char>)
    ensures
        variables_from(display_text(s), 0).len() == 0,
        forall|i: int| !variable_at(display_text(s), i),
{
    let w = without_variables_from(s, 0);
    let (a, b) = lemma_shown_piece(w);
    let d = display_text(s);
    assert forall|i: int| !variable_at(d, i) by {
        if variable_at(d, i) {
            lemma_variable_in_piece(w, a, b, i);
            lemma_no_variable_left(s, a + i);
        }
    }
    lemma_no_variables(d, 0);
}

/// The hashtag that starts at `at`.
pub open spec fn tag_text(t: Seq<char>, at: int) -> Seq<char> {
    t.subrange(at, name_end(t, at + 1))
}

/// Wherever a `#` and a letter stand, a hashtag of the text starts.
pub proof fn lemma_tag_found(t: Seq<char>, from: int, at: int)
    requires
        0 <= from <= at,
        tag_at(t, at),
    ensures
        hashtags_from(t, from).contains(tag_text(t, at)),
    decreases t.len() - from,
{
    if from == at {
        assert(hashtags_from(t, from)[0] == tag_text(t, at));
    } else if tag_at(t, from) {
        lemma_name_end(t, from + 1);
        let next = name_end(t, from + 1);
        lemma_tag_found(t, next, at);
        let rest = hashtags_from(t, next);
        let k = choose|k: int| 0 <= k < rest.len() && rest[k] == tag_text(t, at);
        assert(hashtags_from(t, from)[k + 1] == rest[k]);
    } else {
        lemma_tag_found(t, from + 1, at);
    }
}

/// Every hashtag of a text starts where a `#` and a letter stand.
pub proof fn lemma_tag_place(t: Seq<char>, from: int, k: int) -> (at: int)
    requires
        0 <= from,
        0 <= k < hashtags_from(t, from).len(),
    ensures
        from <= at,
        tag_at(t, at),
        hashtags_from(t, from)[k] == tag_text(t, at),
    decreases t.len() - from,
{
    if tag_at(t, from) {
        lemma_name_end(t, from + 1);
        if k == 0 {
            from
        } else {
            let next = name_end(t, from + 1);
            lemma_tag_place(t, next, k - 1)
        }
    } else {
        lemma_tag_place(t, from + 1, k)
    }
}

/// Behind a kept character the text ends, or a variable starts, or the next
/// kept character stands.
pub proof fn lemma_after_kept(s: Seq<char>, p: int)
    requires
        0 <= p < kept_from(s, 0).len(),
    ensures
        kept_from(s, 0).len() == without_variables_from(s, 0).len(),
        kept_from(s, 0)[p] + 1 == s.len() || variable_at(s, kept_from(s, 0)[p] + 1) || (p + 1
            < kept_from(s, 0).len() && 0 <= kept_from(s, 0)[p] + 1 < s.len() && s[kept_from(
            s,
            0,
        )[p] + 1] == without_variables_from(s, 0)[p + 1]),
{
    lemma_kept(s, 0);
}

/// A hashtag in a piece of a text, behind which no name character stands,
/// is a hashtag of the text.
pub proof fn lemma_tag_in_piece(w: Seq<char>, a: int, b: int, p: int)
    requires
        0 <= a <= b <= w.len(),
        b == w.len() || !is_name_char(w[b]),
        tag_at(w.subrange(a, b), p),
    ensures
        tag_at(w, a + p),
        name_end(w, a + p + 1) == a + name_end(w.subrange(a, b), p + 1),
        tag_text(w, a + p) == tag_text(w.subrange(a, b), p),
{
    let d = w.subrange(a, b);
    lemma_name_end(d, p + 1);
    let e = name_end(d, p + 1);
    assert forall|j: int| 0 <= j < e - (p + 1) implies is_name_char(
        #[trigger] w[a + p + 1 + j],
    ) by {
        assert(d[p + 1 + j] == w[a + p + 1 + j]);
    }
    lemma_name_end_is(w, a + p + 1, e - (p + 1));
}

/// A hashtag of a text from which the variables were taken is a hashtag of the text.
pub proof fn lemma_tag_kept(s: Seq<char>, p: int) -> (at: int)
    requires
        tag_at(without_variables_from(s, 0), p),
    ensures
        tag_at(s, at),
        tag_text(s, at) == tag_text(without_variables_from(s, 0), p),
{
    let w = without_variables_from(s, 0);
    lemma_name_end(w, p + 1);
    let e = name_end(w, p + 1);
    let n = e - 1 - p;
    let at = lemma_segment(s, p, n);
    lemma_after_kept(s, p + n);
    assert forall|j: int| 0 <= j < n implies is_name_char(#[trigger] s[at + 1 + j]) by {
        assert(s[at + (1 + j)] == w[p + (1 + j)]);
    }
    lemma_name_end_is(s, at + 1, n);
    assert(s[at + 0] == w[p + 0]);
    assert(tag_text(s, at) == tag_text(w, p)) by {
        assert forall|j: int| 0 <= j < e - p implies tag_text(s, at)[j] == tag_text(w, p)[j] by {
            assert(s[at + j] == w[p + j]);
        }
    }
    at
}

/// A hashtag of the text that is shown for a label is a hashtag of the label.
pub proof fn lemma_tag_in_label(s: Seq<char>, p: int)
    requires
        tag_at(display_text(s), p),
    ensures
        hashtags_from(s, 0).contains(tag_text(display_text(s), p)),
{
    let w = without_variables_from(s, 0);
    let (a, b) = lemma_shown_piece(w);
    lemma_tag_in_piece(w, a, b, p);
    let at = lemma_tag_kept(s, a + p);
    lemma_tag_found(s, 0, at);
}

/// The text that is shown for a label holds nothing new: it has no
/// variable, and each of its hashtags is a hashtag of the label.
pub proof fn lemma_shown_text_holds_nothing_new(s: Seq<char>)
    ensures
        variables_from(display_text(s), 0).len() == 0,
        forall|k: int|
            0 <= k < hashtags_from(display_text(s), 0).len() ==> hashtags_from(s, 0).contains(
                #[trigger] hashtags_from(display_text(s), 0)[k],
            ),
{
    lemma_shown_text_has_no_variable(s);
    let d = display_text(s);
    assert forall|k: int| 0 <= k < hashtags_from(d, 0).len() implies hashtags_from(
        s,
        0,
    ).contains(#[trigger] hashtags_from(d, 0)[k]) by {
        let at = lemma_tag_place(d, 0, k);
        lemma_tag_in_label(s, at);
    }
}

/// The hashtags that name no subgraph are among the hashtags.
pub proof fn lemma_plain_tags_members(tags: Seq<Seq<char>>)
    ensures
        forall|k: int|
            0 <= k < plain_tags(tags).len() ==> tags.contains(#[trigger] plain_tags(tags)[k]),
        first_subgraph(tags) matches Some(t) ==> tags.contains(t),
    decreases tags.len(),
{
    if tags.len() > 0 {
        let rest = tags.drop_last();
        lemma_plain_tags_members(rest);
        assert(plain_tags(tags) == if is_subgraph_tag(tags.last()) {
            plain_tags(rest)
        } else {
            plain_tags(rest).push(tags.last())
        });
    }
}

/// A text without white space at its two ends.
pub open spec fn is_trimmed(t: Seq<char>) -> bool {
    t.len() == 0 || (!is_space(t[0]) && !is_space(t.last()))
}

/// Trimming a trimmed text changes nothing.
pub proof fn lemma_trim_of_trimmed(t: Seq<char>)
    requires
        is_trimmed(t),
    ensures
        trim(t) == t,
{
}

/// What is left of a text without the white space at its start ends as the
/// text ends, unless nothing is left.
pub proof fn lemma_trim_start_keeps_end(t: Seq<char>)
    ensures
        trim_start(t).len() == 0 || (!is_space(trim_start(t)[0]) && trim_start(t).last()
            == t.last()),
        t.len() > 0 && !is_space(t.last()) ==> trim_start(t).len() > 0,
    decreases t.len(),
{
    if t.len() > 0 && is_space(t[0]) {
        lemma_trim_start_keeps_end(t.drop_first());
        if t.len() > 1 {
            assert(t.drop_first().last() == t.last());
        }
    }
}

/// What is left of a text without the white space at its end does not end
/// with white space.
pub proof fn lemma_trim_end_is_trimmed(t: Seq<char>)
    ensures
        trim_end(t).len() == 0 || !is_space(trim_end(t).last()),
    decreases t.len(),
{
    if t.len() > 0 && is_space(t.last()) {
        lemma_trim_end_is_trimmed(t.drop_last());
    }
}

/// A text without the white space at its two ends is trimmed.
pub proof fn lemma_trim_is_trimmed(t: Seq<char>)
    ensures
        is_trimmed(trim(t)),
{
    lemma_trim_end_is_trimmed(t);
    lemma_trim_start_keeps_end(trim_end(t));
}

/// The text that is shown is trimmed and does not end with a hashtag.
pub proof fn lemma_shown_is_settled(w: Seq<char>)
    ensures
        is_trimmed(without_trailing_tags(w)),
        !ends_with_tag(without_trailing_tags(w)),
    decreases w.len(),
{
    lemma_trim_is_trimmed(w);
    lemma_trim_len(w);
    if ends_with_tag(trim(w)) {
        lemma_shown_is_settled(trim(w).take(tail_start(trim(w)) - 1));
    }
}

/// Taking the variables from a text that has none changes nothing.
pub proof fn lemma_nothing_to_take(t: Seq<char>, from: int)
    requires
        0 <= from <= t.len(),
        forall|i: int| !variable_at(t, i),
    ensures
        without_variables_from(t, from) == t.skip(from),
    decreases t.len() - from,
{
    if from < t.len() {
        lemma_nothing_to_take(t, from + 1);
        assert(t.skip(from) == seq![t[from]] + t.skip(from + 1));
    }
}

/// The text that is shown for a label is shown as it is: showing it again
/// changes nothing.
pub proof fn lemma_shown_text_is_shown_as_it_is(s: Seq<char>)
    ensures
        display_text(display_text(s)) == display_text(s),
{
    let d = display_text(s);
    lemma_shown_text_has_no_variable(s);
    lemma_nothing_to_take(d, 0);
    assert(d.skip(0) == d);
    lemma_shown_is_settled(without_variables_from(s, 0));
    lemma_trim_of_trimmed(d);
}

/// Reading the text that is shown for a label as a label again finds
/// nothing new: the same text to show, no variables, whatever is a number,
/// and no hashtag and no subgraph but such as the label held.
pub proof fn lemma_parsing_twice_finds_nothing_new(
    label: Seq<char>,
    numbers: Seq<Option<u64>>,
    again: Seq<Option<u64>>,
)
    ensures
        annotations(annotations(label, numbers).label, again).label == annotations(
            label,
            numbers,
        ).label,
        annotations(annotations(label, numbers).label, again).variables.len() == 0,
        forall|k: int|
            0 <= k < annotations(annotations(label, numbers).label, again).tags.len()
                ==> hashtags_from(label, 0).contains(
                #[trigger] annotations(annotations(label, numbers).label, again).tags[k],
            ),
        annotations(annotations(label, numbers).label, again).subgraph matches Some(t)
            ==> hashtags_from(label, 0).contains(t),
{
    let d = display_text(label);
    lemma_shown_text_is_shown_as_it_is(label);
    lemma_shown_text_holds_nothing_new(label);
    let found = hashtags_from(d, 0);
    let sorted = sorted_texts(found);
    lemma_sorted_members(found);
    lemma_plain_tags_members(sorted);
}

} // verus!
