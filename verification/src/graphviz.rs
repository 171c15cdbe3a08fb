//! Text for the `dot` notation: escaping of labels and identifiers, and the
//! signature by which nodes with the same hashtags are shown alike.
use crate::text::{
    chars_of, copy_range, insert_text, matches_at, occurs_at, push_range, push_text, sorted_texts,
    spread, texts,
};
use crate::util::{generate_hash, hash_of};
use vstd::prelude::*;

verus! {

/// How the output is meant to be looked at.
#[derive(Copy, Clone, Debug, PartialEq, Eq, Structural)]
pub enum DisplayMode {
    Interactive,
    Presentation,
}

/// What stands for `c` inside a quoted `dot` string: a line break becomes
/// `\n`, a quote becomes `\"`.
pub open spec fn quoted_char(c: char) -> Seq<char> {
    if c == '\n' {
        seq!['\\', 'n']
    } else if c == '"' {
        seq!['\\', '"']
    } else {
        seq![c]
    }
}

/// What stands for `c` in a quoted identifier: a quote becomes `\"`.
pub open spec fn id_char(c: char) -> Seq<char> {
    if c == '"' {
        seq!['\\', '"']
    } else {
        seq![c]
    }
}

/// What stands for `c` in markup: `&`, `<` and `>` become `&amp;`, `&lt;` and `&gt;`.
pub open spec fn markup_char(c: char) -> Seq<char> {
    if c == '&' {
        "&amp;"@
    } else if c == '<' {
        "&lt;"@
    } else if c == '>' {
        "&gt;"@
    } else {
        seq![c]
    }
}

/// What stands for `c` in a `dot` string: a backslash is doubled, a quote
/// becomes `\"`, a line break `\n`.
pub open spec fn dot_char(c: char) -> Seq<char> {
    if c == '\\' {
        seq!['\\', '\\']
    } else if c == '"' {
        seq!['\\', '"']
    } else if c == '\n' {
        seq!['\\', 'n']
    } else {
        seq![c]
    }
}

/// The label as a quoted `dot` string.
pub fn to_dot_label_string(label: &str) -> (r: String)
    ensures
        r@ == seq!['"'] + spread(label@, |c: char| quoted_char(c)) + seq!['"'],
{
    let text = chars_of(label);
    let mut out = String::new();
    out.push('"');
    let ghost f = |c: char| quoted_char(c);
    let mut i: usize = 0;
    while i < text.len()
        invariant
            i <= text@.len(),
            f == |c: char| quoted_char(c),
            out@ == seq!['"'] + spread(text@.take(i as int), f),
        decreases text.len() - i,
    {
        let c = text[i];
        assert(text@.take(i + 1).drop_last() == text@.take(i as int));
        if c == '\n' {
            out.push('\\');
            out.push('n');
        } else if c == '"' {
            out.push('\\');
            out.push('"');
        } else {
            out.push(c);
        }
        i += 1;
    }
    assert(text@.take(i as int) == text@);
    out.push('"');
    out
}

/// The identifier as a quoted `dot` string.
pub fn escape_id(id: &str) -> (r: String)
    ensures
        r@ == seq!['"'] + spread(id@, |c: char| id_char(c)) + seq!['"'],
{
    let text = chars_of(id);
    let mut out = String::new();
    out.push('"');
    let ghost f = |c: char| id_char(c);
    let mut i: usize = 0;
    while i < text.len()
        invariant
            i <= text@.len(),
            f == |c: char| id_char(c),
            out@ == seq!['"'] + spread(text@.take(i as int), f),
        decreases text.len() - i,
    {
        let c = text[i];
        assert(text@.take(i + 1).drop_last() == text@.take(i as int));
        if c == '"' {
            out.push('\\');
            out.push('"');
        } else {
            out.push(c);
        }
        i += 1;
    }
    assert(text@.take(i as int) == text@);
    out.push('"');
    out
}

/// The label with the characters escaped that markup gives a meaning to.
pub fn escape_label(label: &str) -> (r: String)
    ensures
        r@ == spread(label@, |c: char| markup_char(c)),
{
    let text = chars_of(label);
    let mut out = String::new();
    let ghost f = |c: char| markup_char(c);
    let mut i: usize = 0;
    while i < text.len()
        invariant
            i <= text@.len(),
            f == |c: char| markup_char(c),
            out@ == spread(text@.take(i as int), f),
        decreases text.len() - i,
    {
        let c = text[i];
        assert(text@.take(i + 1).drop_last() == text@.take(i as int));
        if c == '&' {
            push_text(&mut out, "&amp;");
        } else if c == '<' {
            push_text(&mut out, "&lt;");
        } else if c == '>' {
            push_text(&mut out, "&gt;");
        } else {
            out.push(c);
        }
        i += 1;
    }
    assert(text@.take(i as int) == text@);
    out
}

/// The text with the characters escaped that a `dot` string gives a meaning to.
pub fn dot(s: &str) -> (r: String)
    ensures
        r@ == spread(s@, |c: char| dot_char(c)),
{
    let text = chars_of(s);
    let mut out = String::new();
    let ghost f = |c: char| dot_char(c);
    let mut i: usize = 0;
    while i < text.len()
        invariant
            i <= text@.len(),
            f == |c: char| dot_char(c),
            out@ == spread(text@.take(i as int), f),
        decreases text.len() - i,
    {
        let c = text[i];
        assert(text@.take(i + 1).drop_last() == text@.take(i as int));
        if c == '\\' {
            out.push('\\');
            out.push('\\');
        } else if c == '"' {
            out.push('\\');
            out.push('"');
        } else if c == '\n' {
            out.push('\\');
            out.push('n');
        } else {
            out.push(c);
        }
        i += 1;
    }
    assert(text@.take(i as int) == text@);
    out
}

/// A capital letter.
pub open spec fn is_capital(c: char) -> bool {
    'A' <= c && c <= 'Z'
}

/// A capital letter or a digit.
pub open spec fn is_capital_or_digit(c: char) -> bool {
    is_capital(c) || ('0' <= c && c <= '9')
}

/// Where the capital letters and digits that start at `from` end.
pub open spec fn capitals_end(s: Seq<char>, from: int) -> int
    decreases s.len() - from,
{
    if from < 0 || from >= s.len() || !is_capital_or_digit(s[from]) {
        from
    } else {
        capitals_end(s, from + 1)
    }
}

/// The capital letters and digits end at or behind where they start, within the text.
pub proof fn lemma_capitals_end(s: Seq<char>, from: int)
    requires
        0 <= from <= s.len(),
    ensures
        from <= capitals_end(s, from) <= s.len(),
    decreases s.len() - from,
{
    if from < s.len() && is_capital_or_digit(s[from]) {
        lemma_capitals_end(s, from + 1);
    }
}

/// The capital hashtags of `s` from `from` on, in the order in which they
/// occur: a `#`, a capital letter, and the capital letters and digits that follow.
pub open spec fn capital_tags_from(s: Seq<char>, from: int) -> Seq<Seq<char>>
    decreases s.len() - from,
    via capital_tags_from_decreases
{
    if from < 0 || from >= s.len() {
        Seq::empty()
    } else if from + 1 < s.len() && s[from] == '#' && is_capital(s[from + 1]) {
        seq![s.subrange(from, capitals_end(s, from + 1))] + capital_tags_from(
            s,
            capitals_end(s, from + 1),
        )
    } else {
        capital_tags_from(s, from + 1)
    }
}

#[via_fn]
proof fn capital_tags_from_decreases(s: Seq<char>, from: int) {
    if 0 <= from < s.len() {
        lemma_capitals_end(s, from + 1);
    }
}

/// The texts of `parts`, one after the other.
pub open spec fn concat(parts: Seq<Seq<char>>) -> Seq<char>
    decreases parts.len(),
{
    if parts.len() == 0 {
        Seq::empty()
    } else {
        concat(parts.drop_last()) + parts.last()
    }
}

/// What the capital hashtags of a text come to.
#[derive(Debug, PartialEq, Eq, Structural)]
pub enum HashState {
    /// The text has none.
    Absent,
    /// The hash of its hashtags, sorted, each once, one after the other.
    Hashed(usize),
}

/// The signature of the capital hashtags of `input`: texts with the same
/// hashtags have the same signature, in whatever order and however often
/// they hold them.
pub fn hashtag_signature(input: &str) -> (r: HashState)
    ensures
        r == if capital_tags_from(input@, 0).len() == 0 {
            HashState::Absent
        } else {
            HashState::Hashed(hash_of(concat(sorted_texts(capital_tags_from(input@, 0)))) as usize)
        },
{
    let s = chars_of(input);
    let mut sorted: Vec<Vec<char>> = Vec::new();
    let ghost mut found = Seq::<Seq<char>>::empty();
    let mut i: usize = 0;
    while i < s.len()
        invariant
            i <= s.len(),
            capital_tags_from(s@, 0) == found + capital_tags_from(s@, i as int),
            texts(sorted@) == sorted_texts(found),
        decreases s.len() - i,
    {
        if s[i] == '#' && i + 1 < s.len() && 'A' <= s[i + 1] && s[i + 1] <= 'Z' {
            let mut end: usize = i + 1;
            while end < s.len() && (('A' <= s[end] && s[end] <= 'Z') || ('0' <= s[end] && s[end]
                <= '9'))
                invariant
                    i + 1 <= end <= s.len(),
                    capitals_end(s@, i + 1) == capitals_end(s@, end as int),
                decreases s.len() - end,
            {
                end += 1;
            }
            proof {
                lemma_capitals_end(s@, i + 1);
            }
            let tag = copy_range(&s, i, end);
            proof {
                let grown = found.push(tag@);
                assert(grown.drop_last() == found);
                found = grown;
            }
            insert_text(&mut sorted, tag);
            i = end;
        } else {
            i += 1;
        }
    }
    if sorted.len() == 0 {
        proof {
            if found.len() > 0 {
                crate::graphviz::lemma_sorted_nonempty(found);
            }
        }
        return HashState::Absent;
    }
    let mut combo = String::new();
    let ghost all = texts(sorted@);
    let mut k: usize = 0;
    while k < sorted.len()
        invariant
            k <= sorted@.len(),
            all == texts(sorted@),
            combo@ == concat(all.take(k as int)),
        decreases sorted.len() - k,
    {
        assert(all.take(k + 1).drop_last() == all.take(k as int));
        push_range(&mut combo, &sorted[k], 0, sorted[k].len());
        k += 1;
    }
    assert(all.take(k as int) == all);
    HashState::Hashed(generate_hash(combo.as_str()))
}

/// Sorting texts, of which there is one at least, leaves one at least.
pub proof fn lemma_sorted_nonempty(s: Seq<Seq<char>>)
    requires
        s.len() > 0,
    ensures
        sorted_texts(s).len() > 0,
{
    crate::text::lemma_insert_sorted_len(sorted_texts(s.drop_last()), s.last());
}

/// `s` from `from` on, with `with` in the place of each occurrence of
/// `pattern`, which is not empty. Occurrences are taken from left to right
/// and do not overlap.
pub open spec fn replaced_from(s: Seq<char>, from: int, pattern: Seq<char>, with: Seq<char>) -> Seq<
    char,
>
    decreases s.len() - from,
{
    if from < 0 || from >= s.len() || pattern.len() == 0 {
        Seq::empty()
    } else if occurs_at(s, pattern, from) {
        with + replaced_from(s, from + pattern.len(), pattern, with)
    } else {
        seq![s[from]] + replaced_from(s, from + 1, pattern, with)
    }
}

/// The placeholder for the name `name`: `${name}`.
pub open spec fn placeholder(name: Seq<char>) -> Seq<char> {
    seq!['$', '{'] + name + seq!['}']
}

/// `text` with the value of each of the first `n` of `variables` in the
/// place of its placeholder, one variable after the other.
pub open spec fn filled(text: Seq<char>, variables: Seq<(Seq<char>, Seq<char>)>, n: int) -> Seq<
    char,
>
    decreases n,
{
    if n <= 0 {
        text
    } else {
        replaced_from(
            filled(text, variables, n - 1),
            0,
            placeholder(variables[n - 1].0),
            variables[n - 1].1,
        )
    }
}

/// The names and values of a vector of pairs.
pub open spec fn pair_texts(v: Seq<(String, String)>) -> Seq<(Seq<char>, Seq<char>)> {
    v.map_values(|p: (String, String)| (p.0@, p.1@))
}

/// `s` with `with` in the place of each occurrence of `pattern`.
fn replace_all(s: &Vec<char>, pattern: &Vec<char>, with: &Vec<char>) -> (r: Vec<char>)
    requires
        pattern@.len() > 0,
    ensures
        r@ == replaced_from(s@, 0, pattern@, with@),
{
    let mut out: Vec<char> = Vec::new();
    let mut i: usize = 0;
    while i < s.len()
        invariant
            i <= s.len(),
            pattern@.len() > 0,
            replaced_from(s@, 0, pattern@, with@) == out@ + replaced_from(
                s@,
                i as int,
                pattern@,
                with@,
            ),
        decreases s.len() - i,
    {
        let ghost before = out@;
        if pattern.len() <= s.len() - i && matches_at(s, pattern, i) {
            let mut k: usize = 0;
            while k < with.len()
                invariant
                    k <= with@.len(),
                    out@ == before + with@.take(k as int),
                decreases with.len() - k,
            {
                out.push(with[k]);
                k += 1;
            }
            i = i + pattern.len();
        } else {
            out.push(s[i]);
            i += 1;
        }
    }
    out
}

/// Fills a template: puts the value of each of `variables` in the place of
/// its placeholder `${name}`, one variable after the other.
pub fn template(template_str: &str, variables: &Vec<(String, String)>) -> (r: String)
    ensures
        r@ == filled(template_str@, pair_texts(variables@), variables@.len() as int),
{
    let mut text = chars_of(template_str);
    let ghost pairs = pair_texts(variables@);
    let mut n: usize = 0;
    while n < variables.len()
        invariant
            n <= variables@.len(),
            pairs == pair_texts(variables@),
            text@ == filled(template_str@, pairs, n as int),
        decreases variables.len() - n,
    {
        let mut pattern: Vec<char> = Vec::new();
        pattern.push('$');
        pattern.push('{');
        let mut name = chars_of(variables[n].0.as_str());
        pattern.append(&mut name);
        pattern.push('}');
        assert(pattern@ == placeholder(pairs[n as int].0));
        let with = chars_of(variables[n].1.as_str());
        text = replace_all(&text, &pattern, &with);
        n += 1;
    }
    crate::text::string_of(&text)
}

} // verus!
