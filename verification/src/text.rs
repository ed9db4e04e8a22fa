//! The rules by which a completion is cut down to what fits at the cursor.
use vstd::prelude::*;
use vstd::string::*;

verus! {

/// The characters of an optional string.
pub open spec fn option_text(s: Option<String>) -> Option<Seq<char>> {
    match s {
        Some(s) => Some(s@),
        None => None,
    }
}

/// The characters with Unicode's `White_Space` property.
pub open spec fn is_white_space(c: char) -> bool {
    let v = c as u32;
    ||| 0x09 <= v <= 0x0d
    ||| v == 0x20
    ||| v == 0x85
    ||| v == 0xa0
    ||| v == 0x1680
    ||| 0x2000 <= v <= 0x200a
    ||| v == 0x2028
    ||| v == 0x2029
    ||| v == 0x202f
    ||| v == 0x205f
    ||| v == 0x3000
}

/// Whether a newline comes before anything that is not white space.
pub open spec fn leading_newline(s: Seq<char>) -> bool {
    exists|i: int|
        0 <= i < s.len() && #[trigger] s[i] == '\n' && forall|j: int|
            0 <= j < i ==> is_white_space(#[trigger] s[j])
}

/// The part of `s` before its first newline; all of it where there is none.
pub open spec fn first_line(s: Seq<char>) -> Seq<char>
    decreases s.len(),
{
    if s.len() == 0 || s[0] == '\n' {
        Seq::empty()
    } else {
        seq![s[0]] + first_line(s.skip(1))
    }
}

/// What is left of a completion when only its first line is wanted: all of it
/// where it opens with a newline.
pub open spec fn trimmed_to_line(s: Seq<char>) -> Seq<char> {
    if leading_newline(s) {
        s
    } else {
        first_line(s)
    }
}

/// `s` without the white space at its end.
pub open spec fn trimmed_end(s: Seq<char>) -> Seq<char>
    decreases s.len(),
{
    if s.len() > 0 && is_white_space(s.last()) {
        trimmed_end(s.drop_last())
    } else {
        s
    }
}

/// Whether `s` holds white space only.
pub open spec fn is_blank_text(s: Seq<char>) -> bool {
    forall|i: int| 0 <= i < s.len() ==> is_white_space(#[trigger] s[i])
}

/// Whether `c` has Unicode's `White_Space` property.
pub fn is_whitespace(c: char) -> (result: bool)
    ensures
        result == is_white_space(c),
{
    let v: u32 = c as u32;
    (0x09 <= v && v <= 0x0d) || v == 0x20 || v == 0x85 || v == 0xa0 || v == 0x1680 || (0x2000 <= v
        && v <= 0x200a) || v == 0x2028 || v == 0x2029 || v == 0x202f || v == 0x205f || v == 0x3000
}

/// Whether `text` reaches a newline before anything that is not white space.
pub fn has_leading_newline(text: &str) -> (result: bool)
    ensures
        result == leading_newline(text@),
{
    for c in it: text.chars()
        invariant
            it.seq() == text@,
            forall|j: int| 0 <= j < it.index() ==> is_white_space(#[trigger] text@[j]),
            forall|j: int| 0 <= j < it.index() ==> #[trigger] text@[j] != '\n',
    {
        let ghost i = it.index() as int;
        assert(text@[i] == c);
        if c == '\n' {
            return true;
        }
        if !is_whitespace(c) {
            return false;
        }
    }
    false
}

/// The first `n` characters, none of them a newline, open the first line.
proof fn lemma_first_line_step(s: Seq<char>, n: int)
    requires
        0 <= n <= s.len(),
        forall|j: int| 0 <= j < n ==> #[trigger] s[j] != '\n',
    ensures
        n == s.len() || s[n] == '\n' ==> first_line(s) == s.take(n),
    decreases n,
{
    if n > 0 {
        let rest = s.skip(1);
        assert forall|j: int| 0 <= j < n - 1 implies #[trigger] rest[j] != '\n' by {
            assert(rest[j] == s[j + 1]);
        }
        lemma_first_line_step(rest, n - 1);
        if n == s.len() || s[n] == '\n' {
            assert(n < s.len() ==> rest[n - 1] == s[n]);
            assert(seq![s[0]] + rest.take(n - 1) =~= s.take(n));
        }
    } else {
        assert(s.take(0) =~= Seq::<char>::empty());
    }
}

/// White space from `n` on is what trimming the end removes.
proof fn lemma_trimmed_end_step(s: Seq<char>, n: int)
    requires
        0 <= n <= s.len(),
        n > 0 ==> !is_white_space(s[n - 1]),
        forall|j: int| n <= j < s.len() ==> is_white_space(#[trigger] s[j]),
    ensures
        trimmed_end(s) == s.take(n),
    decreases s.len(),
{
    if n < s.len() {
        assert(is_white_space(s[s.len() - 1]));
        let front = s.drop_last();
        lemma_trimmed_end_step(front, n);
        assert(front.take(n) =~= s.take(n));
    } else {
        assert(s.take(n) =~= s);
    }
}

/// The first line of a completion, or all of it where it opens with a newline.
pub fn trim_to_end_of_line_unless_leading_newline(text: &str) -> (result: &str)
    ensures
        result@ == trimmed_to_line(text@),
{
    if has_leading_newline(text) {
        return text;
    }
    let mut end: usize = 0;
    let len: usize = text.unicode_len();
    for c in it: text.chars()
        invariant
            it.seq() == text@,
            len == text@.len(),
            end == it.index(),
            !leading_newline(text@),
            forall|j: int| 0 <= j < it.index() ==> #[trigger] text@[j] != '\n',
    {
        let ghost i = it.index() as int;
        assert(text@[i] == c);
        if c == '\n' {
            proof {
                lemma_first_line_step(text@, i);
                assert(text@.take(i) =~= text@.subrange(0, i));
            }
            return text.substring_char(0, end);
        }
        end = end + 1;
    }
    proof {
        lemma_first_line_step(text@, text@.len() as int);
        assert(text@.take(text@.len() as int) =~= text@);
    }
    text
}

/// `text` without the white space at its end.
pub fn trim_end(text: &str) -> (result: &str)
    ensures
        result@ == trimmed_end(text@),
{
    let len: usize = text.unicode_len();
    let mut end: usize = 0;
    let mut seen: usize = 0;
    for c in it: text.chars()
        invariant
            it.seq() == text@,
            len == text@.len(),
            seen == it.index(),
            end <= seen,
            end > 0 ==> !is_white_space(text@[end - 1]),
            forall|j: int| end <= j < seen ==> is_white_space(#[trigger] text@[j]),
    {
        assert(text@[it.index() as int] == c);
        seen = seen + 1;
        if !is_whitespace(c) {
            end = seen;
        }
    }
    proof {
        lemma_trimmed_end_step(text@, end as int);
        assert(text@.take(end as int) =~= text@.subrange(0, end as int));
    }
    text.substring_char(0, end)
}

/// Whether `text` holds white space only, or nothing.
pub fn is_blank(text: &str) -> (result: bool)
    ensures
        result == is_blank_text(text@),
        result == (forall|i: int| 0 <= i < text@.len() ==> is_white_space(#[trigger] text@[i])),
{
    for c in it: text.chars()
        invariant
            it.seq() == text@,
            forall|j: int| 0 <= j < it.index() ==> is_white_space(#[trigger] text@[j]),
    {
        assert(text@[it.index() as int] == c);
        if !is_whitespace(c) {
            return false;
        }
    }
    true
}

/// The first line is a prefix of the text, holds no newline, and ends where the
/// text ends or at a newline.
pub proof fn law_first_line(s: Seq<char>)
    ensures
        first_line(s).len() <= s.len(),
        first_line(s) == s.take(first_line(s).len() as int),
        !first_line(s).contains('\n'),
        first_line(s).len() == s.len() || s[first_line(s).len() as int] == '\n',
    decreases s.len(),
{
    if s.len() > 0 && s[0] != '\n' {
        let rest = s.skip(1);
        law_first_line(rest);
        let n = first_line(rest).len();
        assert(first_line(s) =~= s.take((n + 1) as int));
        if n < rest.len() {
            assert(rest[n as int] == s[n as int + 1]);
        }
        assert forall|j: int| 0 <= j < first_line(s).len() implies first_line(s)[j] != '\n' by {
            if j > 0 {
                assert(first_line(s)[j] == first_line(rest)[j - 1]);
                assert(first_line(rest).contains(first_line(rest)[j - 1]));
            }
        }
    } else {
        assert(s.take(0) =~= Seq::<char>::empty());
    }
}

/// A newline opens a text, or white space does and a newline opens what follows it.
pub proof fn law_leading_newline(c: char, rest: Seq<char>)
    ensures
        !leading_newline(Seq::<char>::empty()),
        leading_newline(seq![c] + rest) <==> c == '\n' || (is_white_space(c) && leading_newline(
            rest,
        )),
{
    let s = seq![c] + rest;
    if leading_newline(s) && c != '\n' {
        let i = choose|i: int|
            0 <= i < s.len() && #[trigger] s[i] == '\n' && forall|j: int|
                0 <= j < i ==> is_white_space(#[trigger] s[j]);
        assert(i > 0);
        assert(is_white_space(s[0]));
        assert(rest[i - 1] == '\n');
        assert forall|j: int| 0 <= j < i - 1 implies is_white_space(#[trigger] rest[j]) by {
            assert(s[j + 1] == rest[j]);
        }
    }
    if c == '\n' {
        assert(s[0] == '\n');
    } else if is_white_space(c) && leading_newline(rest) {
        let i = choose|i: int|
            0 <= i < rest.len() && #[trigger] rest[i] == '\n' && forall|j: int|
                0 <= j < i ==> is_white_space(#[trigger] rest[j]);
        assert(s[i + 1] == '\n');
        assert forall|j: int| 0 <= j < i + 1 implies is_white_space(#[trigger] s[j]) by {
            if j > 0 {
                assert(s[j] == rest[j - 1]);
            }
        }
    }
}

/// A cut completion is a prefix of the completion. Where the completion opens with a
/// newline, nothing is cut; else it is cut exactly at its first newline: the result holds
/// none, and ends where the completion ends or at a newline. Cutting it a second time
/// changes nothing.
pub proof fn law_trim_to_line(s: Seq<char>)
    ensures
        trimmed_to_line(s).is_prefix_of(s),
        leading_newline(s) ==> trimmed_to_line(s) == s,
        !leading_newline(s) ==> !trimmed_to_line(s).contains('\n'),
        !leading_newline(s) ==> trimmed_to_line(s).len() == s.len() || s[trimmed_to_line(
            s,
        ).len() as int] == '\n',
        trimmed_to_line(trimmed_to_line(s)) == trimmed_to_line(s),
{
    law_first_line(s);
    let t = first_line(s);
    law_first_line(t);
    if !leading_newline(s) {
        assert forall|i: int| 0 <= i < t.len() implies #[trigger] t[i] != '\n' by {
            assert(t.contains(t[i]));
        }
        assert(!leading_newline(t));
        assert(first_line(t) =~= t);
    }
}

/// A completion of one line is kept whole. One of several lines is cut to its first line,
/// however that is indented, unless that line holds white space only, and then it is kept
/// whole too.
pub proof fn law_cut_line(line: Seq<char>, rest: Seq<char>)
    requires
        forall|i: int| 0 <= i < line.len() ==> #[trigger] line[i] != '\n',
    ensures
        trimmed_to_line(line) == line,
        (forall|i: int| 0 <= i < line.len() ==> is_white_space(#[trigger] line[i]))
            ==> trimmed_to_line(line + seq!['\n'] + rest) == line + seq!['\n'] + rest,
        (exists|i: int| 0 <= i < line.len() && !is_white_space(#[trigger] line[i]))
            ==> trimmed_to_line(line + seq!['\n'] + rest) == line,
{
    let n = line.len() as int;
    let s = line + seq!['\n'] + rest;
    lemma_first_line_step(line, n);
    assert(line.take(n) =~= line);
    assert forall|j: int| 0 <= j < n implies #[trigger] s[j] != '\n' by {
        assert(s[j] == line[j]);
    }
    assert(s[n] == '\n');
    lemma_first_line_step(s, n);
    assert(s.take(n) =~= line);
    if forall|i: int| 0 <= i < line.len() ==> is_white_space(#[trigger] line[i]) {
        assert forall|j: int| 0 <= j < n implies is_white_space(#[trigger] s[j]) by {
            assert(s[j] == line[j]);
        }
    }
    if exists|i: int| 0 <= i < line.len() && !is_white_space(#[trigger] line[i]) {
        let i = choose|i: int| 0 <= i < line.len() && !is_white_space(#[trigger] line[i]);
        assert(s[i] == line[i]);
        assert forall|m: int| 0 <= m < s.len() && #[trigger] s[m] == '\n' implies m >= n by {}
        assert(!leading_newline(s));
    }
}

/// Trimming the end keeps a prefix that does not end in white space, cuts off
/// white space only, and leaves nothing exactly where the text is blank.
pub proof fn law_trim_end(s: Seq<char>)
    ensures
        trimmed_end(s).len() <= s.len(),
        trimmed_end(s) == s.take(trimmed_end(s).len() as int),
        trimmed_end(s).len() > 0 ==> !is_white_space(trimmed_end(s).last()),
        forall|j: int|
            trimmed_end(s).len() <= j < s.len() ==> is_white_space(#[trigger] s[j]),
        trimmed_end(s).len() == 0 <==> is_blank_text(s),
        trimmed_end(trimmed_end(s)) == trimmed_end(s),
    decreases s.len(),
{
    if s.len() > 0 && is_white_space(s.last()) {
        let front = s.drop_last();
        law_trim_end(front);
        assert(front.take(trimmed_end(front).len() as int) =~= s.take(
            trimmed_end(front).len() as int,
        ));
        assert forall|j: int| trimmed_end(s).len() <= j < s.len() implies is_white_space(
            #[trigger] s[j],
        ) by {
            if j < front.len() {
                assert(front[j] == s[j]);
            }
        }
        if is_blank_text(front) {
            assert(is_blank_text(s));
        }
        if is_blank_text(s) {
            assert forall|i: int| 0 <= i < front.len() implies is_white_space(
                #[trigger] front[i],
            ) by {
                assert(front[i] == s[i]);
            }
        }
    } else {
        assert(s.take(s.len() as int) =~= s);
        if s.len() > 0 {
            assert(s[s.len() - 1] == s.last());
        }
    }
}

} // verus!
