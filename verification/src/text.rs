//! Text as sequences of characters: trimming, letter case and the text of a line.

use vstd::prelude::*;

verus! {

/// The characters that end a line.
pub open spec fn is_line_end(c: char) -> bool {
    c == '\n' || c == '\r'
}

/// The characters with Unicode's `White_Space` property.
pub open spec fn is_white_space(c: char) -> bool {
    ||| '\u{9}' <= c <= '\u{d}'
    ||| c == '\u{20}'
    ||| c == '\u{85}'
    ||| c == '\u{a0}'
    ||| c == '\u{1680}'
    ||| '\u{2000}' <= c <= '\u{200a}'
    ||| c == '\u{2028}'
    ||| c == '\u{2029}'
    ||| c == '\u{202f}'
    ||| c == '\u{205f}'
    ||| c == '\u{3000}'
}

/// `s` without the characters at its end that satisfy `drop`.
pub open spec fn drop_trailing(s: Seq<char>, drop: spec_fn(char) -> bool) -> Seq<char>
    decreases s.len(),
{
    if s.len() > 0 && drop(s.last()) {
        drop_trailing(s.drop_last(), drop)
    } else {
        s
    }
}

/// `s` without the characters at its start that satisfy `drop`.
pub open spec fn drop_leading(s: Seq<char>, drop: spec_fn(char) -> bool) -> Seq<char>
    decreases s.len(),
{
    if s.len() > 0 && drop(s.first()) {
        drop_leading(s.drop_first(), drop)
    } else {
        s
    }
}

/// A line as it was read, without the characters that end it.
pub open spec fn line_text(line: Seq<char>) -> Seq<char> {
    drop_trailing(line, |c: char| is_line_end(c))
}

/// `s` without white space at either end.
pub open spec fn trimmed(s: Seq<char>) -> Seq<char> {
    drop_trailing(drop_leading(s, |c: char| is_white_space(c)), |c: char| is_white_space(c))
}

/// Whether `s` holds nothing but white space.
pub open spec fn is_blank(s: Seq<char>) -> bool {
    forall|i: int| 0 <= i < s.len() ==> is_white_space(#[trigger] s[i])
}

/// The characters of `s`, in order.
pub fn chars_of(s: &str) -> (chars: Vec<char>)
    ensures
        chars@ == s@,
{
    let mut chars: Vec<char> = Vec::new();
    for c in it: s.chars()
        invariant
            it.seq() == s@,
            chars@ == s@.take(it.index() as int),
    {
        chars.push(c);
    }
    chars
}

/// Whether `c` has Unicode's `White_Space` property.
pub fn white_space(c: char) -> (yes: bool)
    ensures
        yes == is_white_space(c),
{
    ('\u{9}' <= c && c <= '\u{d}') || c == '\u{20}' || c == '\u{85}' || c == '\u{a0}' || c
        == '\u{1680}' || ('\u{2000}' <= c && c <= '\u{200a}') || c == '\u{2028}' || c == '\u{2029}'
        || c == '\u{202f}' || c == '\u{205f}' || c == '\u{3000}'
}

/// Whether `s` holds nothing but white space.
pub fn blank(s: &str) -> (yes: bool)
    ensures
        yes == is_blank(s@),
{
    let chars = chars_of(s);
    let mut i: usize = 0;
    while i < chars.len()
        invariant
            chars@ == s@,
            i <= chars.len(),
            forall|j: int| 0 <= j < i ==> is_white_space(#[trigger] s@[j]),
        decreases chars.len() - i,
    {
        if !white_space(chars[i]) {
            assert(!is_white_space(s@[i as int]));
            return false;
        }
        i = i + 1;
    }
    true
}

/// Takes the line end off a line.
pub fn take_line_text(line: &str) -> (text: &str)
    ensures
        text@ == line_text(line@),
{
    let chars = chars_of(line);
    let mut end: usize = chars.len();
    let ghost drop = |c: char| is_line_end(c);
    assert(line@.take(end as int) == line@);
    while end > 0 && (chars[end - 1] == '\n' || chars[end - 1] == '\r')
        invariant
            chars@ == line@,
            end <= chars.len(),
            drop == (|c: char| is_line_end(c)),
            drop_trailing(line@.take(end as int), drop) == drop_trailing(line@, drop),
        decreases end,
    {
        assert(line@.take(end as int).drop_last() == line@.take(end - 1));
        end = end - 1;
    }
    let text = line.substring_char(0, end);
    assert(text@ == line@.take(end as int));
    text
}

/// Takes the white space off both ends of `s`.
pub fn trim(s: &str) -> (text: &str)
    ensures
        text@ == trimmed(s@),
{
    let chars = chars_of(s);
    let len: usize = chars.len();
    let ghost drop = |c: char| is_white_space(c);
    let mut start: usize = 0;
    assert(s@.skip(0) == s@);
    while start < len && white_space(chars[start])
        invariant
            chars@ == s@,
            len == chars.len(),
            start <= len,
            drop == (|c: char| is_white_space(c)),
            drop_leading(s@.skip(start as int), drop) == drop_leading(s@, drop),
        decreases len - start,
    {
        assert(s@.skip(start as int).drop_first() == s@.skip(start + 1));
        start = start + 1;
    }
    let mut end: usize = len;
    assert(s@.subrange(start as int, end as int) == s@.skip(start as int));
    while end > start && white_space(chars[end - 1])
        invariant
            chars@ == s@,
            start <= end <= chars.len(),
            drop == (|c: char| is_white_space(c)),
            drop_trailing(s@.subrange(start as int, end as int), drop) == drop_trailing(
                s@.skip(start as int),
                drop,
            ),
        decreases end,
    {
        assert(s@.subrange(start as int, end as int).drop_last() == s@.subrange(
            start as int,
            end - 1,
        ));
        end = end - 1;
    }
    s.substring_char(start, end)
}

/// `c` in lower case, if it is an ASCII letter.
pub open spec fn ascii_lower(c: char) -> char {
    if 'A' <= c <= 'Z' {
        (c as u8 + 32) as char
    } else {
        c
    }
}

/// `s` with its ASCII letters in lower case.
pub open spec fn ascii_lowered(s: Seq<char>) -> Seq<char> {
    s.map_values(|c: char| ascii_lower(c))
}

fn lower(c: char) -> (l: char)
    ensures
        l == ascii_lower(c),
{
    if 'A' <= c && c <= 'Z' {
        (c as u8 + 32) as char
    } else {
        c
    }
}

/// Whether two texts are equal when the case of ASCII letters is ignored.
pub fn equal_ignoring_case(a: &str, b: &str) -> (equal: bool)
    ensures
        equal == (ascii_lowered(a@) == ascii_lowered(b@)),
{
    let left = chars_of(a);
    let right = chars_of(b);
    let ghost la = ascii_lowered(a@);
    let ghost lb = ascii_lowered(b@);
    assert(la.len() == a@.len() && lb.len() == b@.len());
    if left.len() != right.len() {
        return false;
    }
    let mut i: usize = 0;
    while i < left.len()
        invariant
            left@ == a@,
            right@ == b@,
            left.len() == right.len(),
            i <= left.len(),
            la == ascii_lowered(a@),
            lb == ascii_lowered(b@),
            forall|j: int| 0 <= j < i ==> la[j] == lb[j],
        decreases left.len() - i,
    {
        if lower(left[i]) != lower(right[i]) {
            assert(la[i as int] != lb[i as int]);
            return false;
        }
        i = i + 1;
    }
    assert(la == lb);
    true
}

/// The part of `s` behind its last colon, or all of `s` where it has none.
pub open spec fn after_last_colon(s: Seq<char>) -> Seq<char>
    decreases s.len(),
{
    if s.len() == 0 || s.last() == ':' {
        Seq::empty()
    } else {
        after_last_colon(s.drop_last()).push(s.last())
    }
}

/// Takes the part of `s` behind its last colon.
pub fn take_after_last_colon(s: &str) -> (part: &str)
    ensures
        part@ == after_last_colon(s@),
{
    let chars = chars_of(s);
    let len: usize = chars.len();
    let mut start: usize = len;
    while start > 0 && chars[start - 1] != ':'
        invariant
            chars@ == s@,
            len == chars.len(),
            start <= len,
            forall|i: int| start <= i < len ==> s@[i] != ':',
        decreases start,
    {
        start = start - 1;
    }
    proof {
        lemma_after_last_colon(s@, start as int);
    }
    s.substring_char(start, len)
}

/// What stands behind the last colon starts right behind it, or at the start of the text.
proof fn lemma_after_last_colon(s: Seq<char>, start: int)
    requires
        0 <= start <= s.len(),
        start == 0 || s[start - 1] == ':',
        forall|i: int| start <= i < s.len() ==> s[i] != ':',
    ensures
        after_last_colon(s) == s.subrange(start, s.len() as int),
    decreases s.len(),
{
    if start < s.len() {
        lemma_after_last_colon(s.drop_last(), start);
        assert(s.drop_last().subrange(start, s.len() - 1).push(s.last()) == s.subrange(
            start,
            s.len() as int,
        ));
    }
}

/// What is dropped at the end is all that can be: a kept text does not end in it.
pub proof fn lemma_drop_trailing(s: Seq<char>, drop: spec_fn(char) -> bool)
    ensures
        drop_trailing(s, drop).len() <= s.len(),
        drop_trailing(s, drop) == s.take(drop_trailing(s, drop).len() as int),
        drop_trailing(s, drop).len() > 0 ==> !drop(drop_trailing(s, drop).last()),
        forall|i: int| drop_trailing(s, drop).len() <= i < s.len() ==> drop(#[trigger] s[i]),
    decreases s.len(),
{
    if s.len() > 0 && drop(s.last()) {
        lemma_drop_trailing(s.drop_last(), drop);
        let kept = drop_trailing(s, drop);
        assert(s.drop_last().take(kept.len() as int) == s.take(kept.len() as int));
        assert forall|i: int| kept.len() <= i < s.len() implies drop(#[trigger] s[i]) by {
            if i < s.len() - 1 {
                assert(s.drop_last()[i] == s[i]);
            }
        }
    } else {
        assert(s.take(s.len() as int) == s);
    }
}

/// What is dropped at the start is all that can be, and what is kept is the end of the text.
pub proof fn lemma_drop_leading(s: Seq<char>, drop: spec_fn(char) -> bool)
    ensures
        drop_leading(s, drop).len() <= s.len(),
        drop_leading(s, drop) == s.skip(s.len() - drop_leading(s, drop).len()),
        drop_leading(s, drop).len() > 0 ==> !drop(drop_leading(s, drop).first()),
        forall|i: int|
            0 <= i < s.len() - drop_leading(s, drop).len() ==> drop(#[trigger] s[i]),
    decreases s.len(),
{
    if s.len() > 0 && drop(s.first()) {
        let rest = s.drop_first();
        lemma_drop_leading(rest, drop);
        let kept = drop_leading(s, drop);
        assert(rest.skip(rest.len() - kept.len()) == s.skip(s.len() - kept.len()));
        assert forall|i: int| 0 <= i < s.len() - kept.len() implies drop(#[trigger] s[i]) by {
            if i > 0 {
                assert(rest[i - 1] == s[i]);
            }
        }
    } else {
        assert(s.skip(0) == s);
    }
}

/// The text of a line that is not blank is not blank either: a line end is white space.
pub proof fn lemma_text_of_a_line(line: Seq<char>)
    ensures
        is_blank(line_text(line)) == is_blank(line),
{
    let drop = |c: char| is_line_end(c);
    lemma_drop_trailing(line, drop);
    let text = line_text(line);
    if is_blank(line) {
        assert forall|i: int| 0 <= i < text.len() implies is_white_space(#[trigger] text[i]) by {
            assert(text[i] == line[i]);
        }
    }
    if is_blank(text) {
        assert forall|i: int| 0 <= i < line.len() implies is_white_space(#[trigger] line[i]) by {
            if i < text.len() {
                assert(text[i] == line[i]);
            } else {
                assert(drop(line[i]));
            }
        }
    }
}

/// White space is these characters, by their code points, and no others.
pub proof fn law_white_space_by_code_point(c: char)
    ensures
        is_white_space(c) == ({
            let n = c as int;
            ||| 9 <= n <= 13
            ||| n == 32
            ||| n == 133
            ||| n == 160
            ||| n == 5760
            ||| 8192 <= n <= 8202
            ||| n == 8232
            ||| n == 8233
            ||| n == 8239
            ||| n == 8287
            ||| n == 12288
        }),
{
}

/// Trimming takes off white space, all of it at both ends and nothing else: what is left is a part
/// of the text, with only white space before and behind it, and it neither starts nor ends in
/// white space.
pub proof fn law_trimming_takes_off_white_space_alone(s: Seq<char>)
    ensures
        exists|a: int, b: int|
            {
                &&& 0 <= a <= b <= s.len()
                &&& trimmed(s) == #[trigger] s.subrange(a, b)
                &&& forall|i: int| 0 <= i < a ==> is_white_space(#[trigger] s[i])
                &&& forall|i: int| b <= i < s.len() ==> is_white_space(#[trigger] s[i])
                &&& a < b ==> !is_white_space(s[a]) && !is_white_space(s[b - 1])
            },
{
    let drop = |c: char| is_white_space(c);
    let front = drop_leading(s, drop);
    lemma_drop_leading(s, drop);
    lemma_drop_trailing(front, drop);
    let kept = drop_trailing(front, drop);
    let a = s.len() - front.len();
    let b = a + kept.len();
    assert(kept == s.subrange(a, b));
    assert forall|i: int| 0 <= i < a implies is_white_space(#[trigger] s[i]) by {
        assert(drop(s[i]));
    }
    assert forall|i: int| b <= i < s.len() implies is_white_space(#[trigger] s[i]) by {
        assert(front[i - a] == s[i]);
        assert(drop(front[i - a]));
    }
    if a < b {
        assert(kept.last() == s[b - 1]);
        assert(front.first() == s[a]);
    }
    assert(trimmed(s) == s.subrange(a, b));
}

/// The text of a line is the line up to its line end: what is cut off is line feeds and carriage
/// returns, all of them at the end and nothing else.
pub proof fn law_line_text_cuts_the_line_end_alone(line: Seq<char>)
    ensures
        line_text(line).len() <= line.len(),
        line_text(line) == line.subrange(0, line_text(line).len() as int),
        forall|i: int|
            line_text(line).len() <= i < line.len() ==> #[trigger] line[i] == '\n' || line[i]
                == '\r',
        line_text(line).len() > 0 ==> line_text(line).last() != '\n' && line_text(line).last()
            != '\r',
{
    let drop = |c: char| is_line_end(c);
    lemma_drop_trailing(line, drop);
    let kept = line_text(line).len() as int;
    assert(line.take(kept) == line.subrange(0, kept));
    assert forall|i: int| kept <= i < line.len() implies #[trigger] line[i] == '\n' || line[i]
        == '\r' by {
        assert(drop(line[i]));
    }
}

/// A text is blank where each of its characters is white space. One other character is enough for
/// it not to be.
pub proof fn law_blank_is_white_space_throughout(s: Seq<char>, i: int)
    ensures
        0 <= i < s.len() && !is_white_space(s[i]) ==> !is_blank(s),
        (forall|k: int| 0 <= k < s.len() ==> is_white_space(#[trigger] s[k])) ==> is_blank(s),
{
}

/// Lower case moves the letters from A to Z, by 32 code points, and leaves everything else where
/// it stands.
pub proof fn law_lower_case_moves_ascii_letters_alone(s: Seq<char>)
    ensures
        ascii_lowered(s).len() == s.len(),
        forall|i: int|
            0 <= i < s.len() ==> (#[trigger] ascii_lowered(s)[i]) as int == if 65 <= s[i] as int
                <= 90 {
                s[i] as int + 32
            } else {
                s[i] as int
            },
{
}

/// What follows the last colon is the end of the text, holds no colon, and starts right behind
/// one, or at the start where there is none.
pub proof fn law_part_behind_the_last_colon(s: Seq<char>)
    ensures
        after_last_colon(s).len() <= s.len(),
        after_last_colon(s) == s.subrange(s.len() - after_last_colon(s).len(), s.len() as int),
        forall|i: int|
            0 <= i < after_last_colon(s).len() ==> #[trigger] after_last_colon(s)[i] != ':',
        after_last_colon(s).len() < s.len() ==> s[s.len() - after_last_colon(s).len() - 1] == ':',
    decreases s.len(),
{
    let part = after_last_colon(s);
    if s.len() > 0 && s.last() != ':' {
        let rest = s.drop_last();
        law_part_behind_the_last_colon(rest);
        let before = after_last_colon(rest);
        assert(part == s.subrange(s.len() - part.len(), s.len() as int)) by {
            assert forall|i: int| 0 <= i < part.len() implies part[i] == s[s.len() - part.len()
                + i] by {
                if i < before.len() {
                    assert(before[i] == rest[rest.len() - before.len() + i]);
                }
            }
        }
        assert forall|i: int| 0 <= i < part.len() implies #[trigger] part[i] != ':' by {
            if i < before.len() {
                assert(part[i] == before[i]);
            }
        }
    } else {
        assert(part == s.subrange(s.len() - part.len(), s.len() as int));
    }
}

} // verus!
