//! Reading the output of system tools: lines, fields between blanks, and
//! numbers.

use vstd::prelude::*;
use vstd::string::*;
use crate::text::{blank, contains_text, is_blank, occurs_in, push_char};

verus! {

/// The texts of a list of strings.
pub open spec fn texts_of(list: Seq<String>) -> Seq<Seq<char>> {
    list.map_values(|s: String| s@)
}

/// A line without the carriage return at its end, where it has one.
pub open spec fn without_return(line: Seq<char>) -> Seq<char> {
    if line.len() > 0 && line.last() == '\r' {
        line.drop_last()
    } else {
        line
    }
}

/// The lines of `s` from the position `at` on, where `line` holds what was
/// read of the current line.
pub open spec fn lines_from(s: Seq<char>, at: int, line: Seq<char>) -> Seq<Seq<char>>
    decreases s.len() - at,
{
    if at < 0 || at >= s.len() {
        if line.len() > 0 {
            seq![line]
        } else {
            seq![]
        }
    } else if s[at] == '\n' {
        seq![without_return(line)] + lines_from(s, at + 1, seq![])
    } else {
        lines_from(s, at + 1, line.push(s[at]))
    }
}

/// The lines of a text. A line ends with a line feed, which is left out
/// together with a carriage return before it; the last line need not end
/// with one.
pub open spec fn lines_of(s: Seq<char>) -> Seq<Seq<char>> {
    lines_from(s, 0, seq![])
}

/// The fields of `s` from the position `at` on, where `word` holds what was
/// read of the current field.
pub open spec fn fields_from(s: Seq<char>, at: int, word: Seq<char>) -> Seq<Seq<char>>
    decreases s.len() - at,
{
    if at < 0 || at >= s.len() {
        if word.len() > 0 {
            seq![word]
        } else {
            seq![]
        }
    } else if is_blank(s[at]) {
        if word.len() > 0 {
            seq![word] + fields_from(s, at + 1, seq![])
        } else {
            fields_from(s, at + 1, seq![])
        }
    } else {
        fields_from(s, at + 1, word.push(s[at]))
    }
}

/// The fields of a line: the runs of characters between blanks.
pub open spec fn fields_of(s: Seq<char>) -> Seq<Seq<char>> {
    fields_from(s, 0, seq![])
}

/// The parts of `s` between the separator `sep`, from the position `at` on,
/// where `part` holds what was read of the current part.
pub open spec fn parts_from(s: Seq<char>, sep: char, at: int, part: Seq<char>) -> Seq<Seq<char>>
    decreases s.len() - at,
{
    if at < 0 || at >= s.len() {
        seq![part]
    } else if s[at] == sep {
        seq![part] + parts_from(s, sep, at + 1, seq![])
    } else {
        parts_from(s, sep, at + 1, part.push(s[at]))
    }
}

/// The parts of a text between the separator `sep`. There is one part more
/// than there are separators; a part may be empty.
pub open spec fn parts_of(s: Seq<char>, sep: char) -> Seq<Seq<char>> {
    parts_from(s, sep, 0, seq![])
}

/// The lines of a text.
pub fn split_lines(s: &str) -> (lines: Vec<String>)
    ensures
        texts_of(lines@) == lines_of(s@),
{
    let n: usize = s.unicode_len();
    let mut lines: Vec<String> = Vec::new();
    let mut line = String::new();
    let mut last: char = ' ';
    let mut i: usize = 0;
    while i < n
        invariant
            i <= n,
            n == s@.len(),
            line@.len() > 0 ==> last == line@.last(),
            lines_of(s@) == texts_of(lines@) + lines_from(s@, i as int, line@),
        decreases n - i,
    {
        let c: char = s.get_char(i);
        if c == '\n' {
            let ghost before = texts_of(lines@);
            let whole: String = if line.as_str().unicode_len() > 0 && last == '\r' {
                let cut: usize = line.as_str().unicode_len() - 1;
                line.as_str().substring_char(0, cut).to_owned()
            } else {
                line
            };
            assert(whole@ == without_return(line@)) by {
                if line@.len() > 0 && line@.last() == '\r' {
                    assert(line@.subrange(0, line@.len() - 1) == line@.drop_last());
                }
            }
            lines.push(whole);
            line = String::new();
            assert(texts_of(lines@) == before.push(whole@));
            assert(before.push(whole@) + lines_from(s@, i + 1, seq![]) == before + (seq![whole@]
                + lines_from(s@, i + 1, seq![])));
        } else {
            push_char(&mut line, c);
            last = c;
        }
        i += 1;
    }
    if line.as_str().unicode_len() > 0 {
        let ghost before = texts_of(lines@);
        lines.push(line);
        assert(texts_of(lines@) == before.push(line@));
        assert(before.push(line@) == before + seq![line@]);
    } else {
        assert(texts_of(lines@) + Seq::<Seq<char>>::empty() == texts_of(lines@));
    }
    lines
}

/// The fields of a line.
pub fn split_fields(s: &str) -> (fields: Vec<String>)
    ensures
        texts_of(fields@) == fields_of(s@),
{
    let n: usize = s.unicode_len();
    let mut fields: Vec<String> = Vec::new();
    let mut word = String::new();
    let mut i: usize = 0;
    while i < n
        invariant
            i <= n,
            n == s@.len(),
            fields_of(s@) == texts_of(fields@) + fields_from(s@, i as int, word@),
        decreases n - i,
    {
        let c: char = s.get_char(i);
        if blank(c) {
            if word.as_str().unicode_len() > 0 {
                let ghost before = texts_of(fields@);
                let ghost done = word@;
                fields.push(word);
                assert(texts_of(fields@) == before.push(done));
                assert(before.push(done) + fields_from(s@, i + 1, seq![]) == before + (seq![done]
                    + fields_from(s@, i + 1, seq![])));
                word = String::new();
                assert(word@ =~= seq![]);
            } else {
                assert(word@ =~= seq![]);
            }
        } else {
            push_char(&mut word, c);
        }
        i += 1;
    }
    if word.as_str().unicode_len() > 0 {
        let ghost before = texts_of(fields@);
        fields.push(word);
        assert(texts_of(fields@) == before.push(word@));
        assert(before.push(word@) == before + seq![word@]);
    } else {
        assert(texts_of(fields@) + Seq::<Seq<char>>::empty() == texts_of(fields@));
    }
    fields
}

/// The parts of a text between the separator `sep`.
pub fn split_parts(s: &str, sep: char) -> (parts: Vec<String>)
    ensures
        texts_of(parts@) == parts_of(s@, sep),
        parts.len() >= 1,
{
    let n: usize = s.unicode_len();
    let mut parts: Vec<String> = Vec::new();
    let mut part = String::new();
    let mut i: usize = 0;
    while i < n
        invariant
            i <= n,
            n == s@.len(),
            parts_of(s@, sep) == texts_of(parts@) + parts_from(s@, sep, i as int, part@),
        decreases n - i,
    {
        let c: char = s.get_char(i);
        if c == sep {
            let ghost before = texts_of(parts@);
            parts.push(part);
            assert(texts_of(parts@) == before.push(part@));
            assert(before.push(part@) + parts_from(s@, sep, i + 1, seq![]) == before + (seq![part@]
                + parts_from(s@, sep, i + 1, seq![])));
            part = String::new();
        } else {
            push_char(&mut part, c);
        }
        i += 1;
    }
    let ghost before = texts_of(parts@);
    parts.push(part);
    assert(texts_of(parts@) == before.push(part@));
    assert(before.push(part@) == before + seq![part@]);
    parts
}

/// The number that decimal digits write.
pub open spec fn digits_value(s: Seq<char>) -> nat
    decreases s.len(),
{
    if s.len() == 0 {
        0
    } else {
        digits_value(s.drop_last()) * 10 + (s.last() as nat - '0' as nat) as nat
    }
}

/// Every character is a decimal digit.
pub open spec fn all_digits(s: Seq<char>) -> bool {
    forall|i: int| 0 <= i < s.len() ==> '0' <= #[trigger] s[i] <= '9'
}

/// The digits of a number as it is written: the text itself, or the text
/// after a plus sign in front.
pub open spec fn unsigned_digits(s: Seq<char>) -> Seq<char> {
    if s.len() > 0 && s[0] == '+' {
        s.drop_first()
    } else {
        s
    }
}

/// The number that a text writes: decimal digits, at least one, with or
/// without a plus sign in front, for a number that a `u64` holds.
pub open spec fn number_of(s: Seq<char>) -> Option<u64> {
    let digits = unsigned_digits(s);
    if digits.len() > 0 && all_digits(digits) && digits_value(digits) <= u64::MAX {
        Some(digits_value(digits) as u64)
    } else {
        None
    }
}

/// More digits never write a smaller number.
pub proof fn lemma_digits_grow(s: Seq<char>, n: int)
    requires
        0 <= n <= s.len(),
    ensures
        digits_value(s.take(n)) <= digits_value(s),
    decreases s.len() - n,
{
    if n < s.len() {
        lemma_digits_grow(s, n + 1);
        assert(s.take(n + 1).drop_last() == s.take(n));
    } else {
        assert(s.take(n) == s);
    }
}

/// Reads the number that a text writes.
pub fn parse_number(s: &str) -> (number: Option<u64>)
    ensures
        number == number_of(s@),
{
    let n: usize = s.unicode_len();
    let start: usize = if n > 0 && s.get_char(0) == '+' {
        1
    } else {
        0
    };
    if start == n {
        return None;
    }
    let ghost digits = unsigned_digits(s@);
    assert(digits == s@.subrange(start as int, n as int));
    let mut value: u64 = 0;
    let mut i: usize = start;
    while i < n
        invariant
            start <= i <= n,
            n == s@.len(),
            digits == s@.subrange(start as int, n as int),
            digits == unsigned_digits(s@),
            all_digits(digits.take(i - start)),
            value == digits_value(digits.take(i - start)),
        decreases n - i,
    {
        let c: char = s.get_char(i);
        assert(c == digits[i - start]);
        if !('0' <= c && c <= '9') {
            assert(!all_digits(digits));
            return None;
        }
        let d: u64 = (c as u32 - '0' as u32) as u64;
        proof {
            assert(digits.take(i - start + 1).drop_last() == digits.take(i - start));
            assert(digits.take(i - start + 1).last() == c);
            lemma_digits_grow(digits, i - start + 1);
        }
        if value > (u64::MAX - d) / 10 {
            assert(digits_value(digits.take(i - start + 1)) == value * 10 + d);
            assert(value * 10 + d > u64::MAX);
            assert(digits_value(digits) > u64::MAX);
            return None;
        }
        assert(digits_value(digits.take(i - start + 1)) == value * 10 + d);
        assert(all_digits(digits.take(i - start + 1))) by {
            assert forall|j: int| 0 <= j < i - start + 1 implies '0' <= #[trigger] digits.take(
                i - start + 1,
            )[j] <= '9' by {
                if j < i - start {
                    assert(digits.take(i - start + 1)[j] == digits.take(i - start)[j]);
                }
            }
        }
        value = value * 10 + d;
        i += 1;
    }
    assert(digits.take(n - start) == digits);
    Some(value)
}


/// The first of the lines from the position `at` on in which `needle`
/// stands.
pub open spec fn first_with_from(lines: Seq<Seq<char>>, needle: Seq<char>, at: int) -> Option<
    Seq<char>,
>
    decreases lines.len() - at,
{
    if at < 0 || at >= lines.len() {
        None
    } else if occurs_in(lines[at], needle) {
        Some(lines[at])
    } else {
        first_with_from(lines, needle, at + 1)
    }
}

/// The first of the lines in which `needle` stands.
pub open spec fn first_with(lines: Seq<Seq<char>>, needle: Seq<char>) -> Option<Seq<char>> {
    first_with_from(lines, needle, 0)
}

/// The position of the first of the lines in which `needle` stands.
pub fn find_line_with(lines: &Vec<String>, needle: &str) -> (found: Option<usize>)
    ensures
        match found {
            Some(i) => i < lines.len() && first_with(texts_of(lines@), needle@) == Some(lines[i as int]@),
            None => first_with(texts_of(lines@), needle@) is None,
        },
{
    let mut i: usize = 0;
    while i < lines.len()
        invariant
            i <= lines.len(),
            first_with(texts_of(lines@), needle@) == first_with_from(
                texts_of(lines@),
                needle@,
                i as int,
            ),
        decreases lines.len() - i,
    {
        assert(texts_of(lines@)[i as int] == lines[i as int]@);
        if contains_text(lines[i].as_str(), needle) {
            return Some(i);
        }
        i += 1;
    }
    None
}

} // verus!
