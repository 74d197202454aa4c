//! Small string and text helpers shared by the other modules: decimal
//! rendering, substring search and line splitting.

use vstd::prelude::*;
use vstd::string::*;

verus! {

// `String::push` appends one character; vstd specifies most other `String`
// methods but not this one.
pub assume_specification[ String::push ](s: &mut String, c: char)
    ensures
        final(s)@ == old(s)@.push(c),
;

/// The decimal digits of `n`, most significant first.
pub open spec fn dec_digits(n: nat) -> Seq<char>
    decreases n,
{
    if n < 10 {
        seq![digit_char(n)]
    } else {
        dec_digits(n / 10).push(digit_char(n % 10))
    }
}

/// The character for a single decimal digit.
pub open spec fn digit_char(d: nat) -> char {
    ((48 + d) as u8) as char
}

/// Appends the decimal rendering of `n` to `out`.
pub fn push_decimal(out: &mut String, n: u64)
    ensures
        final(out)@ == old(out)@ + dec_digits(n as nat),
    decreases n,
{
    if n < 10 {
        out.push((48 + n as u8) as char);
        assert(old(out)@ + dec_digits(n as nat) =~= old(out)@.push(digit_char(n as nat)));
    } else {
        push_decimal(out, n / 10);
        out.push((48 + (n % 10) as u8) as char);
        assert(old(out)@ + dec_digits(n as nat) =~= (old(out)@ + dec_digits(n as nat / 10)).push(
            digit_char(n as nat % 10),
        ));
    }
}

/// The decimal rendering of `n` as a fresh string.
pub fn u64_string(n: u64) -> (r: String)
    ensures
        r@ == dec_digits(n as nat),
{
    let mut out = String::new();
    push_decimal(&mut out, n);
    assert(out@ =~= dec_digits(n as nat));
    out
}

/// `needle` occurs in `hay` starting exactly at `at`.
pub open spec fn match_at(hay: Seq<char>, needle: Seq<char>, at: int) -> bool {
    0 <= at && at + needle.len() <= hay.len() && hay.subrange(at, at + needle.len()) == needle
}

/// `needle` occurs contiguously somewhere in `hay`.
pub open spec fn contains_str(hay: Seq<char>, needle: Seq<char>) -> bool {
    exists|i: int| match_at(hay, needle, i)
}

fn matches_at(hay: &str, needle: &str, at: usize, hay_len: usize, needle_len: usize) -> (r: bool)
    requires
        hay_len == hay@.len(),
        needle_len == needle@.len(),
        at + needle_len <= hay_len,
    ensures
        r == match_at(hay@, needle@, at as int),
{
    let mut j: usize = 0;
    while j < needle_len
        invariant
            0 <= j <= needle_len,
            hay_len == hay@.len(),
            needle_len == needle@.len(),
            at + needle_len <= hay_len,
            forall|k: int| 0 <= k < j ==> hay@[at + k] == needle@[k],
        decreases needle_len - j,
    {
        if hay.get_char(at + j) != needle.get_char(j) {
            assert(hay@.subrange(at as int, at + needle@.len()) != needle@) by {
                assert(hay@.subrange(at as int, at + needle@.len())[j as int] != needle@[j as int]);
            }
            return false;
        }
        j += 1;
    }
    assert(hay@.subrange(at as int, at + needle@.len()) =~= needle@);
    true
}

/// Substring search: does `hay` contain `needle` anywhere?
pub fn contains_substr(hay: &str, needle: &str) -> (r: bool)
    ensures
        r == contains_str(hay@, needle@),
{
    let hay_len = hay.unicode_len();
    let needle_len = needle.unicode_len();
    if needle_len > hay_len {
        assert(forall|k: int| !match_at(hay@, needle@, k));
        return false;
    }
    if needle_len == 0 {
        assert(hay@.subrange(0, 0) =~= needle@);
        assert(match_at(hay@, needle@, 0));
        return true;
    }
    let last = hay_len - needle_len;
    let mut i: usize = 0;
    while i <= last
        invariant
            hay_len == hay@.len(),
            needle_len == needle@.len(),
            1 <= needle_len <= hay_len,
            last == hay_len - needle_len,
            0 <= i <= last + 1,
            forall|k: int| 0 <= k < i ==> !match_at(hay@, needle@, k),
        decreases last + 1 - i,
    {
        if matches_at(hay, needle, i, hay_len, needle_len) {
            assert(match_at(hay@, needle@, i as int));
            return true;
        }
        i += 1;
    }
    assert(forall|k: int| !match_at(hay@, needle@, k));
    false
}

/// Index of the first `'\n'` at or after `start`, or `s.len()` if none.
pub open spec fn next_newline(s: Seq<char>, start: int) -> int
    decreases s.len() - start when 0 <= start <= s.len()
{
    if start >= s.len() {
        s.len() as int
    } else if s[start] == '\n' {
        start
    } else {
        next_newline(s, start + 1)
    }
}

pub proof fn lemma_next_newline(s: Seq<char>, start: int)
    requires
        0 <= start <= s.len(),
    ensures
        start <= next_newline(s, start) <= s.len(),
        next_newline(s, start) < s.len() ==> s[next_newline(s, start)] == '\n',
        forall|k: int| start <= k < next_newline(s, start) ==> s[k] != '\n',
    decreases s.len() - start,
{
    if start < s.len() && s[start] != '\n' {
        lemma_next_newline(s, start + 1);
    }
}

/// The lines of `s` from `start` on: segments between `'\n'` characters, a
/// `'\r'` directly before a `'\n'` dropped, and no empty final line after a
/// trailing `'\n'` (the behaviour of `str::lines`).
pub open spec fn lines_from(s: Seq<char>, start: int) -> Seq<Seq<char>>
    decreases s.len() - start when 0 <= start <= s.len()
    via lines_from_decreases
{
    if start >= s.len() {
        Seq::empty()
    } else {
        let j = next_newline(s, start);
        let stop = if j < s.len() && j > start && s[j - 1] == '\r' {
            j - 1
        } else {
            j
        };
        seq![s.subrange(start, stop)] + if j >= s.len() {
            Seq::empty()
        } else {
            lines_from(s, j + 1)
        }
    }
}

#[via_fn]
proof fn lines_from_decreases(s: Seq<char>, start: int) {
    if 0 <= start <= s.len() {
        lemma_next_newline(s, start);
    }
}

/// The lines of a whole string.
pub open spec fn str_lines(s: Seq<char>) -> Seq<Seq<char>> {
    lines_from(s, 0)
}

fn split_lines_from(s: &str, start: usize, len: usize, out: &mut Vec<String>)
    requires
        len == s@.len(),
        start <= len,
    ensures
        final(out)@.len() == old(out)@.len() + lines_from(s@, start as int).len(),
        final(out)@.subrange(0, old(out)@.len() as int) == old(out)@,
        forall|k: int|
            0 <= k < lines_from(s@, start as int).len() ==> final(out)@[old(out)@.len() + k]@
                == lines_from(s@, start as int)[k],
    decreases len - start,
{
    proof {
        lemma_next_newline(s@, start as int);
    }
    if start >= len {
        assert(out@.subrange(0, out@.len() as int) =~= out@);
        return ;
    }
    // scan for the next newline
    let mut j: usize = start;
    while j < len && s.get_char(j) != '\n'
        invariant
            start <= j <= len,
            len == s@.len(),
            forall|k: int| start <= k < j ==> s@[k] != '\n',
        decreases len - j,
    {
        j += 1;
    }
    proof {
        if j < s@.len() {
            assert(s@[j as int] == '\n');
        }
        assert(next_newline(s@, start as int) == j as int) by {
            lemma_next_newline(s@, start as int);
            if next_newline(s@, start as int) < j {
                assert(s@[next_newline(s@, start as int)] != '\n');
            }
            if j < next_newline(s@, start as int) {
                assert(s@[j as int] != '\n');
            }
        }
    }
    let stop = if j < len && j > start && s.get_char(j - 1) == '\r' {
        j - 1
    } else {
        j
    };
    let line = s.substring_char(start, stop);
    let ghost prev = out@;
    out.push(line.to_owned());
    if j >= len {
        assert(out@.subrange(0, prev.len() as int) =~= prev);
        assert(lines_from(s@, start as int).len() == 1);
        assert(out@[prev.len() as int]@ == lines_from(s@, start as int)[0]);
    } else {
        let ghost mid = out@;
        split_lines_from(s, j + 1, len, out);
        proof {
            assert(out@.subrange(0, prev.len() as int) =~= prev);
            assert(out@[prev.len() as int]@ == lines_from(s@, start as int)[0]) by {
                assert(out@[prev.len() as int] == out@.subrange(0, mid.len() as int)[prev.len() as int]);
            }
            assert(forall|k: int|
                1 <= k < lines_from(s@, start as int).len() ==> out@[prev.len() + k]@
                    == lines_from(s@, start as int)[k]) by {
                assert(forall|k: int|
                    0 <= k < lines_from(s@, j + 1).len() ==> out@[mid.len() + k]@ == #[trigger] lines_from(
                        s@,
                        j + 1,
                    )[k]);
            }
        }
    }
}

/// Splits `s` into its lines, as `str::lines` does: segments between
/// newlines, with a carriage return before a newline dropped and no empty
/// final segment after a trailing newline.
pub fn split_lines(s: &str) -> (r: Vec<String>)
    ensures
        r@.len() == str_lines(s@).len(),
        forall|k: int| 0 <= k < r@.len() ==> r@[k]@ == str_lines(s@)[k],
{
    let len = s.unicode_len();
    let mut out: Vec<String> = Vec::new();
    split_lines_from(s, 0, len, &mut out);
    out
}

} // verus!
