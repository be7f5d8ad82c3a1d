//! Reads the recorded samples from text: one sample per line, six integers
//! `x y z offx offy offz` separated by whitespace.
use vstd::prelude::*;
use crate::geometry::{Offset, Position};

verus! {

/// Why a sample text was refused.
#[derive(Clone, Copy, Debug, PartialEq, Eq, Structural)]
pub enum LoadError {
    /// The line with this index (from 0) does not begin with six integers in range.
    Malformed { line: usize },
    /// The text holds no line at all.
    Empty,
}

/// Unicode's `White_Space` property.
pub open spec fn is_space(c: char) -> bool {
    ||| ('\u{9}' <= c && c <= '\u{d}')
    ||| c == ' '
    ||| c == '\u{85}'
    ||| c == '\u{a0}'
    ||| c == '\u{1680}'
    ||| ('\u{2000}' <= c && c <= '\u{200a}')
    ||| c == '\u{2028}'
    ||| c == '\u{2029}'
    ||| c == '\u{202f}'
    ||| c == '\u{205f}'
    ||| c == '\u{3000}'
}

/// Reading `s` from the left: the pieces closed so far by `sep`, and the open piece.
pub open spec fn split_state(s: Seq<char>, sep: char) -> (Seq<Seq<char>>, Seq<char>)
    decreases s.len(),
{
    if s.len() == 0 {
        (Seq::empty(), Seq::empty())
    } else {
        let (done, cur) = split_state(s.drop_last(), sep);
        if s.last() == sep {
            (done.push(cur), Seq::empty())
        } else {
            (done, cur.push(s.last()))
        }
    }
}

/// The lines of `text`: split at each `'\n'`, with no line after a final `'\n'`.
pub open spec fn lines_of(text: Seq<char>) -> Seq<Seq<char>> {
    let (done, cur) = split_state(text, '\n');
    if cur.len() > 0 {
        done.push(cur)
    } else {
        done
    }
}

/// Reading `s` from the left: the words closed so far by whitespace, and the open word.
pub open spec fn word_state(s: Seq<char>) -> (Seq<Seq<char>>, Seq<char>)
    decreases s.len(),
{
    if s.len() == 0 {
        (Seq::empty(), Seq::empty())
    } else {
        let (done, cur) = word_state(s.drop_last());
        if is_space(s.last()) {
            if cur.len() > 0 {
                (done.push(cur), Seq::empty())
            } else {
                (done, Seq::empty())
            }
        } else {
            (done, cur.push(s.last()))
        }
    }
}

/// The maximal runs of non-whitespace characters of `s`, in order.
pub open spec fn words_of(s: Seq<char>) -> Seq<Seq<char>> {
    let (done, cur) = word_state(s);
    if cur.len() > 0 {
        done.push(cur)
    } else {
        done
    }
}

pub open spec fn is_digit(c: char) -> bool {
    '0' <= c && c <= '9'
}

pub open spec fn all_digits(s: Seq<char>) -> bool {
    forall|i: int| 0 <= i < s.len() ==> is_digit(#[trigger] s[i])
}

/// The number that the decimal digits `s` write.
pub open spec fn digits_value(s: Seq<char>) -> int
    decreases s.len(),
{
    if s.len() == 0 {
        0
    } else {
        digits_value(s.drop_last()) * 10 + (s.last() as int - '0' as int)
    }
}

/// `s` is an optional `+` or `-` followed by at least one decimal digit.
pub open spec fn is_integer_text(s: Seq<char>) -> bool {
    if s.len() > 0 && (s[0] == '+' || s[0] == '-') {
        s.len() > 1 && all_digits(s.drop_first())
    } else {
        s.len() > 0 && all_digits(s)
    }
}

/// The value of an integer text (see `is_integer_text`).
pub open spec fn integer_value(s: Seq<char>) -> int {
    if s[0] == '-' {
        -digits_value(s.drop_first())
    } else if s[0] == '+' {
        digits_value(s.drop_first())
    } else {
        digits_value(s)
    }
}

/// The integer that `s` writes, if it is one within `lo..=hi`.
pub open spec fn integer_in(s: Seq<char>, lo: int, hi: int) -> Option<int> {
    if is_integer_text(s) && lo <= integer_value(s) <= hi {
        Some(integer_value(s))
    } else {
        None
    }
}

/// The sample that a line holds: its first six words as three `i32` and three `i8`.
/// Words after the sixth are not read.
pub open spec fn sample_of_line(line: Seq<char>) -> Option<(Position, Offset)> {
    let w = words_of(line);
    if w.len() >= 6 && integer_in(w[0], i32::MIN as int, i32::MAX as int) is Some && integer_in(
        w[1],
        i32::MIN as int,
        i32::MAX as int,
    ) is Some && integer_in(w[2], i32::MIN as int, i32::MAX as int) is Some && integer_in(
        w[3],
        i8::MIN as int,
        i8::MAX as int,
    ) is Some && integer_in(w[4], i8::MIN as int, i8::MAX as int) is Some && integer_in(
        w[5],
        i8::MIN as int,
        i8::MAX as int,
    ) is Some {
        Some(
            (
                Position {
                    x: integer_value(w[0]) as i32,
                    y: integer_value(w[1]) as i32,
                    z: integer_value(w[2]) as i32,
                },
                Offset {
                    x: integer_value(w[3]) as i8,
                    y: integer_value(w[4]) as i8,
                    z: integer_value(w[5]) as i8,
                },
            ),
        )
    } else {
        None
    }
}

/// Unicode's `White_Space` property of `c`.
pub fn is_space_char(c: char) -> (r: bool)
    ensures
        r == is_space(c),
{
    ('\u{9}' <= c && c <= '\u{d}') || c == ' ' || c == '\u{85}' || c == '\u{a0}' || c == '\u{1680}'
        || ('\u{2000}' <= c && c <= '\u{200a}') || c == '\u{2028}' || c == '\u{2029}' || c
        == '\u{202f}' || c == '\u{205f}' || c == '\u{3000}'
}

proof fn lemma_digits_prefix_le(s: Seq<char>, k: int)
    requires
        0 <= k <= s.len(),
        all_digits(s),
    ensures
        0 <= digits_value(s.take(k)) <= digits_value(s),
    decreases s.len(),
{
    if k == s.len() {
        assert(s.take(k) =~= s);
        lemma_digits_nonneg(s);
    } else {
        let r = s.drop_last();
        assert(r.take(k) =~= s.take(k));
        assert forall|i: int| 0 <= i < r.len() implies is_digit(#[trigger] r[i]) by {
            assert(r[i] == s[i]);
        }
        assert(is_digit(s[s.len() - 1]));
        lemma_digits_prefix_le(r, k);
        lemma_digits_nonneg(r);
    }
}

proof fn lemma_digits_nonneg(s: Seq<char>)
    requires
        all_digits(s),
    ensures
        digits_value(s) >= 0,
    decreases s.len(),
{
    if s.len() > 0 {
        let r = s.drop_last();
        assert forall|i: int| 0 <= i < r.len() implies is_digit(#[trigger] r[i]) by {
            assert(r[i] == s[i]);
        }
        assert(is_digit(s[s.len() - 1]));
        lemma_digits_nonneg(r);
    }
}

/// The integer that `w` writes, if it is one within `lo..=hi`.
pub fn parse_integer(w: &[char], lo: i64, hi: i64) -> (r: Option<i64>)
    requires
        -0x1_0000_0000 <= lo <= 0 <= hi <= 0x1_0000_0000,
    ensures
        match r {
            Some(v) => integer_in(w@, lo as int, hi as int) == Some(v as int),
            None => integer_in(w@, lo as int, hi as int) is None,
        },
{
    let n = w.len();
    if n == 0 {
        return None;
    }
    let mut start: usize = 0;
    let mut negative = false;
    if w[0] == '-' {
        negative = true;
        start = 1;
    } else if w[0] == '+' {
        start = 1;
    }
    if start == n {
        return None;
    }
    let digits = Ghost(w@.subrange(start as int, n as int));
    proof {
        if start == 1 {
            assert(digits@ =~= w@.drop_first());
        } else {
            assert(digits@ =~= w@);
        }
    }
    let bound: i64 = if hi >= -lo { hi } else { -lo };
    let mut acc: i64 = 0;
    let mut i: usize = start;
    while i < n
        invariant
            n == w@.len(),
            start <= i <= n,
            start == 0 || start == 1,
            start < n,
            digits@ == w@.subrange(start as int, n as int),
            start == 1 ==> digits@ == w@.drop_first(),
            start == 0 ==> digits@ == w@,
            negative == (start == 1 && w@[0] == '-'),
            start == 1 <==> (w@[0] == '-' || w@[0] == '+'),
            0 <= bound <= 0x1_0000_0000,
            bound >= hi && bound >= -lo,
            acc == digits_value(w@.subrange(start as int, i as int)),
            0 <= acc <= bound,
            forall|k: int| start <= k < i ==> is_digit(#[trigger] w@[k]),
        decreases n - i,
    {
        let c = w[i];
        if !('0' <= c && c <= '9') {
            proof {
                assert(!is_digit(digits@[i - start]));
            }
            return None;
        }
        let d = (c as u32 - '0' as u32) as i64;
        let next = acc * 10 + d;
        proof {
            assert(w@.subrange(start as int, i + 1).drop_last() =~= w@.subrange(start as int, i as int));
        }
        if next > bound {
            proof {
                assert(digits_value(w@.subrange(start as int, i + 1)) == next);
                if all_digits(digits@) {
                    assert(digits@.take(i + 1 - start) =~= w@.subrange(start as int, i + 1));
                    lemma_digits_prefix_le(digits@, i + 1 - start);
                }
            }
            return None;
        }
        acc = next;
        i = i + 1;
    }
    proof {
        assert(w@.subrange(start as int, i as int) =~= digits@);
        assert forall|k: int| 0 <= k < digits@.len() implies is_digit(#[trigger] digits@[k]) by {
            assert(digits@[k] == w@[start + k]);
        }
    }
    let v: i64 = if negative { -acc } else { acc };
    if v < lo || v > hi {
        None
    } else {
        Some(v)
    }
}

/// Every line holds a sample.
pub open spec fn all_lines_hold_samples(lines: Seq<Seq<char>>) -> bool {
    forall|i: int| 0 <= i < lines.len() ==> (#[trigger] sample_of_line(lines[i])) is Some
}

/// The closed pieces of a prefix stand, in order, at the front of those of the whole.
proof fn lemma_split_prefix(s: Seq<char>, sep: char, k: int)
    requires
        0 <= k <= s.len(),
    ensures
        split_state(s.take(k), sep).0.len() <= split_state(s, sep).0.len(),
        forall|j: int|
            0 <= j < split_state(s.take(k), sep).0.len() ==> #[trigger] split_state(s.take(k), sep).0[j]
                == split_state(s, sep).0[j],
    decreases s.len(),
{
    if k == s.len() {
        assert(s.take(k) =~= s);
    } else {
        let r = s.drop_last();
        assert(r.take(k) =~= s.take(k));
        lemma_split_prefix(r, sep, k);
    }
}

/// The sample of one line (see `sample_of_line`).
pub fn parse_line(line: &[char]) -> (r: Option<(Position, Offset)>)
    ensures
        r == sample_of_line(line@),
{
    let mut words: Vec<Vec<char>> = Vec::new();
    let mut cur: Vec<char> = Vec::new();
    let mut i: usize = 0;
    while i < line.len()
        invariant
            0 <= i <= line@.len(),
            words@.len() == word_state(line@.take(i as int)).0.len(),
            forall|k: int|
                0 <= k < words@.len() ==> (#[trigger] words@[k])@ == word_state(
                    line@.take(i as int),
                ).0[k],
            cur@ == word_state(line@.take(i as int)).1,
        decreases line@.len() - i,
    {
        let c = line[i];
        proof {
            assert(line@.take(i + 1).drop_last() =~= line@.take(i as int));
        }
        if is_space_char(c) {
            if cur.len() > 0 {
                words.push(cur);
                cur = Vec::new();
            }
        } else {
            cur.push(c);
        }
        i = i + 1;
    }
    proof {
        assert(line@.take(i as int) =~= line@);
    }
    if cur.len() > 0 {
        words.push(cur);
    }
    let ghost w = words_of(line@);
    assert(words@.len() == w.len());
    assert(forall|k: int| 0 <= k < words@.len() ==> (#[trigger] words@[k])@ == w[k]);
    if words.len() < 6 {
        return None;
    }
    let x = parse_integer(words[0].as_slice(), i32::MIN as i64, i32::MAX as i64);
    let y = parse_integer(words[1].as_slice(), i32::MIN as i64, i32::MAX as i64);
    let z = parse_integer(words[2].as_slice(), i32::MIN as i64, i32::MAX as i64);
    let ox = parse_integer(words[3].as_slice(), i8::MIN as i64, i8::MAX as i64);
    let oy = parse_integer(words[4].as_slice(), i8::MIN as i64, i8::MAX as i64);
    let oz = parse_integer(words[5].as_slice(), i8::MIN as i64, i8::MAX as i64);
    match (x, y, z, ox, oy, oz) {
        (Some(x), Some(y), Some(z), Some(ox), Some(oy), Some(oz)) => Some(
            (
                Position { x: x as i32, y: y as i32, z: z as i32 },
                Offset { x: ox as i8, y: oy as i8, z: oz as i8 },
            ),
        ),
        _ => None,
    }
}

/// The samples of a text, one per line, or why it was refused: the first
/// line that holds no sample, or that it holds no line.
pub fn parse_samples(text: &[char]) -> (r: Result<Vec<(Position, Offset)>, LoadError>)
    ensures
        match r {
            Ok(v) => {
                &&& lines_of(text@).len() > 0
                &&& all_lines_hold_samples(lines_of(text@))
                &&& v@.len() == lines_of(text@).len()
                &&& forall|i: int|
                    0 <= i < v@.len() ==> sample_of_line(lines_of(text@)[i]) == Some(
                        #[trigger] v@[i],
                    )
            },
            Err(LoadError::Empty) => lines_of(text@).len() == 0,
            Err(LoadError::Malformed { line }) => {
                &&& line < lines_of(text@).len()
                &&& sample_of_line(lines_of(text@)[line as int]) is None
                &&& forall|j: int|
                    0 <= j < line ==> (#[trigger] sample_of_line(lines_of(text@)[j])) is Some
            },
        },
{
    let ghost lines = lines_of(text@);
    let ghost whole = split_state(text@, '\n');
    let mut out: Vec<(Position, Offset)> = Vec::new();
    let mut cur: Vec<char> = Vec::new();
    let mut i: usize = 0;
    while i < text.len()
        invariant
            0 <= i <= text@.len(),
            lines == lines_of(text@),
            whole == split_state(text@, '\n'),
            out@.len() == split_state(text@.take(i as int), '\n').0.len(),
            forall|k: int|
                0 <= k < out@.len() ==> sample_of_line(
                    #[trigger] split_state(text@.take(i as int), '\n').0[k],
                ) == Some(out@[k]),
            cur@ == split_state(text@.take(i as int), '\n').1,
        decreases text@.len() - i,
    {
        let c = text[i];
        proof {
            assert(text@.take(i + 1).drop_last() =~= text@.take(i as int));
        }
        if c == '\n' {
            let parsed = parse_line(cur.as_slice());
            proof {
                lemma_split_prefix(text@, '\n', i + 1);
                let st = split_state(text@.take(i + 1), '\n').0;
                assert(st[out@.len() as int] == cur@);
                assert forall|j: int| 0 <= j < out@.len() implies (#[trigger] sample_of_line(
                    lines[j],
                )) is Some by {
                    assert(st[j] == whole.0[j]);
                    assert(st[j] == split_state(text@.take(i as int), '\n').0[j]);
                }
                assert(st[out@.len() as int] == whole.0[out@.len() as int]);
            }
            match parsed {
                Some(sample) => {
                    out.push(sample);
                },
                None => {
                    return Err(LoadError::Malformed { line: out.len() });
                },
            }
            cur = Vec::new();
        } else {
            cur.push(c);
        }
        i = i + 1;
    }
    proof {
        assert(text@.take(i as int) =~= text@);
    }
    if cur.len() > 0 {
        match parse_line(cur.as_slice()) {
            Some(sample) => {
                out.push(sample);
            },
            None => {
                return Err(LoadError::Malformed { line: out.len() });
            },
        }
    }
    if out.len() == 0 {
        return Err(LoadError::Empty);
    }
    proof {
        assert forall|j: int| 0 <= j < lines.len() implies (#[trigger] sample_of_line(
            lines[j],
        )) is Some by {
            assert(sample_of_line(lines[j]) == Some(out@[j]));
        }
    }
    Ok(out)
}

} // verus!
