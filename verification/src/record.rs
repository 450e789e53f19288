//! The record-file line framing: one line per delivered line of process
//! output, carrying the channel, the elapsed milliseconds (zero-padded to
//! seven digits), and the text.

use vstd::prelude::*;
use vstd::string::StringExecFns;

use crate::program::OutputStream;
use crate::strutil::{push_char, spec_dec_padded, u64_to_string_padded};

verus! {

/// What a record line reads for a channel, a timestamp and a text.
pub open spec fn spec_record_line(stream: OutputStream, millis: int, line: Seq<char>) -> Seq<
    char,
> {
    stream.spec_name() + seq![' '] + spec_dec_padded(millis, 7) + seq![' '] + line + seq!['\n']
}

/// Frames one line for the record file.
pub fn format_record_line(stream: OutputStream, millis: u64, line: &str) -> (r: String)
    ensures
        r@ == spec_record_line(stream, millis as int, line@),
{
    let mut s = String::from_str(stream.as_str());
    push_char(&mut s, ' ');
    let stamp = u64_to_string_padded(millis, 7);
    s.append(stamp.as_str());
    push_char(&mut s, ' ');
    s.append(line);
    push_char(&mut s, '\n');
    proof {
        assert(s@ =~= spec_record_line(stream, millis as int, line@));
    }
    s
}

/// The first position of a character in a text.
pub open spec fn spec_idx_of(s: Seq<char>, c: char) -> Option<int>
    decreases s.len(),
{
    if s.len() == 0 {
        None
    } else if s[0] == c {
        Some(0)
    } else {
        match spec_idx_of(s.skip(1), c) {
            Some(i) => Some(i + 1),
            None => None,
        }
    }
}

/// The numeric value of a decimal digit sequence; meaningful only when
/// every character is a digit.
pub open spec fn spec_dec_val(s: Seq<char>) -> int
    decreases s.len(),
{
    if s.len() == 0 {
        0
    } else {
        spec_dec_val(s.drop_last()) * 10 + (s.last() as int - 48)
    }
}

/// Every character is a decimal digit.
pub open spec fn spec_all_digits(s: Seq<char>) -> bool {
    forall|i: int| 0 <= i < s.len() ==> '0' <= #[trigger] s[i] && s[i] <= '9'
}

/// What a record line parses to: the channel named by the first column,
/// the milliseconds of the second, and the rest of the line verbatim. A
/// missing third column reads as empty text; a first column that names no
/// channel, a second that is not a representable number, or a line without
/// a space does not parse.
pub open spec fn spec_parse_record(s: Seq<char>) -> Option<(OutputStream, int, Seq<char>)> {
    match spec_idx_of(s, ' ') {
        None => None,
        Some(i) => match OutputStream::spec_parse(s.take(i)) {
            None => None,
            Some(stream) => {
                let rest = s.skip(i + 1);
                let digits = match spec_idx_of(rest, ' ') {
                    Some(j) => rest.take(j),
                    None => rest,
                };
                let text = match spec_idx_of(rest, ' ') {
                    Some(j) => rest.skip(j + 1),
                    None => Seq::empty(),
                };
                if digits.len() > 0 && spec_all_digits(digits) && spec_dec_val(digits)
                    <= u64::MAX {
                    Some((stream, spec_dec_val(digits), text))
                } else {
                    None
                }
            },
        },
    }
}

/// Finds the first space of a text.
fn idx_of_space(s: &str) -> (r: Option<usize>)
    ensures
        match r {
            Some(i) => spec_idx_of(s@, ' ') == Some(i as int),
            None => spec_idx_of(s@, ' ') is None,
        },
{
    let n = s.unicode_len();
    proof {
        assert(s@.skip(0) =~= s@);
    }
    for i in 0..n
        invariant
            n == s@.len(),
            spec_idx_of(s@.skip(i as int), ' ') matches Some(k) ==> spec_idx_of(s@, ' ')
                == Some(k + i),
            spec_idx_of(s@.skip(i as int), ' ') is None ==> spec_idx_of(s@, ' ') is None,
    {
        proof {
            assert(s@.skip(i as int)[0] == s@[i as int]);
            assert(s@.skip(i as int).skip(1) =~= s@.skip(i as int + 1));
        }
        if s.get_char(i) == ' ' {
            return Some(i);
        }
    }
    proof {
        assert(s@.skip(n as int) =~= Seq::<char>::empty());
    }
    None
}

/// Reads the value of a digit column.
fn parse_digits(s: &str) -> (r: Option<u64>)
    ensures
        match r {
            Some(v) => s@.len() > 0 && spec_all_digits(s@) && spec_dec_val(s@) == v,
            None => !(s@.len() > 0 && spec_all_digits(s@) && spec_dec_val(s@) <= u64::MAX),
        },
{
    let n = s.unicode_len();
    if n == 0 {
        return None;
    }
    let mut acc: u64 = 0;
    proof {
        assert(s@.take(0) =~= Seq::<char>::empty());
    }
    for i in 0..n
        invariant
            n == s@.len(),
            spec_all_digits(s@.take(i as int)),
            acc == spec_dec_val(s@.take(i as int)),
    {
        let c = s.get_char(i);
        if !('0' <= c && c <= '9') {
            return None;
        }
        let d = (c as u32) as u64 - 48;
        let wide: u128 = (acc as u128) * 10 + (d as u128);
        if wide > u64::MAX as u128 {
            proof {
                assert(s@.take(i as int + 1).drop_last() =~= s@.take(i as int));
                assert(s@.take(i as int + 1).last() == s@[i as int]);
                assert(spec_dec_val(s@.take(i as int + 1)) > u64::MAX);
                if spec_all_digits(s@) {
                    lemma_dec_val_monotone(s@, i as int + 1);
                }
            }
            return None;
        }
        acc = wide as u64;
        proof {
            assert(s@.take(i as int + 1).drop_last() =~= s@.take(i as int));
        }
    }
    proof {
        assert(s@.take(n as int) =~= s@);
    }
    Some(acc)
}

/// A digit sequence's value never shrinks as it grows to the right.
proof fn lemma_dec_val_monotone(s: Seq<char>, i: int)
    requires
        0 <= i <= s.len(),
        spec_all_digits(s),
    ensures
        spec_dec_val(s.take(i)) <= spec_dec_val(s),
    decreases s.len() - i,
{
    if i < s.len() {
        lemma_dec_val_monotone(s, i + 1);
        assert(s.take(i + 1).drop_last() =~= s.take(i));
        assert(s.take(i + 1).last() == s[i]);
        lemma_dec_val_nonneg(s.take(i));
    } else {
        assert(s.take(i) =~= s);
    }
}

/// A digit sequence's value is never negative.
proof fn lemma_dec_val_nonneg(s: Seq<char>)
    requires
        spec_all_digits(s),
    ensures
        spec_dec_val(s) >= 0,
    decreases s.len(),
{
    if s.len() > 0 {
        assert(spec_all_digits(s.drop_last())) by {
            assert(forall|i: int|
                0 <= i < s.drop_last().len() ==> s.drop_last()[i] == #[trigger] s[i]);
        }
        lemma_dec_val_nonneg(s.drop_last());
    }
}

/// Reads one record line back: the channel, the elapsed milliseconds, and
/// the text.
pub fn parse_record_line(line: &str) -> (r: Option<(OutputStream, u64, String)>)
    ensures
        match r {
            Some(parts) => spec_parse_record(line@) == Some(
                (parts.0, parts.1 as int, parts.2@),
            ),
            None => spec_parse_record(line@) is None,
        },
{
    let n = line.unicode_len();
    let i = match idx_of_space(line) {
        Some(i) => i,
        None => {
            return None;
        },
    };
    proof {
        lemma_idx_of_bounds(line@, ' ');
    }
    let head = line.substring_char(0, i);
    let stream = match OutputStream::parse(head) {
        Some(stream) => stream,
        None => {
            return None;
        },
    };
    let rest = line.substring_char(i + 1, n);
    let m = rest.unicode_len();
    let (digits, text) = match idx_of_space(rest) {
        Some(j) => {
            proof {
                lemma_idx_of_bounds(rest@, ' ');
            }
            (rest.substring_char(0, j), String::from_str(rest.substring_char(j + 1, m)))
        },
        None => (rest, String::new()),
    };
    let millis = match parse_digits(digits) {
        Some(v) => v,
        None => {
            proof {
                if spec_all_digits(digits@) && digits@.len() > 0 {
                    lemma_dec_val_nonneg(digits@);
                }
            }
            return None;
        },
    };
    Some((stream, millis, text))
}

/// A found position is in range and holds the character.
proof fn lemma_idx_of_bounds(s: Seq<char>, c: char)
    ensures
        spec_idx_of(s, c) matches Some(i) ==> 0 <= i < s.len() && s[i] == c,
    decreases s.len(),
{
    if s.len() > 0 && s[0] != c {
        lemma_idx_of_bounds(s.skip(1), c);
    }
}

} // verus!
