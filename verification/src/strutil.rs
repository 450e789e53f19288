//! Verified helpers for building the short pieces of text the renderer
//! shows: decimal numbers, joined lists, a capitalized announcement.

use vstd::prelude::*;
use vstd::string::StringExecFns;

verus! {

/// Relies on `String::push`: appends exactly one character.
#[verifier::external_body]
pub fn push_char(s: &mut String, c: char)
    ensures
        final(s)@ == old(s)@.push(c),
{
    s.push(c);
}

/// The character of one decimal digit.
pub open spec fn spec_digit_char(d: int) -> char {
    if d == 0 {
        '0'
    } else if d == 1 {
        '1'
    } else if d == 2 {
        '2'
    } else if d == 3 {
        '3'
    } else if d == 4 {
        '4'
    } else if d == 5 {
        '5'
    } else if d == 6 {
        '6'
    } else if d == 7 {
        '7'
    } else if d == 8 {
        '8'
    } else {
        '9'
    }
}

/// The decimal writing of a number, most significant digit first, with no
/// leading zero except for zero itself.
pub open spec fn spec_dec(n: int) -> Seq<char>
    decreases n,
{
    if n < 10 {
        seq![spec_digit_char(n)]
    } else {
        spec_dec(n / 10).push(spec_digit_char(n % 10))
    }
}

fn digit_char(d: u64) -> (c: char)
    requires
        d < 10,
    ensures
        c == spec_digit_char(d as int),
{
    if d == 0 {
        '0'
    } else if d == 1 {
        '1'
    } else if d == 2 {
        '2'
    } else if d == 3 {
        '3'
    } else if d == 4 {
        '4'
    } else if d == 5 {
        '5'
    } else if d == 6 {
        '6'
    } else if d == 7 {
        '7'
    } else if d == 8 {
        '8'
    } else {
        '9'
    }
}

/// Writes a number in decimal.
pub fn u64_to_string(n: u64) -> (s: String)
    ensures
        s@ == spec_dec(n as int),
    decreases n,
{
    if n < 10 {
        let mut s = String::new();
        push_char(&mut s, digit_char(n));
        s
    } else {
        let mut s = u64_to_string(n / 10);
        push_char(&mut s, digit_char(n % 10));
        s
    }
}

/// The decimal writing padded with leading zeros to at least `width`
/// characters.
pub open spec fn spec_dec_padded(n: int, width: int) -> Seq<char> {
    let d = spec_dec(n);
    if d.len() >= width {
        d
    } else {
        Seq::new((width - d.len()) as nat, |i: int| '0') + d
    }
}

/// Writes a number in decimal, padded with leading zeros to at least
/// `width` characters.
pub fn u64_to_string_padded(n: u64, width: usize) -> (s: String)
    ensures
        s@ == spec_dec_padded(n as int, width as int),
{
    let digits = u64_to_string(n);
    let len = digits.as_str().unicode_len();
    if len >= width {
        return digits;
    }
    let mut s = String::new();
    let mut i: usize = 0;
    while i < width - len
        invariant
            len < width,
            len == spec_dec(n as int).len(),
            i <= width - len,
            s@ =~= Seq::new(i as nat, |j: int| '0'),
        decreases width - len - i,
    {
        push_char(&mut s, '0');
        i = i + 1;
        proof {
            assert(s@ =~= Seq::new(i as nat, |j: int| '0'));
        }
    }
    s.append(digits.as_str());
    proof {
        assert(s@ =~= spec_dec_padded(n as int, width as int));
    }
    s
}

/// The pieces joined with the separator between consecutive pieces.
pub open spec fn spec_join(xs: Seq<Seq<char>>, sep: Seq<char>) -> Seq<char>
    decreases xs.len(),
{
    if xs.len() == 0 {
        Seq::empty()
    } else if xs.len() == 1 {
        xs[0]
    } else {
        spec_join(xs.drop_last(), sep) + sep + xs.last()
    }
}

/// Joins the pieces with the separator between consecutive pieces.
pub fn join(parts: &Vec<String>, sep: &str) -> (s: String)
    ensures
        s@ == spec_join(parts@.map_values(|p: String| p@), sep@),
{
    let ghost xs = parts@.map_values(|p: String| p@);
    let mut s = String::new();
    let n = parts.len();
    proof {
        assert(xs.take(0) =~= Seq::<Seq<char>>::empty());
    }
    for i in 0..n
        invariant
            n == parts@.len(),
            xs == parts@.map_values(|p: String| p@),
            s@ == spec_join(xs.take(i as int), sep@),
    {
        if i > 0 {
            s.append(sep);
        }
        s.append(parts[i].as_str());
        proof {
            assert(xs.take(i + 1).drop_last() =~= xs.take(i as int));
            assert(xs.take(i + 1).last() == xs[i as int]);
        }
    }
    proof {
        assert(xs.take(n as int) =~= xs);
    }
    s
}

/// The announcement text with its first character upper-cased if it is an
/// ASCII letter; an empty text reads as one space.
pub open spec fn spec_capitalize(s: Seq<char>) -> Seq<char> {
    if s.len() == 0 {
        seq![' ']
    } else {
        seq![spec_upper_ascii(s[0])] + s.skip(1)
    }
}

/// The character upper-cased if it is an ASCII lower-case letter.
pub open spec fn spec_upper_ascii(c: char) -> char {
    if 'a' <= c && c <= 'z' {
        ((c as u8) - 32) as char
    } else {
        c
    }
}

fn upper_ascii(c: char) -> (r: char)
    ensures
        r == spec_upper_ascii(c),
{
    if 'a' <= c && c <= 'z' {
        ((c as u8) - 32) as char
    } else {
        c
    }
}

/// Upper-cases the first character of an announcement.
pub fn capitalize_first(s: &str) -> (r: String)
    ensures
        r@ == spec_capitalize(s@),
{
    let n = s.unicode_len();
    if n == 0 {
        let mut r = String::new();
        push_char(&mut r, ' ');
        proof {
            assert(r@ =~= spec_capitalize(s@));
        }
        r
    } else {
        let c = s.get_char(0);
        let rest = s.substring_char(1, n);
        let mut r = String::new();
        push_char(&mut r, upper_ascii(c));
        r.append(rest);
        proof {
            assert(r@ =~= spec_capitalize(s@));
        }
        r
    }
}

/// `s` starts with the given prefix.
pub open spec fn spec_has_prefix(s: Seq<char>, prefix: Seq<char>) -> bool {
    s.len() >= prefix.len() && s.subrange(0, prefix.len() as int) == prefix
}

/// Strips the protocol prefix off a line, when it is there.
pub fn strip_protocol(line: &str) -> (r: Option<&str>)
    ensures
        match r {
            Some(rest) => spec_has_prefix(line@, "@nix "@) && rest@ == line@.skip(5),
            None => !spec_has_prefix(line@, "@nix "@),
        },
{
    proof {
        reveal_strlit("@nix ");
    }
    let n = line.unicode_len();
    if n < 5 {
        return None;
    }
    if line.get_char(0) == '@' && line.get_char(1) == 'n' && line.get_char(2) == 'i'
        && line.get_char(3) == 'x' && line.get_char(4) == ' ' {
        let rest = line.substring_char(5, n);
        proof {
            assert(line@.subrange(0, 5) =~= "@nix "@);
            assert(rest@ =~= line@.skip(5));
        }
        Some(rest)
    } else {
        proof {
            if spec_has_prefix(line@, "@nix "@) {
                assert(line@.subrange(0, 5)[0] == line@[0]);
                assert(line@.subrange(0, 5)[1] == line@[1]);
                assert(line@.subrange(0, 5)[2] == line@[2]);
                assert(line@.subrange(0, 5)[3] == line@[3]);
                assert(line@.subrange(0, 5)[4] == line@[4]);
            }
        }
        None
    }
}

} // verus!
