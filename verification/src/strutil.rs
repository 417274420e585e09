//! Small string helpers used by the code generator: ASCII case mapping and
//! substring replacement.

use vstd::prelude::*;

verus! {

/// Append one character to a string.
///
/// Relies on `String::push`: it appends exactly the given character.
#[verifier::external_body]
pub fn push_char(s: &mut String, c: char)
    ensures
        final(s)@ == old(s)@ + seq![c],
{
    s.push(c);
}

/// ASCII uppercase image of one character.
pub open spec fn up_char(c: char) -> char {
    if 'a' <= c && c <= 'z' {
        ((c as u8) - 32) as char
    } else {
        c
    }
}

/// ASCII lowercase image of one character.
pub open spec fn low_char(c: char) -> char {
    if 'A' <= c && c <= 'Z' {
        ((c as u8) + 32) as char
    } else {
        c
    }
}

/// ASCII lowercase image of a string.
pub open spec fn low_str(s: Seq<char>) -> Seq<char> {
    s.map_values(|c: char| low_char(c))
}

/// Map one character to ASCII uppercase.
pub fn up_char_exec(c: char) -> (r: char)
    ensures
        r == up_char(c),
{
    if 'a' <= c && c <= 'z' {
        ((c as u8) - 32) as char
    } else {
        c
    }
}

/// Map one character to ASCII lowercase.
pub fn low_char_exec(c: char) -> (r: char)
    ensures
        r == low_char(c),
{
    if 'A' <= c && c <= 'Z' {
        ((c as u8) + 32) as char
    } else {
        c
    }
}

/// ASCII-lowercase a whole string.
pub fn to_lower(s: &str) -> (r: String)
    ensures
        r@ == low_str(s@),
{
    let n = s.unicode_len();
    let mut out = String::new();
    let mut i: usize = 0;
    proof {
        assert(out@ =~= low_str(s@).subrange(0, 0));
    }
    while i < n
        invariant
            n == s@.len(),
            i <= n,
            out@ == low_str(s@).subrange(0, i as int),
        decreases n - i,
    {
        let c = low_char_exec(s.get_char(i));
        push_char(&mut out, c);
        proof {
            assert(low_str(s@).subrange(0, i + 1 as int) =~= low_str(s@).subrange(0, i as int)
                + seq![low_char(s@[i as int])]);
        }
        i += 1;
    }
    proof {
        assert(low_str(s@).subrange(0, n as int) =~= low_str(s@));
    }
    out
}

/// Text with every non-overlapping occurrence of `from` at or after `pos`
/// replaced by `to`, scanning left to right.
pub open spec fn replace_from(s: Seq<char>, pos: int, from: Seq<char>, to: Seq<char>) -> Seq<char>
    decreases s.len() - pos,
{
    if !(0 <= pos <= s.len()) || from.len() == 0 {
        s.subrange(if 0 <= pos <= s.len() {
            pos
        } else {
            s.len() as int
        }, s.len() as int)
    } else {
        match crate::parser::spec_find(s, pos, from) {
            Some(i) => {
                if pos <= i && i + from.len() <= s.len() && pos < i + from.len() {
                    s.subrange(pos, i) + to + replace_from(s, i + from.len(), from, to)
                } else {
                    s.subrange(pos, s.len() as int)
                }
            },
            None => s.subrange(pos, s.len() as int),
        }
    }
}

/// `s` with every occurrence of `from` replaced by `to`.
pub open spec fn spec_replace(s: Seq<char>, from: Seq<char>, to: Seq<char>) -> Seq<char> {
    replace_from(s, 0, from, to)
}

/// Replace every non-overlapping occurrence of `from` in `s` by `to`.
pub fn replace(s: &str, from: &str, to: &str) -> (r: String)
    ensures
        r@ == spec_replace(s@, from@, to@),
{
    let n = s.unicode_len();
    let fl = from.unicode_len();
    if fl == 0 {
        proof {
            assert(s@.subrange(0, n as int) =~= spec_replace(s@, from@, to@));
        }
        return s.to_owned();
    }
    let mut out = String::new();
    let mut pos: usize = 0;
    loop
        invariant
            n == s@.len(),
            fl == from@.len(),
            fl >= 1,
            pos <= n,
            spec_replace(s@, from@, to@) == out@ + replace_from(s@, pos as int, from@, to@),
        decreases n - pos,
    {
        match crate::parser::find_sub(s, n, pos, from) {
            Some(i) => {
                let piece = s.substring_char(pos, i);
                out.append(piece);
                out.append(to);
                proof {
                    assert(replace_from(s@, pos as int, from@, to@) == s@.subrange(
                        pos as int,
                        i as int,
                    ) + to@ + replace_from(s@, i + fl as int, from@, to@));
                }
                pos = i + fl;
            },
            None => {
                let piece = s.substring_char(pos, n);
                out.append(piece);
                proof {
                    assert(replace_from(s@, pos as int, from@, to@) == s@.subrange(
                        pos as int,
                        n as int,
                    ));
                }
                return out;
            },
        }
    }
}

} // verus!
