//! Recursive-descent parser for the XDR schema grammar.
//!
//! Every executable rule is proved equal to a spec-level mirror of the same
//! grammar rule, so `parse` pins down exactly which token stream a given
//! source text produces. Alternatives are ordered; the first that matches
//! wins, and a rule that fails consumes nothing.

use vstd::prelude::*;
use crate::ast::{Token, TokenV, Type, tok_view, toks_view, opt_view, pairs_view, one};
use crate::ast::{
    lemma_pairs_view_push, lemma_pairs_view_len, lemma_toks_view_push, lemma_toks_view_len,
};

verus! {

/// Executable test for `is_space_char`.
pub fn space_char(c: char) -> (r: bool)
    ensures
        r == is_space_char(c),
{
    c == ' ' || c == '\t' || c == '\r' || c == '\n'
}

/// Executable test for `is_ident_char`.
pub fn ident_char(c: char) -> (r: bool)
    ensures
        r == is_ident_char(c),
{
    ('A' <= c && c <= 'Z') || ('a' <= c && c <= 'z') || ('0' <= c && c <= '9') || c == '_'
}

/// Whitespace recognized between tokens: space, tab, carriage return, newline.
pub open spec fn is_space_char(c: char) -> bool {
    c == ' ' || c == '\t' || c == '\r' || c == '\n'
}

/// Identifier characters: ASCII letters, digits and underscore.
pub open spec fn is_ident_char(c: char) -> bool {
    ('A' <= c && c <= 'Z') || ('a' <= c && c <= 'z') || ('0' <= c && c <= '9') || c == '_'
}

/// Identifier bytes, as the byte-level grammar states them.
pub open spec fn spec_is_ident(chr: u8) -> bool {
    (0x41 <= chr && chr <= 0x5A) || (0x61 <= chr && chr <= 0x7A) || (0x30 <= chr && chr <= 0x39)
        || chr == 0x5f
}

/// True when the byte may appear in an identifier.
pub fn is_ident(chr: u8) -> (r: bool)
    ensures
        r == spec_is_ident(chr),
{
    (0x41 <= chr && chr <= 0x5A) || (0x61 <= chr && chr <= 0x7A) || (0x30 <= chr && chr <= 0x39)
        || chr == 0x5f
}

/// End of the whitespace run starting at `pos`.
pub open spec fn spec_sp(s: Seq<char>, pos: int) -> int
    decreases s.len() - pos,
{
    if 0 <= pos < s.len() && is_space_char(s[pos]) {
        spec_sp(s, pos + 1)
    } else {
        pos
    }
}

/// The whitespace run stays within the text.
pub proof fn lemma_sp_bounds(s: Seq<char>, pos: int)
    requires
        0 <= pos <= s.len(),
    ensures
        pos <= spec_sp(s, pos) <= s.len(),
    decreases s.len() - pos,
{
    if pos < s.len() && is_space_char(s[pos]) {
        lemma_sp_bounds(s, pos + 1);
    }
}

/// One-or-more whitespace characters; the position after them on success.
pub open spec fn spec_sp1(s: Seq<char>, pos: int) -> Option<int> {
    if 0 <= pos < s.len() && is_space_char(s[pos]) {
        Some(spec_sp(s, pos + 1))
    } else {
        None
    }
}

/// The literal `t` occurs in `s` at position `pos`.
pub open spec fn spec_tag(s: Seq<char>, pos: int, t: Seq<char>) -> bool {
    &&& 0 <= pos
    &&& pos + t.len() <= s.len()
    &&& forall|i: int| 0 <= i < t.len() ==> s[pos + i] == t[i]
}

/// First position at or after `pos` where the literal `t` occurs.
pub open spec fn spec_find(s: Seq<char>, pos: int, t: Seq<char>) -> Option<int>
    decreases s.len() - pos,
{
    if spec_tag(s, pos, t) {
        Some(pos)
    } else if 0 <= pos < s.len() {
        spec_find(s, pos + 1, t)
    } else {
        None
    }
}

/// A found occurrence lies within the text.
pub proof fn lemma_find_bounds(s: Seq<char>, pos: int, t: Seq<char>)
    requires
        0 <= pos <= s.len(),
    ensures
        spec_find(s, pos, t) matches Some(i) ==> pos <= i && i + t.len() <= s.len(),
    decreases s.len() - pos,
{
    if !spec_tag(s, pos, t) && pos < s.len() {
        lemma_find_bounds(s, pos + 1, t);
    }
}

/// End of the identifier-character run starting at `pos`.
pub open spec fn spec_ident_end(s: Seq<char>, pos: int) -> int
    decreases s.len() - pos,
{
    if 0 <= pos < s.len() && is_ident_char(s[pos]) {
        spec_ident_end(s, pos + 1)
    } else {
        pos
    }
}

/// The identifier run stays within the text.
pub proof fn lemma_ident_end_bounds(s: Seq<char>, pos: int)
    requires
        0 <= pos <= s.len(),
    ensures
        pos <= spec_ident_end(s, pos) <= s.len(),
    decreases s.len() - pos,
{
    if pos < s.len() && is_ident_char(s[pos]) {
        lemma_ident_end_bounds(s, pos + 1);
    }
}

/// Skip whitespace; returns the first non-whitespace position.
pub fn skip_sp(s: &str, n: usize, pos: usize) -> (r: usize)
    requires
        n == s@.len(),
        pos <= n,
    ensures
        r as int == spec_sp(s@, pos as int),
        pos <= r <= n,
{
    let mut i: usize = pos;
    while i < n && space_char(s.get_char(i))
        invariant
            n == s@.len(),
            pos <= i <= n,
            spec_sp(s@, pos as int) == spec_sp(s@, i as int),
        decreases n - i,
    {
        i += 1;
    }
    i
}

/// Require at least one whitespace character, then skip the run.
pub fn skip_sp1(s: &str, n: usize, pos: usize) -> (r: Option<usize>)
    requires
        n == s@.len(),
        pos <= n,
    ensures
        match r {
            Some(p) => spec_sp1(s@, pos as int) == Some(p as int) && pos < p <= n,
            None => spec_sp1(s@, pos as int) is None,
        },
{
    if pos < n {
        let c = s.get_char(pos);
        if c == ' ' || c == '\t' || c == '\r' || c == '\n' {
            let r = skip_sp(s, n, pos + 1);
            proof {
                lemma_sp_bounds(s@, pos + 1);
            }
            return Some(r);
        }
    }
    None
}

/// Does the literal `t` occur at `pos`?
pub fn match_tag(s: &str, n: usize, pos: usize, t: &str) -> (r: bool)
    requires
        n == s@.len(),
        pos <= n,
    ensures
        r == spec_tag(s@, pos as int, t@),
{
    let tl = t.unicode_len();
    if n - pos < tl {
        return false;
    }
    let mut i: usize = 0;
    while i < tl
        invariant
            n == s@.len(),
            pos <= n,
            tl == t@.len(),
            tl <= n - pos,
            i <= tl,
            forall|j: int| 0 <= j < i ==> s@[pos + j] == t@[j],
        decreases tl - i,
    {
        if s.get_char(pos + i) != t.get_char(i) {
            return false;
        }
        i += 1;
    }
    true
}

/// Positions `pos..i` hold no occurrence, so the search can restart at `i`.
proof fn lemma_find_skip(s: Seq<char>, pos: int, i: int, t: Seq<char>)
    requires
        0 <= pos <= i <= s.len(),
        forall|j: int| pos <= j < i ==> !spec_tag(s, j, t),
    ensures
        spec_find(s, pos, t) == spec_find(s, i, t),
    decreases i - pos,
{
    if pos < i {
        lemma_find_skip(s, pos + 1, i, t);
    }
}

/// Find the first occurrence of the literal `t` at or after `pos`.
pub fn find_sub(s: &str, n: usize, pos: usize, t: &str) -> (r: Option<usize>)
    requires
        n == s@.len(),
        pos <= n,
    ensures
        match r {
            Some(p) => spec_find(s@, pos as int, t@) == Some(p as int) && pos <= p && p + t@.len()
                <= n,
            None => spec_find(s@, pos as int, t@) is None,
        },
{
    let mut i: usize = pos;
    loop
        invariant
            n == s@.len(),
            pos <= i <= n,
            spec_find(s@, pos as int, t@) == spec_find(s@, i as int, t@),
        decreases n - i,
    {
        if match_tag(s, n, i, t) {
            return Some(i);
        }
        if i >= n {
            return None;
        }
        proof {
            lemma_find_skip(s@, i as int, i + 1, t@);
        }
        i += 1;
    }
}

/// An executable rule result matches its mirror: same success, same token
/// model, same end position.
pub open spec fn rel(r: Option<(Token, usize)>, m: Option<(TokenV, int)>) -> bool {
    match r {
        Some((t, p)) => m == Some((tok_view(&t), p as int)),
        None => m is None,
    }
}

/// ASCII decimal digit.
pub open spec fn is_digit_char(c: char) -> bool {
    '0' <= c && c <= '9'
}

/// Digit accepted in the given radix (8, 10 or 16).
pub open spec fn digit_ok(c: char, radix: u32) -> bool {
    if radix == 16 {
        is_digit_char(c) || ('a' <= c && c <= 'f') || ('A' <= c && c <= 'F')
    } else if radix == 8 {
        '0' <= c && c <= '7'
    } else {
        is_digit_char(c)
    }
}

/// Numeric value of one digit character.
pub open spec fn digit_val(c: char) -> int {
    if '0' <= c && c <= '9' {
        c as u32 - '0' as u32
    } else if 'a' <= c && c <= 'f' {
        c as u32 - 'a' as u32 + 10
    } else if 'A' <= c && c <= 'F' {
        c as u32 - 'A' as u32 + 10
    } else {
        0
    }
}

/// End of the digit run (for the given radix) starting at `pos`.
pub open spec fn spec_digit_end(s: Seq<char>, pos: int, radix: u32) -> int
    decreases s.len() - pos,
{
    if 0 <= pos < s.len() && digit_ok(s[pos], radix) {
        spec_digit_end(s, pos + 1, radix)
    } else {
        pos
    }
}

/// The digit run stays within the text.
pub proof fn lemma_digit_end_bounds(s: Seq<char>, pos: int, radix: u32)
    requires
        0 <= pos <= s.len(),
    ensures
        pos <= spec_digit_end(s, pos, radix) <= s.len(),
    decreases s.len() - pos,
{
    if pos < s.len() && digit_ok(s[pos], radix) {
        lemma_digit_end_bounds(s, pos + 1, radix);
    }
}

/// Value of the digit run `s[lo..hi]` in the given radix, folded left to
/// right onto `acc`; `None` when the value leaves the signed 64-bit range.
pub open spec fn num_fold(s: Seq<char>, lo: int, hi: int, radix: u32, acc: int) -> Option<int>
    decreases hi - lo,
{
    if lo >= hi {
        Some(acc)
    } else {
        let a2 = acc * radix + digit_val(s[lo]);
        if a2 > i64::MAX {
            None
        } else {
            num_fold(s, lo + 1, hi, radix, a2)
        }
    }
}

/// Executable test for `digit_ok`.
pub fn digit_char_ok(c: char, radix: u32) -> (r: bool)
    ensures
        r == digit_ok(c, radix),
{
    if radix == 16 {
        ('0' <= c && c <= '9') || ('a' <= c && c <= 'f') || ('A' <= c && c <= 'F')
    } else if radix == 8 {
        '0' <= c && c <= '7'
    } else {
        '0' <= c && c <= '9'
    }
}

/// Executable form of `digit_val`.
pub fn digit_char_val(c: char) -> (r: u32)
    ensures
        r as int == digit_val(c),
        r < 16,
{
    if '0' <= c && c <= '9' {
        (c as u32) - ('0' as u32)
    } else if 'a' <= c && c <= 'f' {
        (c as u32) - ('a' as u32) + 10
    } else if 'A' <= c && c <= 'F' {
        (c as u32) - ('A' as u32) + 10
    } else {
        0
    }
}

/// Scan to the end of the digit run starting at `pos`.
pub fn digit_end(s: &str, n: usize, pos: usize, radix: u32) -> (r: usize)
    requires
        n == s@.len(),
        pos <= n,
    ensures
        r as int == spec_digit_end(s@, pos as int, radix),
        pos <= r <= n,
{
    let mut i: usize = pos;
    while i < n && digit_char_ok(s.get_char(i), radix)
        invariant
            n == s@.len(),
            pos <= i <= n,
            spec_digit_end(s@, pos as int, radix) == spec_digit_end(s@, i as int, radix),
        decreases n - i,
    {
        i += 1;
    }
    i
}

/// Value of the digit run `s[start..end]` in the given radix; `None` when it
/// does not fit a signed 64-bit integer.
pub fn parse_num(s: &str, n: usize, start: usize, end: usize, base: u32) -> (r: Option<i64>)
    requires
        n == s@.len(),
        start <= end <= n,
    ensures
        match r {
            Some(v) => num_fold(s@, start as int, end as int, base, 0) == Some(v as int),
            None => num_fold(s@, start as int, end as int, base, 0) is None,
        },
{
    let mut acc: i64 = 0;
    let mut i: usize = start;
    while i < end
        invariant
            n == s@.len(),
            start <= i <= end <= n,
            0 <= acc,
            num_fold(s@, start as int, end as int, base, 0) == num_fold(
                s@,
                i as int,
                end as int,
                base,
                acc as int,
            ),
        decreases end - i,
    {
        let d = digit_char_val(s.get_char(i));
        let m = acc.checked_mul(base as i64);
        match m {
            Some(prod) => {
                let a2 = prod.checked_add(d as i64);
                match a2 {
                    Some(v) => {
                        acc = v;
                    },
                    None => {
                        return None;
                    },
                }
            },
            None => {
                proof {
                    assert(acc * (base as int) + digit_val(s@[i as int]) > i64::MAX);
                }
                return None;
            },
        }
        i += 1;
    }
    Some(acc)
}

/// Scan to the end of the identifier run starting at `pos`.
pub fn ident_end(s: &str, n: usize, pos: usize) -> (r: usize)
    requires
        n == s@.len(),
        pos <= n,
    ensures
        r as int == spec_ident_end(s@, pos as int),
        pos <= r <= n,
{
    let mut i: usize = pos;
    while i < n && ident_char(s.get_char(i))
        invariant
            n == s@.len(),
            pos <= i <= n,
            spec_ident_end(s@, pos as int) == spec_ident_end(s@, i as int),
        decreases n - i,
    {
        i += 1;
    }
    i
}

// ---------------------------------------------------------------------------
// Lexical rules
// ---------------------------------------------------------------------------
/// Mirror of `identifier`: a run of identifier characters not starting with
/// a digit.
pub open spec fn spec_identifier(s: Seq<char>, pos: int) -> Option<(TokenV, int)> {
    if 0 <= pos < s.len() && is_ident_char(s[pos]) && !is_digit_char(s[pos]) {
        let e = spec_ident_end(s, pos);
        Some((TokenV::Ident(s.subrange(pos, e)), e))
    } else {
        None
    }
}

/// Parse an identifier.
pub fn identifier(s: &str, n: usize, pos: usize) -> (r: Option<(Token, usize)>)
    requires
        n == s@.len(),
        pos <= n,
    ensures
        rel(r, spec_identifier(s@, pos as int)),
        r matches Some((t, p)) ==> pos < p <= n,
{
    if pos < n {
        let c = s.get_char(pos);
        if ident_char(c) && !('0' <= c && c <= '9') {
            let e = ident_end(s, n, pos);
            proof {
                lemma_ident_end_bounds(s@, pos as int + 1);
                assert(spec_ident_end(s@, pos as int) == spec_ident_end(s@, pos as int + 1));
            }
            let text = s.substring_char(pos, e).to_owned();
            return Some((Token::Ident(text), e));
        }
    }
    None
}

/// Mirror of the hexadecimal alternative of `constant`.
pub open spec fn spec_constant_hex(s: Seq<char>, pos: int) -> Option<(TokenV, int)> {
    if spec_tag(s, pos, "0x"@) {
        let e = spec_digit_end(s, pos + 2, 16);
        if e > pos + 2 {
            match num_fold(s, pos + 2, e, 16, 0) {
                Some(v) => Some((TokenV::Constant(v), e)),
                None => None,
            }
        } else {
            None
        }
    } else {
        None
    }
}

/// Mirror of the octal alternative of `constant`.
pub open spec fn spec_constant_oct(s: Seq<char>, pos: int) -> Option<(TokenV, int)> {
    if spec_tag(s, pos, "0"@) {
        let e = spec_digit_end(s, pos + 1, 8);
        if e > pos + 1 {
            match num_fold(s, pos + 1, e, 8, 0) {
                Some(v) => Some((TokenV::Constant(v), e)),
                None => None,
            }
        } else {
            None
        }
    } else {
        None
    }
}

/// Mirror of the decimal alternative of `constant`.
pub open spec fn spec_constant_dec(s: Seq<char>, pos: int) -> Option<(TokenV, int)> {
    let e = spec_digit_end(s, pos, 10);
    if e > pos {
        match num_fold(s, pos, e, 10, 0) {
            Some(v) => Some((TokenV::Constant(v), e)),
            None => None,
        }
    } else {
        None
    }
}

/// Mirror of `constant`: hexadecimal, then octal, then decimal.
pub open spec fn spec_constant(s: Seq<char>, pos: int) -> Option<(TokenV, int)> {
    if spec_constant_hex(s, pos) is Some {
        spec_constant_hex(s, pos)
    } else if spec_constant_oct(s, pos) is Some {
        spec_constant_oct(s, pos)
    } else {
        spec_constant_dec(s, pos)
    }
}

/// Parse a numeric constant.
pub fn constant(s: &str, n: usize, pos: usize) -> (r: Option<(Token, usize)>)
    requires
        n == s@.len(),
        pos <= n,
    ensures
        rel(r, spec_constant(s@, pos as int)),
        r matches Some((t, p)) ==> pos < p <= n,
{
    proof {
        reveal_strlit("0x");
        reveal_strlit("0");
    }
    if match_tag(s, n, pos, "0x") {
        let e = digit_end(s, n, pos + 2, 16);
        if e > pos + 2 {
            match parse_num(s, n, pos + 2, e, 16) {
                Some(v) => {
                    return Some((Token::Constant(v), e));
                },
                None => {},
            }
        }
    }
    if match_tag(s, n, pos, "0") {
        let e = digit_end(s, n, pos + 1, 8);
        if e > pos + 1 {
            match parse_num(s, n, pos + 1, e, 8) {
                Some(v) => {
                    return Some((Token::Constant(v), e));
                },
                None => {},
            }
        }
    }
    let e = digit_end(s, n, pos, 10);
    if e > pos {
        match parse_num(s, n, pos, e, 10) {
            Some(v) => {
                return Some((Token::Constant(v), e));
            },
            None => {},
        }
    }
    None
}

/// Mirror of `value`: a constant, else an identifier.
pub open spec fn spec_value(s: Seq<char>, pos: int) -> Option<(TokenV, int)> {
    if spec_constant(s, pos) is Some {
        spec_constant(s, pos)
    } else {
        spec_identifier(s, pos)
    }
}

/// Parse a value: a constant or an identifier.
pub fn value(s: &str, n: usize, pos: usize) -> (r: Option<(Token, usize)>)
    requires
        n == s@.len(),
        pos <= n,
    ensures
        rel(r, spec_value(s@, pos as int)),
        r matches Some((t, p)) ==> pos < p <= n,
{
    match constant(s, n, pos) {
        Some(r) => Some(r),
        None => identifier(s, n, pos),
    }
}

/// Mirror of `inline_comment`: `//` up to but not consuming the newline.
pub open spec fn spec_inline_comment(s: Seq<char>, pos: int) -> Option<int> {
    if spec_tag(s, pos, "//"@) {
        spec_find(s, pos + 2, "\n"@)
    } else {
        None
    }
}

/// Position after an optional inline comment.
pub open spec fn spec_opt_ic(s: Seq<char>, pos: int) -> int {
    match spec_inline_comment(s, pos) {
        Some(i) => i,
        None => pos,
    }
}

/// Skip an optional `//` comment, stopping before its newline.
pub fn opt_inline_comment(s: &str, n: usize, pos: usize) -> (r: usize)
    requires
        n == s@.len(),
        pos <= n,
    ensures
        r as int == spec_opt_ic(s@, pos as int),
        pos <= r <= n,
{
    proof {
        reveal_strlit("//");
        reveal_strlit("\n");
    }
    if match_tag(s, n, pos, "//") {
        match find_sub(s, n, pos + 2, "\n") {
            Some(i) => i,
            None => pos,
        }
    } else {
        pos
    }
}

/// Mirror of `comment`: `// ...\n` or `/* ... */`, the text kept.
pub open spec fn spec_comment(s: Seq<char>, pos: int) -> Option<(TokenV, int)> {
    if spec_tag(s, pos, "//"@) {
        match spec_find(s, pos + 2, "\n"@) {
            Some(i) => Some((TokenV::Comment(s.subrange(pos + 2, i)), i + 1)),
            None => None,
        }
    } else if spec_tag(s, pos, "/*"@) {
        match spec_find(s, pos + 2, "*/"@) {
            Some(i) => Some((TokenV::Comment(s.subrange(pos + 2, i)), i + 2)),
            None => None,
        }
    } else {
        None
    }
}

/// Parse a comment node.
pub fn comment(s: &str, n: usize, pos: usize) -> (r: Option<(Token, usize)>)
    requires
        n == s@.len(),
        pos <= n,
    ensures
        rel(r, spec_comment(s@, pos as int)),
        r matches Some((t, p)) ==> pos < p <= n,
{
    proof {
        reveal_strlit("//");
        reveal_strlit("/*");
        reveal_strlit("*/");
        reveal_strlit("\n");
    }
    if match_tag(s, n, pos, "//") {
        match find_sub(s, n, pos + 2, "\n") {
            Some(i) => {
                let text = s.substring_char(pos + 2, i).to_owned();
                Some((Token::Comment(text), i + 1))
            },
            None => None,
        }
    } else if match_tag(s, n, pos, "/*") {
        match find_sub(s, n, pos + 2, "*/") {
            Some(i) => {
                let text = s.substring_char(pos + 2, i).to_owned();
                Some((Token::Comment(text), i + 2))
            },
            None => None,
        }
    } else {
        None
    }
}

/// Mirror of `code_snippet`: a `%` passthrough line.
pub open spec fn spec_code_snippet(s: Seq<char>, pos: int) -> Option<(TokenV, int)> {
    if spec_tag(s, pos, "%"@) {
        match spec_find(s, pos + 1, "\n"@) {
            Some(i) => Some((TokenV::CodeSnippet(s.subrange(pos + 1, i)), i + 1)),
            None => None,
        }
    } else {
        None
    }
}

/// Parse a `%` passthrough line.
pub fn code_snippet(s: &str, n: usize, pos: usize) -> (r: Option<(Token, usize)>)
    requires
        n == s@.len(),
        pos <= n,
    ensures
        rel(r, spec_code_snippet(s@, pos as int)),
        r matches Some((t, p)) ==> pos < p <= n,
{
    proof {
        reveal_strlit("%");
        reveal_strlit("\n");
    }
    if match_tag(s, n, pos, "%") {
        match find_sub(s, n, pos + 1, "\n") {
            Some(i) => {
                let text = s.substring_char(pos + 1, i).to_owned();
                Some((Token::CodeSnippet(text), i + 1))
            },
            None => None,
        }
    } else {
        None
    }
}

/// Mirror of `blank`: one-or-more whitespace characters.
pub open spec fn spec_blank(s: Seq<char>, pos: int) -> Option<(TokenV, int)> {
    match spec_sp1(s, pos) {
        Some(p) => Some((TokenV::Blank, p)),
        None => None,
    }
}

/// Parse a whitespace placeholder node.
pub fn blank(s: &str, n: usize, pos: usize) -> (r: Option<(Token, usize)>)
    requires
        n == s@.len(),
        pos <= n,
    ensures
        rel(r, spec_blank(s@, pos as int)),
        r matches Some((t, p)) ==> pos < p <= n,
{
    match skip_sp1(s, n, pos) {
        Some(p) => Some((Token::Blank, p)),
        None => None,
    }
}

// ---------------------------------------------------------------------------
// Enum bodies
// ---------------------------------------------------------------------------
/// Position after a run of inline comments (each stops at its newline).
pub open spec fn spec_ic_list(s: Seq<char>, pos: int) -> int
    decreases s.len() - pos,
{
    match spec_inline_comment(s, pos) {
        Some(i) => {
            if pos < i <= s.len() {
                spec_ic_list(s, i)
            } else {
                pos
            }
        },
        None => pos,
    }
}

/// Skip a run of inline comments.
pub fn ic_list(s: &str, n: usize, pos: usize) -> (r: usize)
    requires
        n == s@.len(),
        pos <= n,
    ensures
        r as int == spec_ic_list(s@, pos as int),
        pos <= r <= n,
{
    proof {
        reveal_strlit("//");
        reveal_strlit("\n");
    }
    let mut cur: usize = pos;
    loop
        invariant
            n == s@.len(),
            pos <= cur <= n,
            spec_ic_list(s@, pos as int) == spec_ic_list(s@, cur as int),
        decreases n - cur,
    {
        proof {
            reveal_strlit("//");
            reveal_strlit("\n");
        }
        if match_tag(s, n, cur, "//") {
            match find_sub(s, n, cur + 2, "\n") {
                Some(i) => {
                    cur = i;
                },
                None => {
                    return cur;
                },
            }
        } else {
            return cur;
        }
    }
}

/// Mirror of `enum_kv`: `ident = value` with optional comma and comments, or
/// a bare `ident` recorded with a `Blank` value.
pub open spec fn spec_enum_kv(s: Seq<char>, pos: int) -> Option<((TokenV, TokenV), int)> {
    let a1 = spec_enum_kv_valued(s, pos);
    if a1 is Some {
        a1
    } else {
        spec_enum_kv_bare(s, pos)
    }
}

/// First alternative of `enum_kv`: an entry with an explicit value.
pub open spec fn spec_enum_kv_valued(s: Seq<char>, pos: int) -> Option<((TokenV, TokenV), int)> {
    let p1 = spec_sp(s, pos);
    let p2 = spec_ic_list(s, p1);
    let p3 = spec_sp(s, p2);
    match spec_identifier(s, p3) {
        Some((key, p4)) => {
            let p5 = spec_sp(s, p4);
            if spec_tag(s, p5, "="@) {
                let p6 = spec_sp(s, p5 + 1);
                match spec_value(s, p6) {
                    Some((val, p7)) => {
                        let p8 = spec_sp(s, p7);
                        let p9 = if spec_tag(s, p8, ","@) {
                            p8 + 1
                        } else {
                            p8
                        };
                        let p10 = spec_sp(s, p9);
                        let p11 = spec_opt_ic(s, p10);
                        let p12 = spec_sp(s, p11);
                        Some(((key, val), p12))
                    },
                    None => None,
                }
            } else {
                None
            }
        },
        None => None,
    }
}

/// Second alternative of `enum_kv`: a bare entry without a value.
pub open spec fn spec_enum_kv_bare(s: Seq<char>, pos: int) -> Option<((TokenV, TokenV), int)> {
    let p1 = spec_sp(s, pos);
    match spec_identifier(s, p1) {
        Some((key, p2)) => {
            let p3 = spec_sp(s, p2);
            let p4 = if spec_tag(s, p3, ","@) {
                p3 + 1
            } else {
                p3
            };
            let p5 = spec_sp(s, p4);
            let p6 = spec_ic_list(s, p5);
            let p7 = spec_sp(s, p6);
            Some(((key, TokenV::Blank), p7))
        },
        None => None,
    }
}

/// Parse one enum member entry.
pub fn enum_kv(s: &str, n: usize, pos: usize) -> (r: Option<((Token, Token), usize)>)
    requires
        n == s@.len(),
        pos <= n,
    ensures
        match r {
            Some(((k, v), p)) => spec_enum_kv(s@, pos as int) == Some(
                ((tok_view(&k), tok_view(&v)), p as int),
            ) && pos < p <= n,
            None => spec_enum_kv(s@, pos as int) is None,
        },
{
    proof {
        reveal_strlit("=");
        reveal_strlit(",");
    }
    // First alternative: `ident = value`.
    let p1 = skip_sp(s, n, pos);
    let p2 = ic_list(s, n, p1);
    let p3 = skip_sp(s, n, p2);
    match identifier(s, n, p3) {
        Some((key, p4)) => {
            let p5 = skip_sp(s, n, p4);
            if match_tag(s, n, p5, "=") {
                let p6 = skip_sp(s, n, p5 + 1);
                match value(s, n, p6) {
                    Some((val, p7)) => {
                        let p8 = skip_sp(s, n, p7);
                        let p9 = if match_tag(s, n, p8, ",") {
                            p8 + 1
                        } else {
                            p8
                        };
                        let p10 = skip_sp(s, n, p9);
                        let p11 = opt_inline_comment(s, n, p10);
                        let p12 = skip_sp(s, n, p11);
                        return Some(((key, val), p12));
                    },
                    None => {},
                }
            }
        },
        None => {},
    }
    // Second alternative: a bare identifier.
    let q1 = skip_sp(s, n, pos);
    match identifier(s, n, q1) {
        Some((key, q2)) => {
            let q3 = skip_sp(s, n, q2);
            let q4 = if match_tag(s, n, q3, ",") {
                q3 + 1
            } else {
                q3
            };
            let q5 = skip_sp(s, n, q4);
            let q6 = ic_list(s, n, q5);
            let q7 = skip_sp(s, n, q6);
            Some(((key, Token::Blank), q7))
        },
        None => None,
    }
}

/// Mirror of `many0!(enum_kv)`.
pub open spec fn spec_enum_kv_list(s: Seq<char>, pos: int) -> (Seq<(TokenV, TokenV)>, int)
    decreases s.len() - pos,
{
    match spec_enum_kv(s, pos) {
        Some((kv, p)) => {
            if pos < p <= s.len() {
                let (rest, e) = spec_enum_kv_list(s, p);
                (seq![kv] + rest, e)
            } else {
                (Seq::empty(), pos)
            }
        },
        None => (Seq::empty(), pos),
    }
}

/// Parse zero-or-more enum member entries.
pub fn enum_kv_list(s: &str, n: usize, pos: usize) -> (r: (Vec<(Token, Token)>, usize))
    requires
        n == s@.len(),
        pos <= n,
    ensures
        spec_enum_kv_list(s@, pos as int) == (pairs_view(r.0@), r.1 as int),
        pos <= r.1 <= n,
{
    let mut items: Vec<(Token, Token)> = Vec::new();
    let mut cur: usize = pos;
    loop
        invariant
            n == s@.len(),
            pos <= cur <= n,
            spec_enum_kv_list(s@, pos as int) == {
                let (rest, e) = spec_enum_kv_list(s@, cur as int);
                (pairs_view(items@) + rest, e)
            },
        decreases n - cur,
    {
        match enum_kv(s, n, cur) {
            Some(((k, v), p)) => {
                proof {
                    lemma_pairs_view_push(items@, (k, v));
                }
                let ghost old_items = items@;
                items.push((k, v));
                proof {
                    let (rest, e) = spec_enum_kv_list(s@, p as int);
                    assert(pairs_view(old_items) + (seq![(tok_view(&k), tok_view(&v))] + rest)
                        =~= pairs_view(items@) + rest);
                }
                cur = p;
            },
            None => {
                proof {
                    assert(pairs_view(items@) + Seq::<(TokenV, TokenV)>::empty() =~= pairs_view(
                        items@,
                    ));
                }
                return (items, cur);
            },
        }
    }
}

/// Mirror of `enum_body`: `{` entries `}`.
pub open spec fn spec_enum_body(s: Seq<char>, pos: int) -> Option<(Seq<(TokenV, TokenV)>, int)> {
    let p1 = spec_sp(s, pos);
    if spec_tag(s, p1, "{"@) {
        let p2 = spec_sp(s, p1 + 1);
        let (kvs, p3) = spec_enum_kv_list(s, p2);
        let p4 = spec_sp(s, p3);
        if spec_tag(s, p4, "}"@) {
            Some((kvs, p4 + 1))
        } else {
            None
        }
    } else {
        None
    }
}

/// Parse an enum body.
pub fn enum_body(s: &str, n: usize, pos: usize) -> (r: Option<(Vec<(Token, Token)>, usize)>)
    requires
        n == s@.len(),
        pos <= n,
    ensures
        match r {
            Some((kvs, p)) => spec_enum_body(s@, pos as int) == Some((pairs_view(kvs@), p as int))
                && pos < p <= n,
            None => spec_enum_body(s@, pos as int) is None,
        },
{
    proof {
        reveal_strlit("{");
        reveal_strlit("}");
    }
    let p1 = skip_sp(s, n, pos);
    if match_tag(s, n, p1, "{") {
        let p2 = skip_sp(s, n, p1 + 1);
        let (kvs, p3) = enum_kv_list(s, n, p2);
        let p4 = skip_sp(s, n, p3);
        if match_tag(s, n, p4, "}") {
            Some((kvs, p4 + 1))
        } else {
            None
        }
    } else {
        None
    }
}

// ---------------------------------------------------------------------------
// Type specifiers, declarations, struct and union bodies
// ---------------------------------------------------------------------------
/// A keyword followed by required whitespace; the position after the run.
pub open spec fn spec_kw(s: Seq<char>, pos: int, kw: Seq<char>) -> Option<int> {
    if spec_tag(s, pos, kw) {
        spec_sp1(s, pos + kw.len())
    } else {
        None
    }
}

/// Two keywords, each followed by required whitespace.
pub open spec fn spec_kw2(s: Seq<char>, pos: int, k1: Seq<char>, k2: Seq<char>) -> Option<int> {
    match spec_kw(s, pos, k1) {
        Some(p) => spec_kw(s, p, k2),
        None => None,
    }
}

/// Match a keyword and the required whitespace after it.
pub fn kw_sp1(s: &str, n: usize, pos: usize, kw: &str) -> (r: Option<usize>)
    requires
        n == s@.len(),
        pos <= n,
    ensures
        match r {
            Some(p) => spec_kw(s@, pos as int, kw@) == Some(p as int) && pos < p <= n,
            None => spec_kw(s@, pos as int, kw@) is None,
        },
{
    if match_tag(s, n, pos, kw) {
        let tl = kw.unicode_len();
        skip_sp1(s, n, pos + tl)
    } else {
        None
    }
}

/// Mirror of `enum_type_specifier`: the `enum` keyword and a body.
pub open spec fn spec_enum_type_specifier(s: Seq<char>, pos: int) -> Option<(TokenV, int)> {
    match spec_kw(s, pos, "enum"@) {
        Some(p) => match spec_enum_body(s, p) {
            Some((kvs, e)) => Some((TokenV::Enum(kvs), e)),
            None => None,
        },
        None => None,
    }
}

/// Parse an inline `enum` type specifier.
pub fn enum_type_specifier(s: &str, n: usize, pos: usize) -> (r: Option<(Token, usize)>)
    requires
        n == s@.len(),
        pos <= n,
    ensures
        rel(r, spec_enum_type_specifier(s@, pos as int)),
        r matches Some((t, p)) ==> pos < p <= n,
{
    match kw_sp1(s, n, pos, "enum") {
        Some(p) => match enum_body(s, n, p) {
            Some((kvs, e)) => Some((Token::Enum(kvs), e)),
            None => None,
        },
        None => None,
    }
}

/// Mirror of `struct_type_specifier`: the `struct` keyword and a body.
pub open spec fn spec_struct_type_specifier(s: Seq<char>, pos: int) -> Option<(TokenV, int)>
    decreases s.len() - pos, 10int,
{
    match spec_kw(s, pos, "struct"@) {
        Some(p) => {
            if pos < p <= s.len() {
                match spec_struct_body(s, p) {
                    Some((decls, e)) => Some((TokenV::Struct(decls), e)),
                    None => None,
                }
            } else {
                None
            }
        },
        None => None,
    }
}

/// Mirror of `union_type_specifier`: the `union` keyword and a body.
pub open spec fn spec_union_type_specifier(s: Seq<char>, pos: int) -> Option<(TokenV, int)>
    decreases s.len() - pos, 10int,
{
    match spec_kw(s, pos, "union"@) {
        Some(p) => {
            if pos < p <= s.len() {
                spec_union_body(s, p)
            } else {
                None
            }
        },
        None => None,
    }
}

/// Mirror of `type_specifier`: primitive keywords in grammar order, then
/// inline aggregate specifiers, then a type-name identifier.
pub open spec fn spec_type_specifier(s: Seq<char>, pos: int) -> Option<(TokenV, int)>
    decreases s.len() - pos, 20int,
{
    if spec_kw2(s, pos, "unsigned"@, "int"@) is Some {
        match spec_kw2(s, pos, "unsigned"@, "int"@) {
            Some(p) => Some((TokenV::Type(Type::Uint), p)),
            None => None,
        }
    } else if spec_kw(s, pos, "int"@) is Some {
        match spec_kw(s, pos, "int"@) {
            Some(p) => Some((TokenV::Type(Type::Int), p)),
            None => None,
        }
    } else if spec_kw2(s, pos, "unsigned"@, "hyper"@) is Some {
        match spec_kw2(s, pos, "unsigned"@, "hyper"@) {
            Some(p) => Some((TokenV::Type(Type::Uhyper), p)),
            None => None,
        }
    } else if spec_kw(s, pos, "hyper"@) is Some {
        match spec_kw(s, pos, "hyper"@) {
            Some(p) => Some((TokenV::Type(Type::Hyper), p)),
            None => None,
        }
    } else if spec_kw(s, pos, "float"@) is Some {
        match spec_kw(s, pos, "float"@) {
            Some(p) => Some((TokenV::Type(Type::Float), p)),
            None => None,
        }
    } else if spec_kw(s, pos, "double"@) is Some {
        match spec_kw(s, pos, "double"@) {
            Some(p) => Some((TokenV::Type(Type::Double), p)),
            None => None,
        }
    } else if spec_kw(s, pos, "quadruple"@) is Some {
        match spec_kw(s, pos, "quadruple"@) {
            Some(p) => Some((TokenV::Type(Type::Quadruple), p)),
            None => None,
        }
    } else if spec_kw(s, pos, "bool"@) is Some {
        match spec_kw(s, pos, "bool"@) {
            Some(p) => Some((TokenV::Type(Type::Bool), p)),
            None => None,
        }
    } else if spec_kw(s, pos, "uint32_t"@) is Some {
        match spec_kw(s, pos, "uint32_t"@) {
            Some(p) => Some((TokenV::Type(Type::Uint), p)),
            None => None,
        }
    } else if spec_kw(s, pos, "u_int32_t"@) is Some {
        match spec_kw(s, pos, "u_int32_t"@) {
            Some(p) => Some((TokenV::Type(Type::Uint), p)),
            None => None,
        }
    } else if spec_kw(s, pos, "int32_t"@) is Some {
        match spec_kw(s, pos, "int32_t"@) {
            Some(p) => Some((TokenV::Type(Type::Int), p)),
            None => None,
        }
    } else if spec_kw(s, pos, "u_int64_t"@) is Some {
        match spec_kw(s, pos, "u_int64_t"@) {
            Some(p) => Some((TokenV::Type(Type::Uhyper), p)),
            None => None,
        }
    } else if spec_kw(s, pos, "unsigned"@) is Some {
        match spec_kw(s, pos, "unsigned"@) {
            Some(p) => Some((TokenV::Type(Type::Uint), p)),
            None => None,
        }
    } else if spec_enum_type_specifier(s, pos) is Some {
        spec_enum_type_specifier(s, pos)
    } else if spec_struct_type_specifier(s, pos) is Some {
        spec_struct_type_specifier(s, pos)
    } else if spec_union_type_specifier(s, pos) is Some {
        spec_union_type_specifier(s, pos)
    } else {
        spec_identifier(s, pos)
    }
}

/// Parse a type specifier.
pub fn type_specifier(s: &str, n: usize, pos: usize) -> (r: Option<(Token, usize)>)
    requires
        n == s@.len(),
        pos <= n,
    ensures
        rel(r, spec_type_specifier(s@, pos as int)),
        r matches Some((t, p)) ==> pos < p <= n,
    decreases n - pos, 20int,
{
    match kw_sp1(s, n, pos, "unsigned") {
        Some(p1) => {
            match kw_sp1(s, n, p1, "int") {
                Some(p2) => {
                    return Some((Token::Type(Type::Uint), p2));
                },
                None => {},
            }
        },
        None => {},
    }
    match kw_sp1(s, n, pos, "int") {
        Some(p) => {
            return Some((Token::Type(Type::Int), p));
        },
        None => {},
    }
    match kw_sp1(s, n, pos, "unsigned") {
        Some(p1) => {
            match kw_sp1(s, n, p1, "hyper") {
                Some(p2) => {
                    return Some((Token::Type(Type::Uhyper), p2));
                },
                None => {},
            }
        },
        None => {},
    }
    match kw_sp1(s, n, pos, "hyper") {
        Some(p) => {
            return Some((Token::Type(Type::Hyper), p));
        },
        None => {},
    }
    match kw_sp1(s, n, pos, "float") {
        Some(p) => {
            return Some((Token::Type(Type::Float), p));
        },
        None => {},
    }
    match kw_sp1(s, n, pos, "double") {
        Some(p) => {
            return Some((Token::Type(Type::Double), p));
        },
        None => {},
    }
    match kw_sp1(s, n, pos, "quadruple") {
        Some(p) => {
            return Some((Token::Type(Type::Quadruple), p));
        },
        None => {},
    }
    match kw_sp1(s, n, pos, "bool") {
        Some(p) => {
            return Some((Token::Type(Type::Bool), p));
        },
        None => {},
    }
    match kw_sp1(s, n, pos, "uint32_t") {
        Some(p) => {
            return Some((Token::Type(Type::Uint), p));
        },
        None => {},
    }
    match kw_sp1(s, n, pos, "u_int32_t") {
        Some(p) => {
            return Some((Token::Type(Type::Uint), p));
        },
        None => {},
    }
    match kw_sp1(s, n, pos, "int32_t") {
        Some(p) => {
            return Some((Token::Type(Type::Int), p));
        },
        None => {},
    }
    match kw_sp1(s, n, pos, "u_int64_t") {
        Some(p) => {
            return Some((Token::Type(Type::Uhyper), p));
        },
        None => {},
    }
    match kw_sp1(s, n, pos, "unsigned") {
        Some(p) => {
            return Some((Token::Type(Type::Uint), p));
        },
        None => {},
    }
    match enum_type_specifier(s, n, pos) {
        Some(r) => {
            return Some(r);
        },
        None => {},
    }
    match struct_type_specifier(s, n, pos) {
        Some(r) => {
            return Some(r);
        },
        None => {},
    }
    match union_type_specifier(s, n, pos) {
        Some(r) => {
            return Some(r);
        },
        None => {},
    }
    identifier(s, n, pos)
}

/// Parse an inline `struct` type specifier.
pub fn struct_type_specifier(s: &str, n: usize, pos: usize) -> (r: Option<(Token, usize)>)
    requires
        n == s@.len(),
        pos <= n,
    ensures
        rel(r, spec_struct_type_specifier(s@, pos as int)),
        r matches Some((t, p)) ==> pos < p <= n,
    decreases n - pos, 10int,
{
    match kw_sp1(s, n, pos, "struct") {
        Some(p) => match struct_body(s, n, p) {
            Some((decls, e)) => Some((Token::Struct(decls), e)),
            None => None,
        },
        None => None,
    }
}

/// Parse an inline `union` type specifier.
pub fn union_type_specifier(s: &str, n: usize, pos: usize) -> (r: Option<(Token, usize)>)
    requires
        n == s@.len(),
        pos <= n,
    ensures
        rel(r, spec_union_type_specifier(s@, pos as int)),
        r matches Some((t, p)) ==> pos < p <= n,
    decreases n - pos, 10int,
{
    match kw_sp1(s, n, pos, "union") {
        Some(p) => union_body(s, n, p),
        None => None,
    }
}

/// Mirror of the fixed-size `opaque` alternative of `declaration`.
pub open spec fn spec_decl_opaque_fixed(s: Seq<char>, pos: int) -> Option<(TokenV, int)> {
    match spec_kw(s, pos, "opaque"@) {
        Some(p1) => match spec_identifier(s, p1) {
            Some((id, p2)) => {
                if spec_tag(s, p2, "["@) {
                    match spec_value(s, p2 + 1) {
                        Some((sz, p3)) => {
                            if spec_tag(s, p3, "]"@) {
                                Some((TokenV::OpaqueDecl { id: one(id), size: one(sz) }, p3 + 1))
                            } else {
                                None
                            }
                        },
                        None => None,
                    }
                } else {
                    None
                }
            },
            None => None,
        },
        None => None,
    }
}

/// Mirror of the variable-size `opaque` alternative of `declaration`.
pub open spec fn spec_decl_opaque_var(s: Seq<char>, pos: int) -> Option<(TokenV, int)> {
    match spec_kw(s, pos, "opaque"@) {
        Some(p1) => match spec_identifier(s, p1) {
            Some((id, p2)) => spec_angle_size(s, p2, id, false),
            None => None,
        },
        None => None,
    }
}

/// Mirror of the bounded `string` alternative of `declaration`.
pub open spec fn spec_decl_string(s: Seq<char>, pos: int) -> Option<(TokenV, int)> {
    match spec_kw(s, pos, "string"@) {
        Some(p1) => match spec_identifier(s, p1) {
            Some((id, p2)) => spec_angle_size(s, p2, id, true),
            None => None,
        },
        None => None,
    }
}

/// Shared `<` optional-size `>` suffix of the string and variable-opaque
/// alternatives; `is_string` picks which node is built.
pub open spec fn spec_angle_size(s: Seq<char>, p2: int, id: TokenV, is_string: bool) -> Option<
    (TokenV, int),
> {
    if spec_tag(s, p2, "<"@) {
        match spec_value(s, p2 + 1) {
            Some((sz, p3)) => {
                if spec_tag(s, p3, ">"@) {
                    if is_string {
                        Some((TokenV::StringDecl { id: one(id), size: one(sz) }, p3 + 1))
                    } else {
                        Some((TokenV::VarOpaqueDecl { id: one(id), size: one(sz) }, p3 + 1))
                    }
                } else {
                    None
                }
            },
            None => {
                if spec_tag(s, p2 + 1, ">"@) {
                    if is_string {
                        Some((TokenV::StringDecl { id: one(id), size: Seq::empty() }, p2 + 2))
                    } else {
                        Some((TokenV::VarOpaqueDecl { id: one(id), size: Seq::empty() }, p2 + 2))
                    }
                } else {
                    None
                }
            },
        }
    } else {
        None
    }
}

/// Mirror of the fixed-array alternative of `declaration`.
pub open spec fn spec_decl_array(s: Seq<char>, pos: int) -> Option<(TokenV, int)>
    decreases s.len() - pos, 25int,
{
    if 0 <= pos <= s.len() {
        match spec_type_specifier(s, pos) {
            Some((ty, p1)) => {
                let p2 = spec_sp(s, p1);
                match spec_identifier(s, p2) {
                    Some((id, p3)) => {
                        if spec_tag(s, p3, "["@) {
                            match spec_value(s, p3 + 1) {
                                Some((sz, p4)) => {
                                    if spec_tag(s, p4, "]"@) {
                                        Some(
                                            (
                                                TokenV::ArrayDecl {
                                                    ty: one(ty),
                                                    id: one(id),
                                                    size: one(sz),
                                                },
                                                p4 + 1,
                                            ),
                                        )
                                    } else {
                                        None
                                    }
                                },
                                None => None,
                            }
                        } else {
                            None
                        }
                    },
                    None => None,
                }
            },
            None => None,
        }
    } else {
        None
    }
}

/// Mirror of the variable-array alternative of `declaration`.
pub open spec fn spec_decl_vararray(s: Seq<char>, pos: int) -> Option<(TokenV, int)>
    decreases s.len() - pos, 25int,
{
    if 0 <= pos <= s.len() {
        match spec_type_specifier(s, pos) {
            Some((ty, p1)) => {
                let p2 = spec_sp(s, p1);
                match spec_identifier(s, p2) {
                    Some((id, p3)) => {
                        if spec_tag(s, p3, "<"@) {
                            match spec_value(s, p3 + 1) {
                                Some((sz, p4)) => {
                                    if spec_tag(s, p4, ">"@) {
                                        Some(
                                            (
                                                TokenV::VarArrayDecl {
                                                    ty: one(ty),
                                                    id: one(id),
                                                    size: one(sz),
                                                },
                                                p4 + 1,
                                            ),
                                        )
                                    } else {
                                        None
                                    }
                                },
                                None => {
                                    if spec_tag(s, p3 + 1, ">"@) {
                                        Some(
                                            (
                                                TokenV::VarArrayDecl {
                                                    ty: one(ty),
                                                    id: one(id),
                                                    size: Seq::empty(),
                                                },
                                                p3 + 2,
                                            ),
                                        )
                                    } else {
                                        None
                                    }
                                },
                            }
                        } else {
                            None
                        }
                    },
                    None => None,
                }
            },
            None => None,
        }
    } else {
        None
    }
}

/// Mirror of the pointer alternative of `declaration`.
pub open spec fn spec_decl_pointer(s: Seq<char>, pos: int) -> Option<(TokenV, int)>
    decreases s.len() - pos, 25int,
{
    if 0 <= pos <= s.len() {
        match spec_type_specifier(s, pos) {
            Some((ty, p1)) => {
                let p2 = spec_sp(s, p1);
                if spec_tag(s, p2, "*"@) {
                    match spec_sp1(s, p2 + 1) {
                        Some(p3) => match spec_identifier(s, p3) {
                            Some((id, p4)) => Some(
                                (TokenV::PointerDecl { ty: one(ty), id: one(id) }, p4),
                            ),
                            None => None,
                        },
                        None => None,
                    }
                } else {
                    None
                }
            },
            None => None,
        }
    } else {
        None
    }
}

/// Mirror of the bare alternative of `declaration`: a type and a name.
pub open spec fn spec_decl_plain(s: Seq<char>, pos: int) -> Option<(TokenV, int)>
    decreases s.len() - pos, 25int,
{
    if 0 <= pos <= s.len() {
        match spec_type_specifier(s, pos) {
            Some((ty, p1)) => {
                let p2 = spec_sp(s, p1);
                match spec_identifier(s, p2) {
                    Some((id, p3)) => Some((TokenV::Decl { ty: one(ty), id: one(id) }, p3)),
                    None => None,
                }
            },
            None => None,
        }
    } else {
        None
    }
}

/// Mirror of the trailing `void` alternative of `declaration`.
pub open spec fn spec_decl_void(s: Seq<char>, pos: int) -> Option<(TokenV, int)> {
    if spec_tag(s, pos, "void"@) {
        Some((TokenV::VoidDecl, spec_sp(s, pos + 4)))
    } else {
        None
    }
}

/// Mirror of `declaration`: seven declaration shapes in priority order,
/// then `void`.
pub open spec fn spec_declaration(s: Seq<char>, pos: int) -> Option<(TokenV, int)>
    decreases s.len() - pos, 30int,
{
    if spec_decl_opaque_fixed(s, pos) is Some {
        spec_decl_opaque_fixed(s, pos)
    } else if spec_decl_opaque_var(s, pos) is Some {
        spec_decl_opaque_var(s, pos)
    } else if spec_decl_string(s, pos) is Some {
        spec_decl_string(s, pos)
    } else if spec_decl_array(s, pos) is Some {
        spec_decl_array(s, pos)
    } else if spec_decl_vararray(s, pos) is Some {
        spec_decl_vararray(s, pos)
    } else if spec_decl_pointer(s, pos) is Some {
        spec_decl_pointer(s, pos)
    } else if spec_decl_plain(s, pos) is Some {
        spec_decl_plain(s, pos)
    } else {
        spec_decl_void(s, pos)
    }
}

/// Parse the `< size? >` suffix shared by string and variable-opaque
/// declarations.
fn angle_size(s: &str, n: usize, p2: usize, id: Token, is_string: bool) -> (r: Option<
    (Token, usize),
>)
    requires
        n == s@.len(),
        p2 <= n,
    ensures
        rel(r, spec_angle_size(s@, p2 as int, tok_view(&id), is_string)),
        r matches Some((t, p)) ==> p2 < p <= n,
{
    proof {
        reveal_strlit("<");
        reveal_strlit(">");
    }
    let ghost idv = tok_view(&id);
    if match_tag(s, n, p2, "<") {
        match value(s, n, p2 + 1) {
            Some((sz, p3)) => {
                if match_tag(s, n, p3, ">") {
                    let ghost szv = tok_view(&sz);
                    let o: Option<Token> = Some(sz);
                    proof {
                        assert(opt_view(&o) == seq![szv]);
                    }
                    if is_string {
                        let t = Token::StringDecl { id: Box::new(id), size: Box::new(o) };
                        proof {
                            assert(tok_view(&t) == TokenV::StringDecl {
                                id: one(idv),
                                size: one(szv),
                            });
                        }
                        Some((t, p3 + 1))
                    } else {
                        let t = Token::VarOpaqueDecl { id: Box::new(id), size: Box::new(o) };
                        proof {
                            assert(tok_view(&t) == TokenV::VarOpaqueDecl {
                                id: one(idv),
                                size: one(szv),
                            });
                        }
                        Some((t, p3 + 1))
                    }
                } else {
                    None
                }
            },
            None => {
                if match_tag(s, n, p2 + 1, ">") {
                    let o: Option<Token> = None;
                    proof {
                        assert(opt_view(&o) == Seq::<TokenV>::empty());
                    }
                    if is_string {
                        let t = Token::StringDecl { id: Box::new(id), size: Box::new(o) };
                        proof {
                            assert(tok_view(&t) == TokenV::StringDecl {
                                id: one(idv),
                                size: Seq::empty(),
                            });
                        }
                        Some((t, p2 + 2))
                    } else {
                        let t = Token::VarOpaqueDecl { id: Box::new(id), size: Box::new(o) };
                        proof {
                            assert(tok_view(&t) == TokenV::VarOpaqueDecl {
                                id: one(idv),
                                size: Seq::empty(),
                            });
                        }
                        Some((t, p2 + 2))
                    }
                } else {
                    None
                }
            },
        }
    } else {
        None
    }
}

/// Parse a declaration.
pub fn declaration(s: &str, n: usize, pos: usize) -> (r: Option<(Token, usize)>)
    requires
        n == s@.len(),
        pos <= n,
    ensures
        rel(r, spec_declaration(s@, pos as int)),
        r matches Some((t, p)) ==> pos < p <= n,
    decreases n - pos, 30int,
{
    proof {
        reveal_strlit("[");
        reveal_strlit("]");
        reveal_strlit("<");
        reveal_strlit(">");
        reveal_strlit("*");
        reveal_strlit("void");
    }
    // Fixed-size opaque bytes.
    match kw_sp1(s, n, pos, "opaque") {
        Some(p1) => {
            match identifier(s, n, p1) {
                Some((id, p2)) => {
                    if match_tag(s, n, p2, "[") {
                        match value(s, n, p2 + 1) {
                            Some((sz, p3)) => {
                                if match_tag(s, n, p3, "]") {
                                    return Some((
                                        Token::OpaqueDecl {
                                            id: Box::new(id),
                                            size: Box::new(sz),
                                        },
                                        p3 + 1,
                                    ));
                                }
                            },
                            None => {},
                        }
                    }
                },
                None => {},
            }
        },
        None => {},
    }
    // Variable-size opaque bytes.
    match kw_sp1(s, n, pos, "opaque") {
        Some(p1) => {
            match identifier(s, n, p1) {
                Some((id, p2)) => {
                    match angle_size(s, n, p2, id, false) {
                        Some(r) => {
                            return Some(r);
                        },
                        None => {},
                    }
                },
                None => {},
            }
        },
        None => {},
    }
    // Bounded string.
    match kw_sp1(s, n, pos, "string") {
        Some(p1) => {
            match identifier(s, n, p1) {
                Some((id, p2)) => {
                    match angle_size(s, n, p2, id, true) {
                        Some(r) => {
                            return Some(r);
                        },
                        None => {},
                    }
                },
                None => {},
            }
        },
        None => {},
    }
    // Fixed array.
    match type_specifier(s, n, pos) {
        Some((ty, p1)) => {
            let p2 = skip_sp(s, n, p1);
            match identifier(s, n, p2) {
                Some((id, p3)) => {
                    if match_tag(s, n, p3, "[") {
                        match value(s, n, p3 + 1) {
                            Some((sz, p4)) => {
                                if match_tag(s, n, p4, "]") {
                                    return Some((
                                        Token::ArrayDecl {
                                            ty: Box::new(ty),
                                            id: Box::new(id),
                                            size: Box::new(sz),
                                        },
                                        p4 + 1,
                                    ));
                                }
                            },
                            None => {},
                        }
                    }
                },
                None => {},
            }
        },
        None => {},
    }
    // Variable array.
    match type_specifier(s, n, pos) {
        Some((ty, p1)) => {
            let p2 = skip_sp(s, n, p1);
            match identifier(s, n, p2) {
                Some((id, p3)) => {
                    if match_tag(s, n, p3, "<") {
                        match value(s, n, p3 + 1) {
                            Some((sz, p4)) => {
                                if match_tag(s, n, p4, ">") {
                                    let ghost tyv = tok_view(&ty);
                                    let ghost idv = tok_view(&id);
                                    let ghost szv = tok_view(&sz);
                                    let o: Option<Token> = Some(sz);
                                    proof {
                                        assert(opt_view(&o) == seq![szv]);
                                    }
                                    let t = Token::VarArrayDecl {
                                        ty: Box::new(ty),
                                        id: Box::new(id),
                                        size: Box::new(o),
                                    };
                                    proof {
                                        assert(tok_view(&t) == TokenV::VarArrayDecl {
                                            ty: one(tyv),
                                            id: one(idv),
                                            size: one(szv),
                                        });
                                    }
                                    return Some((t, p4 + 1));
                                }
                            },
                            None => {
                                if match_tag(s, n, p3 + 1, ">") {
                                    let ghost tyv = tok_view(&ty);
                                    let ghost idv = tok_view(&id);
                                    let o: Option<Token> = None;
                                    proof {
                                        assert(opt_view(&o) == Seq::<TokenV>::empty());
                                    }
                                    let t = Token::VarArrayDecl {
                                        ty: Box::new(ty),
                                        id: Box::new(id),
                                        size: Box::new(o),
                                    };
                                    proof {
                                        assert(tok_view(&t) == TokenV::VarArrayDecl {
                                            ty: one(tyv),
                                            id: one(idv),
                                            size: Seq::empty(),
                                        });
                                    }
                                    return Some((t, p3 + 2));
                                }
                            },
                        }
                    }
                },
                None => {},
            }
        },
        None => {},
    }
    // Pointer declaration.
    match type_specifier(s, n, pos) {
        Some((ty, p1)) => {
            let p2 = skip_sp(s, n, p1);
            if match_tag(s, n, p2, "*") {
                match skip_sp1(s, n, p2 + 1) {
                    Some(p3) => {
                        match identifier(s, n, p3) {
                            Some((id, p4)) => {
                                return Some((
                                    Token::PointerDecl { ty: Box::new(ty), id: Box::new(id) },
                                    p4,
                                ));
                            },
                            None => {},
                        }
                    },
                    None => {},
                }
            }
        },
        None => {},
    }
    // Bare declaration.
    match type_specifier(s, n, pos) {
        Some((ty, p1)) => {
            let p2 = skip_sp(s, n, p1);
            match identifier(s, n, p2) {
                Some((id, p3)) => {
                    return Some((Token::Decl { ty: Box::new(ty), id: Box::new(id) }, p3));
                },
                None => {},
            }
        },
        None => {},
    }
    // Valueless declaration.
    if match_tag(s, n, pos, "void") {
        let p = skip_sp(s, n, pos + 4);
        return Some((Token::VoidDecl, p));
    }
    None
}

/// Mirror of `struct_decls`: one field declaration ended by `;`.
pub open spec fn spec_struct_decls(s: Seq<char>, pos: int) -> Option<(TokenV, int)>
    decreases s.len() - pos, 40int,
{
    let p1 = spec_sp(s, pos);
    if pos <= p1 <= s.len() {
        match spec_declaration(s, p1) {
            Some((d, p2)) => {
                let p3 = spec_sp(s, p2);
                if spec_tag(s, p3, ";"@) {
                    let p4 = spec_sp(s, p3 + 1);
                    let p5 = spec_opt_ic(s, p4);
                    let p6 = spec_sp(s, p5);
                    Some((d, p6))
                } else {
                    None
                }
            },
            None => None,
        }
    } else {
        None
    }
}

/// Parse one struct field declaration.
pub fn struct_decls(s: &str, n: usize, pos: usize) -> (r: Option<(Token, usize)>)
    requires
        n == s@.len(),
        pos <= n,
    ensures
        rel(r, spec_struct_decls(s@, pos as int)),
        r matches Some((t, p)) ==> pos < p <= n,
    decreases n - pos, 40int,
{
    proof {
        reveal_strlit(";");
    }
    let p1 = skip_sp(s, n, pos);
    match declaration(s, n, p1) {
        Some((d, p2)) => {
            let p3 = skip_sp(s, n, p2);
            if match_tag(s, n, p3, ";") {
                let p4 = skip_sp(s, n, p3 + 1);
                let p5 = opt_inline_comment(s, n, p4);
                let p6 = skip_sp(s, n, p5);
                Some((d, p6))
            } else {
                None
            }
        },
        None => None,
    }
}

/// Mirror of `many0!(struct_decls)`.
pub open spec fn spec_struct_decls_list(s: Seq<char>, pos: int) -> (Seq<TokenV>, int)
    decreases s.len() - pos, 50int,
{
    if 0 <= pos <= s.len() {
        match spec_struct_decls(s, pos) {
            Some((d, p)) => {
                if pos < p <= s.len() {
                    let (rest, e) = spec_struct_decls_list(s, p);
                    (seq![d] + rest, e)
                } else {
                    (Seq::empty(), pos)
                }
            },
            None => (Seq::empty(), pos),
        }
    } else {
        (Seq::empty(), pos)
    }
}

/// Parse zero-or-more struct field declarations.
pub fn struct_decls_list(s: &str, n: usize, pos: usize) -> (r: (Vec<Token>, usize))
    requires
        n == s@.len(),
        pos <= n,
    ensures
        spec_struct_decls_list(s@, pos as int) == (toks_view(r.0@), r.1 as int),
        pos <= r.1 <= n,
    decreases n - pos, 50int,
{
    let mut items: Vec<Token> = Vec::new();
    let mut cur: usize = pos;
    loop
        invariant
            n == s@.len(),
            pos <= cur <= n,
            spec_struct_decls_list(s@, pos as int) == {
                let (rest, e) = spec_struct_decls_list(s@, cur as int);
                (toks_view(items@) + rest, e)
            },
        decreases n - cur,
    {
        match struct_decls(s, n, cur) {
            Some((d, p)) => {
                proof {
                    lemma_toks_view_push(items@, d);
                }
                let ghost old_items = items@;
                items.push(d);
                proof {
                    let (rest, e) = spec_struct_decls_list(s@, p as int);
                    assert(toks_view(old_items) + (seq![spec_struct_decls(s@, cur as int)->Some_0.0]
                        + rest) =~= toks_view(items@) + rest);
                }
                cur = p;
            },
            None => {
                proof {
                    assert(toks_view(items@) + Seq::<TokenV>::empty() =~= toks_view(items@));
                }
                return (items, cur);
            },
        }
    }
}

/// Mirror of `struct_body`: `{` field declarations `}`.
pub open spec fn spec_struct_body(s: Seq<char>, pos: int) -> Option<(Seq<TokenV>, int)>
    decreases s.len() - pos, 0int,
{
    if spec_tag(s, pos, "{"@) {
        let p1 = spec_sp(s, pos + 1);
        if pos < p1 <= s.len() {
            let (decls, p2) = spec_struct_decls_list(s, p1);
            let p3 = spec_sp(s, p2);
            if spec_tag(s, p3, "}"@) {
                Some((decls, p3 + 1))
            } else {
                None
            }
        } else {
            None
        }
    } else {
        None
    }
}

/// Parse a struct body.
pub fn struct_body(s: &str, n: usize, pos: usize) -> (r: Option<(Vec<Token>, usize)>)
    requires
        n == s@.len(),
        pos <= n,
    ensures
        match r {
            Some((decls, p)) => spec_struct_body(s@, pos as int) == Some(
                (toks_view(decls@), p as int),
            ) && pos < p <= n,
            None => spec_struct_body(s@, pos as int) is None,
        },
    decreases n - pos, 0int,
{
    proof {
        reveal_strlit("{");
        reveal_strlit("}");
    }
    if match_tag(s, n, pos, "{") {
        let p1 = skip_sp(s, n, pos + 1);
        let (decls, p2) = struct_decls_list(s, n, p1);
        let p3 = skip_sp(s, n, p2);
        if match_tag(s, n, p3, "}") {
            Some((decls, p3 + 1))
        } else {
            None
        }
    } else {
        None
    }
}

/// Mirror of `case_def`: `case <value> :` with an optional comment.
pub open spec fn spec_case_def(s: Seq<char>, pos: int) -> Option<(TokenV, int)> {
    if spec_tag(s, pos, "case"@) {
        let p1 = spec_sp(s, pos + 4);
        match spec_value(s, p1) {
            Some((v, p2)) => {
                let p3 = spec_sp(s, p2);
                if spec_tag(s, p3, ":"@) {
                    let p4 = spec_sp(s, p3 + 1);
                    let p5 = spec_opt_ic(s, p4);
                    let p6 = spec_sp(s, p5);
                    Some((v, p6))
                } else {
                    None
                }
            },
            None => None,
        }
    } else {
        None
    }
}

/// Parse one `case` label.
pub fn case_def(s: &str, n: usize, pos: usize) -> (r: Option<(Token, usize)>)
    requires
        n == s@.len(),
        pos <= n,
    ensures
        rel(r, spec_case_def(s@, pos as int)),
        r matches Some((t, p)) ==> pos < p <= n,
{
    proof {
        reveal_strlit("case");
        reveal_strlit(":");
    }
    if match_tag(s, n, pos, "case") {
        let p1 = skip_sp(s, n, pos + 4);
        match value(s, n, p1) {
            Some((v, p2)) => {
                let p3 = skip_sp(s, n, p2);
                if match_tag(s, n, p3, ":") {
                    let p4 = skip_sp(s, n, p3 + 1);
                    let p5 = opt_inline_comment(s, n, p4);
                    let p6 = skip_sp(s, n, p5);
                    Some((v, p6))
                } else {
                    None
                }
            },
            None => None,
        }
    } else {
        None
    }
}

/// Mirror of `many1!(case_def)`.
pub open spec fn spec_case_def_list(s: Seq<char>, pos: int) -> Option<(Seq<TokenV>, int)>
    decreases s.len() - pos,
{
    match spec_case_def(s, pos) {
        Some((v, p)) => {
            if pos < p <= s.len() {
                match spec_case_def_list(s, p) {
                    Some((rest, e)) => Some((seq![v] + rest, e)),
                    None => Some((seq![v], p)),
                }
            } else {
                Some((seq![v], p))
            }
        },
        None => None,
    }
}

/// Parse one-or-more `case` labels.
pub fn case_def_list(s: &str, n: usize, pos: usize) -> (r: Option<(Vec<Token>, usize)>)
    requires
        n == s@.len(),
        pos <= n,
    ensures
        match r {
            Some((vals, p)) => spec_case_def_list(s@, pos as int) == Some(
                (toks_view(vals@), p as int),
            ) && pos < p <= n,
            None => spec_case_def_list(s@, pos as int) is None,
        },
{
    match case_def(s, n, pos) {
        None => None,
        Some((v0, q0)) => {
            let mut items: Vec<Token> = Vec::new();
            proof {
                lemma_toks_view_push(items@, v0);
            }
            items.push(v0);
            let mut cur: usize = q0;
            loop
                invariant
                    n == s@.len(),
                    pos < cur <= n,
                    items@.len() >= 1,
                    spec_case_def_list(s@, pos as int) == (match spec_case_def_list(
                        s@,
                        cur as int,
                    ) {
                        Some((rest, e)) => Some((toks_view(items@) + rest, e)),
                        None => Some((toks_view(items@), cur as int)),
                    }),
                decreases n - cur,
            {
                match case_def(s, n, cur) {
                    Some((v, p)) => {
                        proof {
                            lemma_toks_view_push(items@, v);
                        }
                        let ghost old_items = items@;
                        items.push(v);
                        proof {
                            if let Some((rest, e)) = spec_case_def_list(s@, p as int) {
                                assert(toks_view(old_items) + (seq![tok_view(&v)] + rest)
                                    =~= toks_view(items@) + rest);
                            } else {
                                assert(toks_view(old_items) + seq![tok_view(&v)] =~= toks_view(
                                    items@,
                                ));
                                assert(toks_view(old_items).push(tok_view(&v)) =~= toks_view(
                                    old_items,
                                ) + seq![tok_view(&v)]);
                            }
                        }
                        cur = p;
                    },
                    None => {
                        return Some((items, cur));
                    },
                }
            }
        },
    }
}

/// Mirror of `default_case`: `default:` and a declaration ended by `;`.
pub open spec fn spec_default_case(s: Seq<char>, pos: int) -> Option<(TokenV, int)>
    decreases s.len() - pos, 0int,
{
    let p1 = spec_sp(s, pos);
    if spec_tag(s, p1, "default:"@) {
        let p2 = spec_sp(s, p1 + 8);
        if pos < p2 <= s.len() {
            match spec_declaration(s, p2) {
                Some((d, p3)) => {
                    let p4 = spec_sp(s, p3);
                    if spec_tag(s, p4, ";"@) {
                        let p5 = spec_sp(s, p4 + 1);
                        let p6 = spec_opt_ic(s, p5);
                        let p7 = spec_sp(s, p6);
                        Some((d, p7))
                    } else {
                        None
                    }
                },
                None => None,
            }
        } else {
            None
        }
    } else {
        None
    }
}

/// Parse the optional `default:` arm of a union.
pub fn default_case(s: &str, n: usize, pos: usize) -> (r: Option<(Token, usize)>)
    requires
        n == s@.len(),
        pos <= n,
    ensures
        rel(r, spec_default_case(s@, pos as int)),
        r matches Some((t, p)) ==> pos < p <= n,
    decreases n - pos, 0int,
{
    proof {
        reveal_strlit("default:");
        reveal_strlit(";");
    }
    let p1 = skip_sp(s, n, pos);
    if match_tag(s, n, p1, "default:") {
        let p2 = skip_sp(s, n, p1 + 8);
        match declaration(s, n, p2) {
            Some((d, p3)) => {
                let p4 = skip_sp(s, n, p3);
                if match_tag(s, n, p4, ";") {
                    let p5 = skip_sp(s, n, p4 + 1);
                    let p6 = opt_inline_comment(s, n, p5);
                    let p7 = skip_sp(s, n, p6);
                    Some((d, p7))
                } else {
                    None
                }
            },
            None => None,
        }
    } else {
        None
    }
}

/// Mirror of `union_case`: one-or-more labels and their declaration.
pub open spec fn spec_union_case(s: Seq<char>, pos: int) -> Option<(TokenV, int)>
    decreases s.len() - pos, 5int,
{
    let p1 = spec_sp(s, pos);
    if pos <= p1 <= s.len() {
        match spec_case_def_list(s, p1) {
            Some((vals, p2)) => {
                let p3 = spec_sp(s, p2);
                if pos < p3 <= s.len() {
                    match spec_declaration(s, p3) {
                        Some((d, p4)) => {
                            let p5 = spec_sp(s, p4);
                            if spec_tag(s, p5, ";"@) {
                                let p6 = spec_sp(s, p5 + 1);
                                let p7 = spec_opt_ic(s, p6);
                                let p8 = spec_sp(s, p7);
                                Some((TokenV::UnionCase { vals, decl: one(d) }, p8))
                            } else {
                                None
                            }
                        },
                        None => None,
                    }
                } else {
                    None
                }
            },
            None => None,
        }
    } else {
        None
    }
}

/// Parse one union case arm.
pub fn union_case(s: &str, n: usize, pos: usize) -> (r: Option<(Token, usize)>)
    requires
        n == s@.len(),
        pos <= n,
    ensures
        rel(r, spec_union_case(s@, pos as int)),
        r matches Some((t, p)) ==> pos < p <= n,
    decreases n - pos, 5int,
{
    proof {
        reveal_strlit(";");
    }
    let p1 = skip_sp(s, n, pos);
    match case_def_list(s, n, p1) {
        Some((vals, p2)) => {
            let p3 = skip_sp(s, n, p2);
            match declaration(s, n, p3) {
                Some((d, p4)) => {
                    let p5 = skip_sp(s, n, p4);
                    if match_tag(s, n, p5, ";") {
                        let p6 = skip_sp(s, n, p5 + 1);
                        let p7 = opt_inline_comment(s, n, p6);
                        let p8 = skip_sp(s, n, p7);
                        Some((Token::UnionCase { vals, decl: Box::new(d) }, p8))
                    } else {
                        None
                    }
                },
                None => None,
            }
        },
        None => None,
    }
}

/// Mirror of `many1!(union_case)`.
pub open spec fn spec_union_cases_list(s: Seq<char>, pos: int) -> Option<(Seq<TokenV>, int)>
    decreases s.len() - pos, 6int,
{
    if 0 <= pos <= s.len() {
        match spec_union_case(s, pos) {
            Some((c, p)) => {
                if pos < p <= s.len() {
                    match spec_union_cases_list(s, p) {
                        Some((rest, e)) => Some((seq![c] + rest, e)),
                        None => Some((seq![c], p)),
                    }
                } else {
                    Some((seq![c], p))
                }
            },
            None => None,
        }
    } else {
        None
    }
}

/// Parse one-or-more union case arms.
pub fn union_cases_list(s: &str, n: usize, pos: usize) -> (r: Option<(Vec<Token>, usize)>)
    requires
        n == s@.len(),
        pos <= n,
    ensures
        match r {
            Some((cases, p)) => spec_union_cases_list(s@, pos as int) == Some(
                (toks_view(cases@), p as int),
            ) && pos < p <= n,
            None => spec_union_cases_list(s@, pos as int) is None,
        },
    decreases n - pos, 6int,
{
    match union_case(s, n, pos) {
        None => None,
        Some((c0, q0)) => {
            let mut items: Vec<Token> = Vec::new();
            proof {
                lemma_toks_view_push(items@, c0);
            }
            items.push(c0);
            let mut cur: usize = q0;
            loop
                invariant
                    n == s@.len(),
                    pos < cur <= n,
                    items@.len() >= 1,
                    spec_union_cases_list(s@, pos as int) == (match spec_union_cases_list(
                        s@,
                        cur as int,
                    ) {
                        Some((rest, e)) => Some((toks_view(items@) + rest, e)),
                        None => Some((toks_view(items@), cur as int)),
                    }),
                decreases n - cur,
            {
                match union_case(s, n, cur) {
                    Some((c, p)) => {
                        proof {
                            lemma_toks_view_push(items@, c);
                        }
                        let ghost old_items = items@;
                        items.push(c);
                        proof {
                            if let Some((rest, e)) = spec_union_cases_list(s@, p as int) {
                                assert(toks_view(old_items) + (seq![tok_view(&c)] + rest)
                                    =~= toks_view(items@) + rest);
                            } else {
                                assert(toks_view(old_items).push(tok_view(&c)) =~= toks_view(
                                    old_items,
                                ) + seq![tok_view(&c)]);
                            }
                        }
                        cur = p;
                    },
                    None => {
                        return Some((items, cur));
                    },
                }
            }
        },
    }
}

/// Mirror of `union_body`: `switch ( discriminant ) { arms default? }`.
pub open spec fn spec_union_body(s: Seq<char>, pos: int) -> Option<(TokenV, int)>
    decreases s.len() - pos, 0int,
{
    if spec_tag(s, pos, "switch"@) {
        let p1 = spec_sp(s, pos + 6);
        if spec_tag(s, p1, "("@) {
            let p2 = spec_sp(s, p1 + 1);
            if pos < p2 <= s.len() {
                match spec_declaration(s, p2) {
                    Some((d, p3)) => {
                        let p4 = spec_sp(s, p3);
                        if spec_tag(s, p4, ")"@) {
                            let p5 = spec_sp(s, p4 + 1);
                            if spec_tag(s, p5, "{"@) {
                                let p6 = p5 + 1;
                                if pos < p6 <= s.len() {
                                    match spec_union_cases_list(s, p6) {
                                        Some((cases, p7)) => {
                                            let p8 = spec_sp(s, p7);
                                            if pos < p8 <= s.len() {
                                                let (dfl, p9) = (match spec_default_case(s, p8) {
                                                    Some((d2, q)) => (seq![d2], q),
                                                    None => (Seq::<TokenV>::empty(), p8),
                                                });
                                                let p10 = spec_sp(s, p9);
                                                if spec_tag(s, p10, "}"@) {
                                                    Some(
                                                        (
                                                            TokenV::Union {
                                                                decl: one(d),
                                                                cases,
                                                                default: dfl,
                                                            },
                                                            p10 + 1,
                                                        ),
                                                    )
                                                } else {
                                                    None
                                                }
                                            } else {
                                                None
                                            }
                                        },
                                        None => None,
                                    }
                                } else {
                                    None
                                }
                            } else {
                                None
                            }
                        } else {
                            None
                        }
                    },
                    None => None,
                }
            } else {
                None
            }
        } else {
            None
        }
    } else {
        None
    }
}

/// Parse a union body.
pub fn union_body(s: &str, n: usize, pos: usize) -> (r: Option<(Token, usize)>)
    requires
        n == s@.len(),
        pos <= n,
    ensures
        rel(r, spec_union_body(s@, pos as int)),
        r matches Some((t, p)) ==> pos < p <= n,
    decreases n - pos, 0int,
{
    proof {
        reveal_strlit("switch");
        reveal_strlit("(");
        reveal_strlit(")");
        reveal_strlit("{");
        reveal_strlit("}");
    }
    if match_tag(s, n, pos, "switch") {
        let p1 = skip_sp(s, n, pos + 6);
        if match_tag(s, n, p1, "(") {
            let p2 = skip_sp(s, n, p1 + 1);
            match declaration(s, n, p2) {
                Some((d, p3)) => {
                    let p4 = skip_sp(s, n, p3);
                    if match_tag(s, n, p4, ")") {
                        let p5 = skip_sp(s, n, p4 + 1);
                        if match_tag(s, n, p5, "{") {
                            let p6 = p5 + 1;
                            match union_cases_list(s, n, p6) {
                                Some((cases, p7)) => {
                                    let p8 = skip_sp(s, n, p7);
                                    let (dfl, p9) = (match default_case(s, n, p8) {
                                        Some((d2, q)) => (Some(d2), q),
                                        None => (None, p8),
                                    });
                                    proof {
                                        match &dfl {
                                            Some(d2) => {
                                                assert(opt_view(&dfl) == seq![tok_view(d2)]);
                                            },
                                            None => {
                                                assert(opt_view(&dfl) == Seq::<TokenV>::empty());
                                            },
                                        }
                                    }
                                    let p10 = skip_sp(s, n, p9);
                                    if match_tag(s, n, p10, "}") {
                                        let ghost dv = tok_view(&d);
                                        let ghost dflv = opt_view(&dfl);
                                        let ghost casesv = toks_view(cases@);
                                        let t = Token::Union {
                                            decl: Box::new(d),
                                            cases,
                                            default: Box::new(dfl),
                                        };
                                        proof {
                                            assert(tok_view(&t) == TokenV::Union {
                                                decl: one(dv),
                                                cases: casesv,
                                                default: dflv,
                                            });
                                        }
                                        Some((t, p10 + 1))
                                    } else {
                                        None
                                    }
                                },
                                None => None,
                            }
                        } else {
                            None
                        }
                    } else {
                        None
                    }
                },
                None => None,
            }
        } else {
            None
        }
    } else {
        None
    }
}

// ---------------------------------------------------------------------------
// Top-level definitions, programs and the whole-input rule
// ---------------------------------------------------------------------------
/// Mirror of the `typedef` alternative of `type_def`.
pub open spec fn spec_td_typedef(s: Seq<char>, pos: int) -> Option<(TokenV, int)> {
    match spec_kw(s, pos, "typedef"@) {
        Some(p1) => match spec_declaration(s, p1) {
            Some((d, p2)) => {
                let p3 = spec_sp(s, p2);
                if spec_tag(s, p3, ";"@) {
                    Some((TokenV::TypeDef(one(d)), p3 + 1))
                } else {
                    None
                }
            },
            None => None,
        },
        None => None,
    }
}

/// Mirror of the `enum` alternative of `type_def`.
pub open spec fn spec_td_enum(s: Seq<char>, pos: int) -> Option<(TokenV, int)> {
    match spec_kw(s, pos, "enum"@) {
        Some(p1) => match spec_identifier(s, p1) {
            Some((id, p2)) => match spec_sp1(s, p2) {
                Some(p3) => match spec_enum_body(s, p3) {
                    Some((kvs, p4)) => {
                        let p5 = spec_sp(s, p4);
                        if spec_tag(s, p5, ";"@) {
                            Some(
                                (
                                    TokenV::EnumDef { id: one(id), decl: one(TokenV::Enum(kvs)) },
                                    p5 + 1,
                                ),
                            )
                        } else {
                            None
                        }
                    },
                    None => None,
                },
                None => None,
            },
            None => None,
        },
        None => None,
    }
}

/// Mirror of the `union` alternative of `type_def`.
pub open spec fn spec_td_union(s: Seq<char>, pos: int) -> Option<(TokenV, int)> {
    match spec_kw(s, pos, "union"@) {
        Some(p1) => match spec_identifier(s, p1) {
            Some((id, p2)) => match spec_sp1(s, p2) {
                Some(p3) => match spec_union_body(s, p3) {
                    Some((u, p4)) => {
                        let p5 = spec_sp(s, p4);
                        if spec_tag(s, p5, ";"@) {
                            Some((TokenV::UnionDef { id: one(id), decl: one(u) }, p5 + 1))
                        } else {
                            None
                        }
                    },
                    None => None,
                },
                None => None,
            },
            None => None,
        },
        None => None,
    }
}

/// Mirror of the `struct` alternative of `type_def`.
pub open spec fn spec_td_struct(s: Seq<char>, pos: int) -> Option<(TokenV, int)> {
    match spec_kw(s, pos, "struct"@) {
        Some(p1) => match spec_identifier(s, p1) {
            Some((id, p2)) => match spec_sp1(s, p2) {
                Some(p3) => match spec_struct_body(s, p3) {
                    Some((decls, p4)) => {
                        let p5 = spec_sp(s, p4);
                        if spec_tag(s, p5, ";"@) {
                            let p6 = spec_sp(s, p5 + 1);
                            Some(
                                (
                                    TokenV::StructDef {
                                        id: one(id),
                                        decl: one(TokenV::Struct(decls)),
                                    },
                                    p6,
                                ),
                            )
                        } else {
                            None
                        }
                    },
                    None => None,
                },
                None => None,
            },
            None => None,
        },
        None => None,
    }
}

/// Mirror of `type_def`: typedef, enum, union, then struct definitions.
pub open spec fn spec_type_def(s: Seq<char>, pos: int) -> Option<(TokenV, int)> {
    if spec_td_typedef(s, pos) is Some {
        spec_td_typedef(s, pos)
    } else if spec_td_enum(s, pos) is Some {
        spec_td_enum(s, pos)
    } else if spec_td_union(s, pos) is Some {
        spec_td_union(s, pos)
    } else {
        spec_td_struct(s, pos)
    }
}

/// Parse a `typedef` definition.
fn td_typedef(s: &str, n: usize, pos: usize) -> (r: Option<(Token, usize)>)
    requires
        n == s@.len(),
        pos <= n,
    ensures
        rel(r, spec_td_typedef(s@, pos as int)),
        r matches Some((t, p)) ==> pos < p <= n,
{
    proof {
        reveal_strlit(";");
    }
    match kw_sp1(s, n, pos, "typedef") {
        Some(p1) => match declaration(s, n, p1) {
            Some((d, p2)) => {
                let p3 = skip_sp(s, n, p2);
                if match_tag(s, n, p3, ";") {
                    Some((Token::TypeDef(Box::new(d)), p3 + 1))
                } else {
                    None
                }
            },
            None => None,
        },
        None => None,
    }
}

/// Parse an `enum` definition.
fn td_enum(s: &str, n: usize, pos: usize) -> (r: Option<(Token, usize)>)
    requires
        n == s@.len(),
        pos <= n,
    ensures
        rel(r, spec_td_enum(s@, pos as int)),
        r matches Some((t, p)) ==> pos < p <= n,
{
    proof {
        reveal_strlit(";");
    }
    match kw_sp1(s, n, pos, "enum") {
        Some(p1) => match identifier(s, n, p1) {
            Some((id, p2)) => match skip_sp1(s, n, p2) {
                Some(p3) => match enum_body(s, n, p3) {
                    Some((kvs, p4)) => {
                        let p5 = skip_sp(s, n, p4);
                        if match_tag(s, n, p5, ";") {
                            let ghost idv = tok_view(&id);
                            let ghost kvsv = pairs_view(kvs@);
                            let inner = Token::Enum(kvs);
                            proof {
                                assert(tok_view(&inner) == TokenV::Enum(kvsv));
                            }
                            let t = Token::EnumDef { id: Box::new(id), decl: Box::new(inner) };
                            proof {
                                assert(tok_view(&t) == TokenV::EnumDef {
                                    id: one(idv),
                                    decl: one(TokenV::Enum(kvsv)),
                                });
                            }
                            Some((t, p5 + 1))
                        } else {
                            None
                        }
                    },
                    None => None,
                },
                None => None,
            },
            None => None,
        },
        None => None,
    }
}

/// Parse a `union` definition.
fn td_union(s: &str, n: usize, pos: usize) -> (r: Option<(Token, usize)>)
    requires
        n == s@.len(),
        pos <= n,
    ensures
        rel(r, spec_td_union(s@, pos as int)),
        r matches Some((t, p)) ==> pos < p <= n,
{
    proof {
        reveal_strlit(";");
    }
    match kw_sp1(s, n, pos, "union") {
        Some(p1) => match identifier(s, n, p1) {
            Some((id, p2)) => match skip_sp1(s, n, p2) {
                Some(p3) => match union_body(s, n, p3) {
                    Some((u, p4)) => {
                        let p5 = skip_sp(s, n, p4);
                        if match_tag(s, n, p5, ";") {
                            Some((Token::UnionDef { id: Box::new(id), decl: Box::new(u) }, p5 + 1))
                        } else {
                            None
                        }
                    },
                    None => None,
                },
                None => None,
            },
            None => None,
        },
        None => None,
    }
}

/// Parse a `struct` definition.
fn td_struct(s: &str, n: usize, pos: usize) -> (r: Option<(Token, usize)>)
    requires
        n == s@.len(),
        pos <= n,
    ensures
        rel(r, spec_td_struct(s@, pos as int)),
        r matches Some((t, p)) ==> pos < p <= n,
{
    proof {
        reveal_strlit(";");
    }
    match kw_sp1(s, n, pos, "struct") {
        Some(p1) => match identifier(s, n, p1) {
            Some((id, p2)) => match skip_sp1(s, n, p2) {
                Some(p3) => match struct_body(s, n, p3) {
                    Some((decls, p4)) => {
                        let p5 = skip_sp(s, n, p4);
                        if match_tag(s, n, p5, ";") {
                            let p6 = skip_sp(s, n, p5 + 1);
                            let ghost idv = tok_view(&id);
                            let ghost declsv = toks_view(decls@);
                            let inner = Token::Struct(decls);
                            proof {
                                assert(tok_view(&inner) == TokenV::Struct(declsv));
                            }
                            let t = Token::StructDef { id: Box::new(id), decl: Box::new(inner) };
                            proof {
                                assert(tok_view(&t) == TokenV::StructDef {
                                    id: one(idv),
                                    decl: one(TokenV::Struct(declsv)),
                                });
                            }
                            Some((t, p6))
                        } else {
                            None
                        }
                    },
                    None => None,
                },
                None => None,
            },
            None => None,
        },
        None => None,
    }
}

/// Parse a named top-level type definition.
pub fn type_def(s: &str, n: usize, pos: usize) -> (r: Option<(Token, usize)>)
    requires
        n == s@.len(),
        pos <= n,
    ensures
        rel(r, spec_type_def(s@, pos as int)),
        r matches Some((t, p)) ==> pos < p <= n,
{
    match td_typedef(s, n, pos) {
        Some(r) => {
            return Some(r);
        },
        None => {},
    }
    match td_enum(s, n, pos) {
        Some(r) => {
            return Some(r);
        },
        None => {},
    }
    match td_union(s, n, pos) {
        Some(r) => {
            return Some(r);
        },
        None => {},
    }
    td_struct(s, n, pos)
}

/// Mirror of `constant_def`: `const <ident> = <constant> ;`.
pub open spec fn spec_constant_def(s: Seq<char>, pos: int) -> Option<(TokenV, int)> {
    match spec_kw(s, pos, "const"@) {
        Some(p1) => match spec_identifier(s, p1) {
            Some((_id, p2)) => {
                let p3 = spec_sp(s, p2);
                if spec_tag(s, p3, "="@) {
                    let p4 = spec_sp(s, p3 + 1);
                    match spec_constant(s, p4) {
                        Some((c, p5)) => {
                            let p6 = spec_sp(s, p5);
                            if spec_tag(s, p6, ";"@) {
                                let p7 = spec_opt_ic(s, p6 + 1);
                                Some((TokenV::ConstantDef(one(c)), p7))
                            } else {
                                None
                            }
                        },
                        None => None,
                    }
                } else {
                    None
                }
            },
            None => None,
        },
        None => None,
    }
}

/// Parse a `const` definition; only its value is kept.
pub fn constant_def(s: &str, n: usize, pos: usize) -> (r: Option<(Token, usize)>)
    requires
        n == s@.len(),
        pos <= n,
    ensures
        rel(r, spec_constant_def(s@, pos as int)),
        r matches Some((t, p)) ==> pos < p <= n,
{
    proof {
        reveal_strlit("=");
        reveal_strlit(";");
    }
    match kw_sp1(s, n, pos, "const") {
        Some(p1) => match identifier(s, n, p1) {
            Some((_id, p2)) => {
                let p3 = skip_sp(s, n, p2);
                if match_tag(s, n, p3, "=") {
                    let p4 = skip_sp(s, n, p3 + 1);
                    match constant(s, n, p4) {
                        Some((c, p5)) => {
                            let p6 = skip_sp(s, n, p5);
                            if match_tag(s, n, p6, ";") {
                                let p7 = opt_inline_comment(s, n, p6 + 1);
                                Some((Token::ConstantDef(Box::new(c)), p7))
                            } else {
                                None
                            }
                        },
                        None => None,
                    }
                } else {
                    None
                }
            },
            None => None,
        },
        None => None,
    }
}

/// Mirror of `definition`: a type definition, else a constant definition.
pub open spec fn spec_definition(s: Seq<char>, pos: int) -> Option<(TokenV, int)> {
    if spec_type_def(s, pos) is Some {
        spec_type_def(s, pos)
    } else {
        spec_constant_def(s, pos)
    }
}

/// Parse one top-level definition.
pub fn definition(s: &str, n: usize, pos: usize) -> (r: Option<(Token, usize)>)
    requires
        n == s@.len(),
        pos <= n,
    ensures
        rel(r, spec_definition(s@, pos as int)),
        r matches Some((t, p)) ==> pos < p <= n,
{
    match type_def(s, n, pos) {
        Some(r) => Some(r),
        None => constant_def(s, n, pos),
    }
}

/// Mirror of `numeric_id`: `= <constant> ;`.
pub open spec fn spec_numeric_id(s: Seq<char>, pos: int) -> Option<(TokenV, int)> {
    if spec_tag(s, pos, "="@) {
        let p1 = spec_sp(s, pos + 1);
        match spec_constant(s, p1) {
            Some((c, p2)) => {
                let p3 = spec_sp(s, p2);
                if spec_tag(s, p3, ";"@) {
                    Some((c, p3 + 1))
                } else {
                    None
                }
            },
            None => None,
        }
    } else {
        None
    }
}

/// Parse the `= <number> ;` registration id suffix.
pub fn numeric_id(s: &str, n: usize, pos: usize) -> (r: Option<(Token, usize)>)
    requires
        n == s@.len(),
        pos <= n,
    ensures
        rel(r, spec_numeric_id(s@, pos as int)),
        r matches Some((t, p)) ==> pos < p <= n,
{
    proof {
        reveal_strlit("=");
        reveal_strlit(";");
    }
    if match_tag(s, n, pos, "=") {
        let p1 = skip_sp(s, n, pos + 1);
        match constant(s, n, p1) {
            Some((c, p2)) => {
                let p3 = skip_sp(s, n, p2);
                if match_tag(s, n, p3, ";") {
                    Some((c, p3 + 1))
                } else {
                    None
                }
            },
            None => None,
        }
    } else {
        None
    }
}

/// Mirror of `proc_type`: `void`, else a type specifier, each with an
/// optional trailing comma.
pub open spec fn spec_proc_type(s: Seq<char>, pos: int) -> Option<(TokenV, int)> {
    let p1 = spec_sp(s, pos);
    if spec_tag(s, p1, "void"@) {
        let p2 = p1 + 4;
        let p3 = if spec_tag(s, p2, ","@) {
            p2 + 1
        } else {
            p2
        };
        Some((TokenV::VoidDecl, p3))
    } else {
        match spec_type_specifier(s, p1) {
            Some((ty, p2)) => {
                let p3 = if spec_tag(s, p2, ","@) {
                    p2 + 1
                } else {
                    p2
                };
                Some((ty, p3))
            },
            None => None,
        }
    }
}

/// Parse one procedure argument or return type.
pub fn proc_type(s: &str, n: usize, pos: usize) -> (r: Option<(Token, usize)>)
    requires
        n == s@.len(),
        pos <= n,
    ensures
        rel(r, spec_proc_type(s@, pos as int)),
        r matches Some((t, p)) ==> pos < p <= n,
{
    proof {
        reveal_strlit("void");
        reveal_strlit(",");
    }
    let p1 = skip_sp(s, n, pos);
    if match_tag(s, n, p1, "void") {
        let p2 = p1 + 4;
        let p3 = if match_tag(s, n, p2, ",") {
            p2 + 1
        } else {
            p2
        };
        Some((Token::VoidDecl, p3))
    } else {
        match type_specifier(s, n, p1) {
            Some((ty, p2)) => {
                let p3 = if match_tag(s, n, p2, ",") {
                    p2 + 1
                } else {
                    p2
                };
                Some((ty, p3))
            },
            None => None,
        }
    }
}

/// Mirror of `many1!(proc_type)`.
pub open spec fn spec_proc_type_list(s: Seq<char>, pos: int) -> Option<(Seq<TokenV>, int)>
    decreases s.len() - pos,
{
    match spec_proc_type(s, pos) {
        Some((t, p)) => {
            if pos < p <= s.len() {
                match spec_proc_type_list(s, p) {
                    Some((rest, e)) => Some((seq![t] + rest, e)),
                    None => Some((seq![t], p)),
                }
            } else {
                Some((seq![t], p))
            }
        },
        None => None,
    }
}

/// Parse one-or-more procedure argument types.
pub fn proc_type_list(s: &str, n: usize, pos: usize) -> (r: Option<(Vec<Token>, usize)>)
    requires
        n == s@.len(),
        pos <= n,
    ensures
        match r {
            Some((args, p)) => spec_proc_type_list(s@, pos as int) == Some(
                (toks_view(args@), p as int),
            ) && pos < p <= n,
            None => spec_proc_type_list(s@, pos as int) is None,
        },
{
    match proc_type(s, n, pos) {
        None => None,
        Some((t0, q0)) => {
            let mut items: Vec<Token> = Vec::new();
            proof {
                lemma_toks_view_push(items@, t0);
            }
            items.push(t0);
            let mut cur: usize = q0;
            loop
                invariant
                    n == s@.len(),
                    pos < cur <= n,
                    spec_proc_type_list(s@, pos as int) == (match spec_proc_type_list(
                        s@,
                        cur as int,
                    ) {
                        Some((rest, e)) => Some((toks_view(items@) + rest, e)),
                        None => Some((toks_view(items@), cur as int)),
                    }),
                decreases n - cur,
            {
                match proc_type(s, n, cur) {
                    Some((t, p)) => {
                        proof {
                            lemma_toks_view_push(items@, t);
                        }
                        let ghost old_items = items@;
                        items.push(t);
                        proof {
                            if let Some((rest, e)) = spec_proc_type_list(s@, p as int) {
                                assert(toks_view(old_items) + (seq![tok_view(&t)] + rest)
                                    =~= toks_view(items@) + rest);
                            } else {
                                assert(toks_view(old_items).push(tok_view(&t)) =~= toks_view(
                                    old_items,
                                ) + seq![tok_view(&t)]);
                            }
                        }
                        cur = p;
                    },
                    None => {
                        return Some((items, cur));
                    },
                }
            }
        },
    }
}

/// Mirror of `rpc_proc`: return type, name, argument list and id.
pub open spec fn spec_rpc_proc(s: Seq<char>, pos: int) -> Option<(TokenV, int)> {
    match spec_proc_type(s, pos) {
        Some((rt, p1)) => match spec_sp1(s, p1) {
            Some(p2) => match spec_identifier(s, p2) {
                Some((name, p3)) => {
                    let p4 = spec_sp(s, p3);
                    if spec_tag(s, p4, "("@) {
                        let p5 = spec_sp(s, p4 + 1);
                        match spec_proc_type_list(s, p5) {
                            Some((args, p6)) => {
                                let p7 = spec_sp(s, p6);
                                if spec_tag(s, p7, ")"@) {
                                    let p8 = spec_sp(s, p7 + 1);
                                    match spec_numeric_id(s, p8) {
                                        Some((id, p9)) => {
                                            let p10 = spec_sp(s, p9);
                                            Some(
                                                (
                                                    TokenV::Proc {
                                                        return_type: one(rt),
                                                        name: one(name),
                                                        arg_types: args,
                                                        id: one(id),
                                                    },
                                                    p10,
                                                ),
                                            )
                                        },
                                        None => None,
                                    }
                                } else {
                                    None
                                }
                            },
                            None => None,
                        }
                    } else {
                        None
                    }
                },
                None => None,
            },
            None => None,
        },
        None => None,
    }
}

/// Parse one procedure declaration.
pub fn rpc_proc(s: &str, n: usize, pos: usize) -> (r: Option<(Token, usize)>)
    requires
        n == s@.len(),
        pos <= n,
    ensures
        rel(r, spec_rpc_proc(s@, pos as int)),
        r matches Some((t, p)) ==> pos < p <= n,
{
    proof {
        reveal_strlit("(");
        reveal_strlit(")");
    }
    match proc_type(s, n, pos) {
        Some((rt, p1)) => match skip_sp1(s, n, p1) {
            Some(p2) => match identifier(s, n, p2) {
                Some((name, p3)) => {
                    let p4 = skip_sp(s, n, p3);
                    if match_tag(s, n, p4, "(") {
                        let p5 = skip_sp(s, n, p4 + 1);
                        match proc_type_list(s, n, p5) {
                            Some((args, p6)) => {
                                let p7 = skip_sp(s, n, p6);
                                if match_tag(s, n, p7, ")") {
                                    let p8 = skip_sp(s, n, p7 + 1);
                                    match numeric_id(s, n, p8) {
                                        Some((id, p9)) => {
                                            let p10 = skip_sp(s, n, p9);
                                            let ghost rtv = tok_view(&rt);
                                            let ghost namev = tok_view(&name);
                                            let ghost argsv = toks_view(args@);
                                            let ghost idv = tok_view(&id);
                                            let t = Token::Proc {
                                                return_type: Box::new(rt),
                                                name: Box::new(name),
                                                arg_types: args,
                                                id: Box::new(id),
                                            };
                                            proof {
                                                assert(tok_view(&t) == TokenV::Proc {
                                                    return_type: one(rtv),
                                                    name: one(namev),
                                                    arg_types: argsv,
                                                    id: one(idv),
                                                });
                                            }
                                            Some((t, p10))
                                        },
                                        None => None,
                                    }
                                } else {
                                    None
                                }
                            },
                            None => None,
                        }
                    } else {
                        None
                    }
                },
                None => None,
            },
            None => None,
        },
        None => None,
    }
}

/// Mirror of `many0!(rpc_proc)`.
pub open spec fn spec_rpc_proc_list(s: Seq<char>, pos: int) -> (Seq<TokenV>, int)
    decreases s.len() - pos,
{
    match spec_rpc_proc(s, pos) {
        Some((t, p)) => {
            if pos < p <= s.len() {
                let (rest, e) = spec_rpc_proc_list(s, p);
                (seq![t] + rest, e)
            } else {
                (Seq::empty(), pos)
            }
        },
        None => (Seq::empty(), pos),
    }
}

/// Parse zero-or-more procedure declarations.
pub fn rpc_proc_list(s: &str, n: usize, pos: usize) -> (r: (Vec<Token>, usize))
    requires
        n == s@.len(),
        pos <= n,
    ensures
        spec_rpc_proc_list(s@, pos as int) == (toks_view(r.0@), r.1 as int),
        pos <= r.1 <= n,
{
    let mut items: Vec<Token> = Vec::new();
    let mut cur: usize = pos;
    loop
        invariant
            n == s@.len(),
            pos <= cur <= n,
            spec_rpc_proc_list(s@, pos as int) == {
                let (rest, e) = spec_rpc_proc_list(s@, cur as int);
                (toks_view(items@) + rest, e)
            },
        decreases n - cur,
    {
        match rpc_proc(s, n, cur) {
            Some((t, p)) => {
                proof {
                    lemma_toks_view_push(items@, t);
                }
                let ghost old_items = items@;
                items.push(t);
                proof {
                    let (rest, e) = spec_rpc_proc_list(s@, p as int);
                    assert(toks_view(old_items) + (seq![tok_view(&t)] + rest) =~= toks_view(items@)
                        + rest);
                }
                cur = p;
            },
            None => {
                proof {
                    assert(toks_view(items@) + Seq::<TokenV>::empty() =~= toks_view(items@));
                }
                return (items, cur);
            },
        }
    }
}

/// Mirror of `version`: a named, numbered block of procedures.
pub open spec fn spec_version(s: Seq<char>, pos: int) -> Option<(TokenV, int)> {
    match spec_kw(s, pos, "version"@) {
        Some(p1) => match spec_identifier(s, p1) {
            Some((name, p2)) => {
                let p3 = spec_sp(s, p2);
                if spec_tag(s, p3, "{"@) {
                    let p4 = spec_sp(s, p3 + 1);
                    if p4 <= s.len() {
                        let (procs, p5) = spec_rpc_proc_list(s, p4);
                        let p6 = spec_sp(s, p5);
                        if spec_tag(s, p6, "}"@) {
                            let p7 = spec_sp(s, p6 + 1);
                            match spec_numeric_id(s, p7) {
                                Some((id, p8)) => {
                                    let p9 = spec_sp(s, p8);
                                    Some(
                                        (
                                            TokenV::Version {
                                                name: one(name),
                                                id: one(id),
                                                procs,
                                            },
                                            p9,
                                        ),
                                    )
                                },
                                None => None,
                            }
                        } else {
                            None
                        }
                    } else {
                        None
                    }
                } else {
                    None
                }
            },
            None => None,
        },
        None => None,
    }
}

/// Parse one `version` block.
pub fn version(s: &str, n: usize, pos: usize) -> (r: Option<(Token, usize)>)
    requires
        n == s@.len(),
        pos <= n,
    ensures
        rel(r, spec_version(s@, pos as int)),
        r matches Some((t, p)) ==> pos < p <= n,
{
    proof {
        reveal_strlit("{");
        reveal_strlit("}");
    }
    match kw_sp1(s, n, pos, "version") {
        Some(p1) => match identifier(s, n, p1) {
            Some((name, p2)) => {
                let p3 = skip_sp(s, n, p2);
                if match_tag(s, n, p3, "{") {
                    let p4 = skip_sp(s, n, p3 + 1);
                    let (procs, p5) = rpc_proc_list(s, n, p4);
                    let p6 = skip_sp(s, n, p5);
                    if match_tag(s, n, p6, "}") {
                        let p7 = skip_sp(s, n, p6 + 1);
                        match numeric_id(s, n, p7) {
                            Some((id, p8)) => {
                                let p9 = skip_sp(s, n, p8);
                                let ghost namev = tok_view(&name);
                                let ghost idv = tok_view(&id);
                                let ghost procsv = toks_view(procs@);
                                let t = Token::Version {
                                    name: Box::new(name),
                                    id: Box::new(id),
                                    procs,
                                };
                                proof {
                                    assert(tok_view(&t) == TokenV::Version {
                                        name: one(namev),
                                        id: one(idv),
                                        procs: procsv,
                                    });
                                }
                                Some((t, p9))
                            },
                            None => None,
                        }
                    } else {
                        None
                    }
                } else {
                    None
                }
            },
            None => None,
        },
        None => None,
    }
}

/// Mirror of `many0!(version)`.
pub open spec fn spec_version_list(s: Seq<char>, pos: int) -> (Seq<TokenV>, int)
    decreases s.len() - pos,
{
    match spec_version(s, pos) {
        Some((t, p)) => {
            if pos < p <= s.len() {
                let (rest, e) = spec_version_list(s, p);
                (seq![t] + rest, e)
            } else {
                (Seq::empty(), pos)
            }
        },
        None => (Seq::empty(), pos),
    }
}

/// Parse zero-or-more `version` blocks.
pub fn version_list(s: &str, n: usize, pos: usize) -> (r: (Vec<Token>, usize))
    requires
        n == s@.len(),
        pos <= n,
    ensures
        spec_version_list(s@, pos as int) == (toks_view(r.0@), r.1 as int),
        pos <= r.1 <= n,
{
    let mut items: Vec<Token> = Vec::new();
    let mut cur: usize = pos;
    loop
        invariant
            n == s@.len(),
            pos <= cur <= n,
            spec_version_list(s@, pos as int) == {
                let (rest, e) = spec_version_list(s@, cur as int);
                (toks_view(items@) + rest, e)
            },
        decreases n - cur,
    {
        match version(s, n, cur) {
            Some((t, p)) => {
                proof {
                    lemma_toks_view_push(items@, t);
                }
                let ghost old_items = items@;
                items.push(t);
                proof {
                    let (rest, e) = spec_version_list(s@, p as int);
                    assert(toks_view(old_items) + (seq![tok_view(&t)] + rest) =~= toks_view(items@)
                        + rest);
                }
                cur = p;
            },
            None => {
                proof {
                    assert(toks_view(items@) + Seq::<TokenV>::empty() =~= toks_view(items@));
                }
                return (items, cur);
            },
        }
    }
}

/// Mirror of `program`: a named, numbered block of versions. The grammar
/// requires whitespace after the closing id.
pub open spec fn spec_program(s: Seq<char>, pos: int) -> Option<(TokenV, int)> {
    match spec_kw(s, pos, "program"@) {
        Some(p1) => match spec_identifier(s, p1) {
            Some((name, p2)) => {
                let p3 = spec_sp(s, p2);
                if spec_tag(s, p3, "{"@) {
                    let p4 = spec_sp(s, p3 + 1);
                    if p4 <= s.len() {
                        let (versions, p5) = spec_version_list(s, p4);
                        let p6 = spec_sp(s, p5);
                        if spec_tag(s, p6, "}"@) {
                            let p7 = spec_sp(s, p6 + 1);
                            match spec_numeric_id(s, p7) {
                                Some((id, p8)) => match spec_sp1(s, p8) {
                                    Some(p9) => Some(
                                        (
                                            TokenV::Program {
                                                name: one(name),
                                                id: one(id),
                                                versions,
                                            },
                                            p9,
                                        ),
                                    ),
                                    None => None,
                                },
                                None => None,
                            }
                        } else {
                            None
                        }
                    } else {
                        None
                    }
                } else {
                    None
                }
            },
            None => None,
        },
        None => None,
    }
}

/// Parse one `program` block.
pub fn program(s: &str, n: usize, pos: usize) -> (r: Option<(Token, usize)>)
    requires
        n == s@.len(),
        pos <= n,
    ensures
        rel(r, spec_program(s@, pos as int)),
        r matches Some((t, p)) ==> pos < p <= n,
{
    proof {
        reveal_strlit("{");
        reveal_strlit("}");
    }
    match kw_sp1(s, n, pos, "program") {
        Some(p1) => match identifier(s, n, p1) {
            Some((name, p2)) => {
                let p3 = skip_sp(s, n, p2);
                if match_tag(s, n, p3, "{") {
                    let p4 = skip_sp(s, n, p3 + 1);
                    let (versions, p5) = version_list(s, n, p4);
                    let p6 = skip_sp(s, n, p5);
                    if match_tag(s, n, p6, "}") {
                        let p7 = skip_sp(s, n, p6 + 1);
                        match numeric_id(s, n, p7) {
                            Some((id, p8)) => match skip_sp1(s, n, p8) {
                                Some(p9) => {
                                    let ghost namev = tok_view(&name);
                                    let ghost idv = tok_view(&id);
                                    let ghost versionsv = toks_view(versions@);
                                    let t = Token::Program {
                                        name: Box::new(name),
                                        id: Box::new(id),
                                        versions,
                                    };
                                    proof {
                                        assert(tok_view(&t) == TokenV::Program {
                                            name: one(namev),
                                            id: one(idv),
                                            versions: versionsv,
                                        });
                                    }
                                    Some((t, p9))
                                },
                                None => None,
                            },
                            None => None,
                        }
                    } else {
                        None
                    }
                } else {
                    None
                }
            },
            None => None,
        },
        None => None,
    }
}

/// Mirror of `many0!(program)`.
pub open spec fn spec_program_list(s: Seq<char>, pos: int) -> (Seq<TokenV>, int)
    decreases s.len() - pos,
{
    match spec_program(s, pos) {
        Some((t, p)) => {
            if pos < p <= s.len() {
                let (rest, e) = spec_program_list(s, p);
                (seq![t] + rest, e)
            } else {
                (Seq::empty(), pos)
            }
        },
        None => (Seq::empty(), pos),
    }
}

/// Parse zero-or-more `program` blocks.
pub fn program_list(s: &str, n: usize, pos: usize) -> (r: (Vec<Token>, usize))
    requires
        n == s@.len(),
        pos <= n,
    ensures
        spec_program_list(s@, pos as int) == (toks_view(r.0@), r.1 as int),
        pos <= r.1 <= n,
{
    let mut items: Vec<Token> = Vec::new();
    let mut cur: usize = pos;
    loop
        invariant
            n == s@.len(),
            pos <= cur <= n,
            spec_program_list(s@, pos as int) == {
                let (rest, e) = spec_program_list(s@, cur as int);
                (toks_view(items@) + rest, e)
            },
        decreases n - cur,
    {
        match program(s, n, cur) {
            Some((t, p)) => {
                proof {
                    lemma_toks_view_push(items@, t);
                }
                let ghost old_items = items@;
                items.push(t);
                proof {
                    let (rest, e) = spec_program_list(s@, p as int);
                    assert(toks_view(old_items) + (seq![tok_view(&t)] + rest) =~= toks_view(items@)
                        + rest);
                }
                cur = p;
            },
            None => {
                proof {
                    assert(toks_view(items@) + Seq::<TokenV>::empty() =~= toks_view(items@));
                }
                return (items, cur);
            },
        }
    }
}

/// Mirror of `namespace`: a named group of programs.
pub open spec fn spec_namespace(s: Seq<char>, pos: int) -> Option<(TokenV, int)> {
    match spec_kw(s, pos, "namespace"@) {
        Some(p1) => match spec_identifier(s, p1) {
            Some((name, p2)) => {
                let p3 = spec_sp(s, p2);
                if spec_tag(s, p3, "{"@) {
                    let p4 = spec_sp(s, p3 + 1);
                    if p4 <= s.len() {
                        let (progs, p5) = spec_program_list(s, p4);
                        let p6 = spec_sp(s, p5);
                        if spec_tag(s, p6, "}"@) {
                            let p7 = spec_sp(s, p6 + 1);
                            if spec_tag(s, p7, ";"@) {
                                let p8 = spec_sp(s, p7 + 1);
                                Some((TokenV::Namespace { name: one(name), progs }, p8))
                            } else {
                                None
                            }
                        } else {
                            None
                        }
                    } else {
                        None
                    }
                } else {
                    None
                }
            },
            None => None,
        },
        None => None,
    }
}

/// Parse one `namespace` block.
pub fn namespace(s: &str, n: usize, pos: usize) -> (r: Option<(Token, usize)>)
    requires
        n == s@.len(),
        pos <= n,
    ensures
        rel(r, spec_namespace(s@, pos as int)),
        r matches Some((t, p)) ==> pos < p <= n,
{
    proof {
        reveal_strlit("{");
        reveal_strlit("}");
        reveal_strlit(";");
    }
    match kw_sp1(s, n, pos, "namespace") {
        Some(p1) => match identifier(s, n, p1) {
            Some((name, p2)) => {
                let p3 = skip_sp(s, n, p2);
                if match_tag(s, n, p3, "{") {
                    let p4 = skip_sp(s, n, p3 + 1);
                    let (progs, p5) = program_list(s, n, p4);
                    let p6 = skip_sp(s, n, p5);
                    if match_tag(s, n, p6, "}") {
                        let p7 = skip_sp(s, n, p6 + 1);
                        if match_tag(s, n, p7, ";") {
                            let p8 = skip_sp(s, n, p7 + 1);
                            let ghost namev = tok_view(&name);
                            let ghost progsv = toks_view(progs@);
                            let t = Token::Namespace { name: Box::new(name), progs };
                            proof {
                                assert(tok_view(&t) == TokenV::Namespace {
                                    name: one(namev),
                                    progs: progsv,
                                });
                            }
                            Some((t, p8))
                        } else {
                            None
                        }
                    } else {
                        None
                    }
                } else {
                    None
                }
            },
            None => None,
        },
        None => None,
    }
}

/// Mirror of `expression`: the ordered top-level alternatives.
pub open spec fn spec_expression(s: Seq<char>, pos: int) -> Option<(TokenV, int)> {
    if spec_definition(s, pos) is Some {
        spec_definition(s, pos)
    } else if spec_comment(s, pos) is Some {
        spec_comment(s, pos)
    } else if spec_code_snippet(s, pos) is Some {
        spec_code_snippet(s, pos)
    } else if spec_blank(s, pos) is Some {
        spec_blank(s, pos)
    } else if spec_namespace(s, pos) is Some {
        spec_namespace(s, pos)
    } else {
        spec_program(s, pos)
    }
}

/// Parse one top-level node.
pub fn expression(s: &str, n: usize, pos: usize) -> (r: Option<(Token, usize)>)
    requires
        n == s@.len(),
        pos <= n,
    ensures
        rel(r, spec_expression(s@, pos as int)),
        r matches Some((t, p)) ==> pos < p <= n,
{
    match definition(s, n, pos) {
        Some(r) => {
            return Some(r);
        },
        None => {},
    }
    match comment(s, n, pos) {
        Some(r) => {
            return Some(r);
        },
        None => {},
    }
    match code_snippet(s, n, pos) {
        Some(r) => {
            return Some(r);
        },
        None => {},
    }
    match blank(s, n, pos) {
        Some(r) => {
            return Some(r);
        },
        None => {},
    }
    match namespace(s, n, pos) {
        Some(r) => {
            return Some(r);
        },
        None => {},
    }
    program(s, n, pos)
}

/// Mirror of `tokenize`: the greedy sequence of top-level nodes and the
/// position where the grammar first fails to advance.
pub open spec fn spec_tokenize(s: Seq<char>, pos: int) -> (Seq<TokenV>, int)
    decreases s.len() - pos,
{
    match spec_expression(s, pos) {
        Some((t, p)) => {
            if pos < p <= s.len() {
                let (rest, e) = spec_tokenize(s, p);
                (seq![t] + rest, e)
            } else {
                (Seq::empty(), pos)
            }
        },
        None => (Seq::empty(), pos),
    }
}

/// Parse as many top-level nodes as the grammar matches.
pub fn tokenize(s: &str, n: usize, pos: usize) -> (r: (Vec<Token>, usize))
    requires
        n == s@.len(),
        pos <= n,
    ensures
        spec_tokenize(s@, pos as int) == (toks_view(r.0@), r.1 as int),
        pos <= r.1 <= n,
{
    let mut items: Vec<Token> = Vec::new();
    let mut cur: usize = pos;
    loop
        invariant
            n == s@.len(),
            pos <= cur <= n,
            spec_tokenize(s@, pos as int) == {
                let (rest, e) = spec_tokenize(s@, cur as int);
                (toks_view(items@) + rest, e)
            },
        decreases n - cur,
    {
        match expression(s, n, cur) {
            Some((t, p)) => {
                proof {
                    lemma_toks_view_push(items@, t);
                }
                let ghost old_items = items@;
                items.push(t);
                proof {
                    let (rest, e) = spec_tokenize(s@, p as int);
                    assert(toks_view(old_items) + (seq![tok_view(&t)] + rest) =~= toks_view(items@)
                        + rest);
                }
                cur = p;
            },
            None => {
                proof {
                    assert(toks_view(items@) + Seq::<TokenV>::empty() =~= toks_view(items@));
                }
                return (items, cur);
            },
        }
    }
}

/// The token stream of a whole source text: defined exactly when the grammar
/// consumes every character.
pub open spec fn spec_parse(s: Seq<char>) -> Option<Seq<TokenV>> {
    let (toks, e) = spec_tokenize(s, 0);
    if e == s.len() {
        Some(toks)
    } else {
        None
    }
}

/// Parse a whole schema text into its token stream. Returns `None` exactly
/// when some prefix of the input fails to match the grammar before the end
/// of the text is reached.
pub fn parse(s: &str) -> (r: Option<Vec<Token>>)
    ensures
        match r {
            Some(toks) => spec_parse(s@) == Some(toks_view(toks@)),
            None => spec_parse(s@) is None,
        },
{
    let n = s.unicode_len();
    let (toks, e) = tokenize(s, n, 0);
    if e == n {
        Some(toks)
    } else {
        None
    }
}

} // verus!

