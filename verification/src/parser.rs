//! The recursive-descent parser for the `<supports-condition>` grammar.
//!
//! The parser works on a cursor over characters, with a fixed exclusive end
//! bound standing for the extent of the enclosing block. It enforces the
//! grammar's operator-mixing rule (the first `and`/`or` keyword whose operand
//! parses fixes the operator for the whole list; a conflicting keyword stops
//! the list without being consumed) and its verbatim-fallback policy (a
//! token-balanced, error-free block that matches no known sub-grammar is
//! preserved as an unknown condition rather than rejected).
//!
//! Each parsing function's contract ties its result to a spec-level parse
//! function over the input model, in both directions: it succeeds with
//! exactly the spec's result, and fails exactly where the spec yields
//! nothing.
//!
//! The token model is a subset of CSS tokenization sufficient for this
//! grammar: identifiers, functions, parenthesis/bracket/brace blocks, colons,
//! whitespace and quoted strings with backslash escapes. An unterminated
//! block or string, a string broken by a newline, and a mismatched closing
//! bracket are the error tokens: they make the enclosing parse fail.

use vstd::prelude::*;
use crate::condition::{Cond, PropertyId, SupportsCondition, wf_cond, views_of};
use crate::vendor_prefix::VendorPrefixSet;

verus! {

/// A syntax error, with the position at which it was raised.
#[derive(PartialEq, Eq, Structural, Clone, Copy, Debug)]
pub struct ParseError {
    pub pos: usize,
}

pub open spec fn is_ws_spec(c: char) -> bool {
    c == ' ' || c == '\t' || c == '\n' || c == '\r' || c == '\u{0c}'
}

pub open spec fn is_alpha_spec(c: char) -> bool {
    ('a' <= c && c <= 'z') || ('A' <= c && c <= 'Z')
}

pub open spec fn is_digit_spec(c: char) -> bool {
    '0' <= c && c <= '9'
}

/// A character that may continue an identifier.
pub open spec fn is_ident_char_spec(c: char) -> bool {
    is_alpha_spec(c) || is_digit_spec(c) || c == '-' || c == '_'
}

/// A character that may start an identifier.
pub open spec fn is_ident_start_spec(c: char) -> bool {
    is_alpha_spec(c) || c == '-' || c == '_'
}

fn is_ws(c: char) -> (r: bool)
    ensures
        r == is_ws_spec(c),
{
    c == ' ' || c == '\t' || c == '\n' || c == '\r' || c == '\u{0c}'
}

fn is_ident_char(c: char) -> (r: bool)
    ensures
        r == is_ident_char_spec(c),
{
    ('a' <= c && c <= 'z') || ('A' <= c && c <= 'Z') || ('0' <= c && c <= '9') || c == '-' || c
        == '_'
}

fn is_ident_start(c: char) -> (r: bool)
    ensures
        r == is_ident_start_spec(c),
{
    ('a' <= c && c <= 'z') || ('A' <= c && c <= 'Z') || c == '-' || c == '_'
}

/// The position of the first non-whitespace character at or after `pos`.
pub open spec fn ws_end(s: Seq<char>, pos: int, end: int) -> int
    decreases end - pos,
{
    if pos >= end {
        end
    } else if is_ws_spec(s[pos]) {
        ws_end(s, pos + 1, end)
    } else {
        pos
    }
}

/// The position one past the run of identifier characters at `pos`.
pub open spec fn ident_end(s: Seq<char>, pos: int, end: int) -> int
    decreases end - pos,
{
    if pos >= end {
        end
    } else if is_ident_char_spec(s[pos]) {
        ident_end(s, pos + 1, end)
    } else {
        pos
    }
}

/// Advances past whitespace.
pub fn skip_ws(input: &Vec<char>, pos: usize, end: usize) -> (r: usize)
    requires
        pos <= end <= input@.len(),
    ensures
        pos <= r <= end,
        r == ws_end(input@, pos as int, end as int),
        forall|j: int| pos <= j < r ==> is_ws_spec(input@[j]),
        r < end ==> !is_ws_spec(input@[r as int]),
{
    let mut i = pos;
    while i < end
        invariant
            pos <= i <= end,
            end <= input@.len(),
            ws_end(input@, pos as int, end as int) == ws_end(input@, i as int, end as int),
            forall|j: int| pos <= j < i ==> is_ws_spec(input@[j]),
        decreases end - i,
    {
        if !is_ws(input[i]) {
            return i;
        }
        i = i + 1;
    }
    i
}

/// Reads a maximal identifier run starting at `pos`; returns the index one
/// past its last character.
pub fn read_ident(input: &Vec<char>, pos: usize, end: usize) -> (r: Option<usize>)
    requires
        pos <= end <= input@.len(),
    ensures
        match r {
            Some(e) => pos < e <= end && is_ident_start_spec(input@[pos as int]) && e == ident_end(
                input@,
                pos as int,
                end as int,
            ) && (forall|j: int| pos <= j < e ==> is_ident_char_spec(input@[j])) && (e < end
                ==> !is_ident_char_spec(input@[e as int])),
            None => pos == end || !is_ident_start_spec(input@[pos as int]),
        },
{
    if pos == end || !is_ident_start(input[pos]) {
        return None;
    }
    let mut i = pos + 1;
    while i < end && is_ident_char(input[i])
        invariant
            pos < i <= end,
            end <= input@.len(),
            ident_end(input@, pos as int, end as int) == ident_end(input@, i as int, end as int),
            forall|j: int| pos < j < i ==> is_ident_char_spec(input@[j]),
        decreases end - i,
    {
        i = i + 1;
    }
    Some(i)
}

/// Copies the characters of the range `[a, b)`.
pub fn slice_chars(input: &Vec<char>, a: usize, b: usize) -> (r: Vec<char>)
    requires
        a <= b <= input@.len(),
    ensures
        r@ == input@.subrange(a as int, b as int),
{
    let mut out: Vec<char> = Vec::new();
    let mut i = a;
    while i < b
        invariant
            a <= i <= b <= input@.len(),
            out@ == input@.subrange(a as int, i as int),
        decreases b - i,
    {
        out.push(input[i]);
        i = i + 1;
        proof {
            assert(out@ =~= input@.subrange(a as int, i as int));
        }
    }
    out
}

/// The keyword `not`, ASCII case-insensitively.
pub open spec fn kw_not_spec(s: Seq<char>) -> bool {
    s.len() == 3 && (s[0] == 'n' || s[0] == 'N') && (s[1] == 'o' || s[1] == 'O') && (s[2] == 't'
        || s[2] == 'T')
}

/// The keyword `and`, ASCII case-insensitively.
pub open spec fn kw_and_spec(s: Seq<char>) -> bool {
    s.len() == 3 && (s[0] == 'a' || s[0] == 'A') && (s[1] == 'n' || s[1] == 'N') && (s[2] == 'd'
        || s[2] == 'D')
}

/// The keyword `or`, ASCII case-insensitively.
pub open spec fn kw_or_spec(s: Seq<char>) -> bool {
    s.len() == 2 && (s[0] == 'o' || s[0] == 'O') && (s[1] == 'r' || s[1] == 'R')
}

/// The keyword `selector`, ASCII case-insensitively.
pub open spec fn kw_selector_spec(s: Seq<char>) -> bool {
    s.len() == 8 && (s[0] == 's' || s[0] == 'S') && (s[1] == 'e' || s[1] == 'E') && (s[2] == 'l'
        || s[2] == 'L') && (s[3] == 'e' || s[3] == 'E') && (s[4] == 'c' || s[4] == 'C') && (s[5]
        == 't' || s[5] == 'T') && (s[6] == 'o' || s[6] == 'O') && (s[7] == 'r' || s[7] == 'R')
}

fn is_kw_not(input: &Vec<char>, a: usize, b: usize) -> (r: bool)
    requires
        a <= b <= input@.len(),
    ensures
        r == kw_not_spec(input@.subrange(a as int, b as int)),
{
    if b - a != 3 {
        return false;
    }
    let c0 = input[a];
    let c1 = input[a + 1];
    let c2 = input[a + 2];
    (c0 == 'n' || c0 == 'N') && (c1 == 'o' || c1 == 'O') && (c2 == 't' || c2 == 'T')
}

fn is_kw_and(input: &Vec<char>, a: usize, b: usize) -> (r: bool)
    requires
        a <= b <= input@.len(),
    ensures
        r == kw_and_spec(input@.subrange(a as int, b as int)),
{
    if b - a != 3 {
        return false;
    }
    let c0 = input[a];
    let c1 = input[a + 1];
    let c2 = input[a + 2];
    (c0 == 'a' || c0 == 'A') && (c1 == 'n' || c1 == 'N') && (c2 == 'd' || c2 == 'D')
}

fn is_kw_or(input: &Vec<char>, a: usize, b: usize) -> (r: bool)
    requires
        a <= b <= input@.len(),
    ensures
        r == kw_or_spec(input@.subrange(a as int, b as int)),
{
    if b - a != 2 {
        return false;
    }
    let c0 = input[a];
    let c1 = input[a + 1];
    (c0 == 'o' || c0 == 'O') && (c1 == 'r' || c1 == 'R')
}

fn is_kw_selector(input: &Vec<char>, a: usize, b: usize) -> (r: bool)
    requires
        a <= b <= input@.len(),
    ensures
        r == kw_selector_spec(input@.subrange(a as int, b as int)),
{
    if b - a != 8 {
        return false;
    }
    let c0 = input[a];
    let c1 = input[a + 1];
    let c2 = input[a + 2];
    let c3 = input[a + 3];
    let c4 = input[a + 4];
    let c5 = input[a + 5];
    let c6 = input[a + 6];
    let c7 = input[a + 7];
    (c0 == 's' || c0 == 'S') && (c1 == 'e' || c1 == 'E') && (c2 == 'l' || c2 == 'L') && (c3 == 'e'
        || c3 == 'E') && (c4 == 'c' || c4 == 'C') && (c5 == 't' || c5 == 'T') && (c6 == 'o' || c6
        == 'O') && (c7 == 'r' || c7 == 'R')
}

/// The index one past the quote closing a string, or -1 when the string is
/// an error token: broken by a raw newline, a dangling escape, or the end of
/// the range. `i` is the first index after the opening quote; a backslash
/// escapes the next character.
pub open spec fn string_end(s: Seq<char>, quote: char, i: int, end: int) -> int
    decreases end - i,
{
    if i >= end {
        -1
    } else if s[i] == quote {
        i + 1
    } else if s[i] == '\n' || s[i] == '\r' {
        -1
    } else if s[i] == '\\' {
        if i + 1 < end {
            string_end(s, quote, i + 2, end)
        } else {
            -1
        }
    } else {
        string_end(s, quote, i + 1, end)
    }
}

/// Whether the range `[i, end)` holds no error token, given the closers the
/// enclosing blocks still expect: every opened block is closed, no closer is
/// unmatched, every string is intact, and `stack` is worked off exactly.
pub open spec fn scan_ok(s: Seq<char>, i: int, end: int, stack: Seq<char>) -> bool
    decreases end - i,
{
    if i >= end {
        stack.len() == 0
    } else {
        let c = s[i];
        if c == '(' {
            scan_ok(s, i + 1, end, stack.push(')'))
        } else if c == '[' {
            scan_ok(s, i + 1, end, stack.push(']'))
        } else if c == '{' {
            scan_ok(s, i + 1, end, stack.push('}'))
        } else if c == ')' || c == ']' || c == '}' {
            stack.len() > 0 && stack.last() == c && scan_ok(s, i + 1, end, stack.drop_last())
        } else if c == '"' || c == '\'' {
            let e = string_end(s, c, i + 1, end);
            i < e <= end && scan_ok(s, e, end, stack)
        } else {
            scan_ok(s, i + 1, end, stack)
        }
    }
}

/// The index of the closer that empties the stack — the end of the block
/// whose expected closers `stack` holds — or -1 on any error token or when
/// the range ends first.
pub open spec fn block_close(s: Seq<char>, i: int, end: int, stack: Seq<char>) -> int
    decreases end - i,
{
    if i >= end || stack.len() == 0 {
        -1
    } else {
        let c = s[i];
        if c == '(' {
            block_close(s, i + 1, end, stack.push(')'))
        } else if c == '[' {
            block_close(s, i + 1, end, stack.push(']'))
        } else if c == '{' {
            block_close(s, i + 1, end, stack.push('}'))
        } else if c == ')' || c == ']' || c == '}' {
            if stack.last() == c {
                if stack.len() == 1 {
                    i
                } else {
                    block_close(s, i + 1, end, stack.drop_last())
                }
            } else {
                -1
            }
        } else if c == '"' || c == '\'' {
            let e = string_end(s, c, i + 1, end);
            if i < e <= end {
                block_close(s, e, end, stack)
            } else {
                -1
            }
        } else {
            block_close(s, i + 1, end, stack)
        }
    }
}

/// The position of the closing parenthesis matching the `(` at `open`.
pub open spec fn block_end_of(s: Seq<char>, open: int, end: int) -> int {
    block_close(s, open + 1, end, seq![')'])
}

/// `ws_end` stays inside its range.
pub broadcast proof fn lemma_ws_end_bounds(s: Seq<char>, pos: int, end: int)
    requires
        pos <= end,
    ensures
        pos <= #[trigger] ws_end(s, pos, end) <= end,
    decreases end - pos,
{
    if pos < end && is_ws_spec(s[pos]) {
        lemma_ws_end_bounds(s, pos + 1, end);
    }
}

/// `ident_end` stays inside its range.
pub broadcast proof fn lemma_ident_end_bounds(s: Seq<char>, pos: int, end: int)
    requires
        pos <= end,
    ensures
        pos <= #[trigger] ident_end(s, pos, end) <= end,
    decreases end - pos,
{
    if pos < end && is_ident_char_spec(s[pos]) {
        lemma_ident_end_bounds(s, pos + 1, end);
    }
}

/// `string_end` either fails or lands inside the range, past its start.
pub broadcast proof fn lemma_string_end_bounds(s: Seq<char>, quote: char, i: int, end: int)
    requires
        i <= end,
    ensures
        #[trigger] string_end(s, quote, i, end) == -1 || i < string_end(s, quote, i, end) <= end,
    decreases end - i,
{
    if i < end && s[i] != quote && s[i] != '\n' && s[i] != '\r' {
        if s[i] == '\\' {
            if i + 1 < end {
                lemma_string_end_bounds(s, quote, i + 2, end);
            }
        } else {
            lemma_string_end_bounds(s, quote, i + 1, end);
        }
    }
}

/// `block_close` either fails or lands inside the range.
pub broadcast proof fn lemma_block_close_bounds(s: Seq<char>, i: int, end: int, stack: Seq<char>)
    requires
        i <= end,
    ensures
        #[trigger] block_close(s, i, end, stack) == -1 || i <= block_close(s, i, end, stack)
            < end,
    decreases end - i,
{
    if i < end && stack.len() > 0 {
        let c = s[i];
        if c == '(' {
            lemma_block_close_bounds(s, i + 1, end, stack.push(')'));
        } else if c == '[' {
            lemma_block_close_bounds(s, i + 1, end, stack.push(']'));
        } else if c == '{' {
            lemma_block_close_bounds(s, i + 1, end, stack.push('}'));
        } else if c == ')' || c == ']' || c == '}' {
            if stack.last() == c && stack.len() > 1 {
                lemma_block_close_bounds(s, i + 1, end, stack.drop_last());
            }
        } else if c == '"' || c == '\'' {
            lemma_string_end_bounds(s, c, i + 1, end);
            let e = string_end(s, c, i + 1, end);
            if i < e <= end {
                lemma_block_close_bounds(s, e, end, stack);
            }
        } else {
            lemma_block_close_bounds(s, i + 1, end, stack);
        }
    }
}

/// Skips a quoted string starting at `pos`; returns the index one past its
/// closing quote. A backslash escapes the next character. A raw newline
/// inside the string, or an unterminated string, is an error token.
fn skip_string(input: &Vec<char>, pos: usize, end: usize) -> (r: Option<usize>)
    requires
        pos < end <= input@.len(),
    ensures
        match r {
            Some(e) => pos < e <= end && e == string_end(
                input@,
                input@[pos as int],
                pos + 1,
                end as int,
            ),
            None => string_end(input@, input@[pos as int], pos + 1, end as int) == -1,
        },
{
    let quote = input[pos];
    let mut i = pos + 1;
    while i < end
        invariant
            pos < i,
            i <= end,
            end <= input@.len(),
            quote == input@[pos as int],
            string_end(input@, quote, pos + 1, end as int) == string_end(
                input@,
                quote,
                i as int,
                end as int,
            ),
        decreases end - i,
    {
        let c = input[i];
        if c == quote {
            return Some(i + 1);
        }
        if c == '\n' || c == '\r' {
            return None;
        }
        if c == '\\' {
            if i + 1 < end {
                i = i + 2;
            } else {
                // A dangling escape at the end: the string is unterminated.
                return None;
            }
        } else {
            i = i + 1;
        }
    }
    None
}

/// The closing bracket belonging to an opening bracket.
pub open spec fn closer_of(c: char) -> char {
    if c == '(' {
        ')'
    } else if c == '[' {
        ']'
    } else {
        '}'
    }
}

/// Finds the closing bracket matching the opener at `pos`, keeping track of
/// nested blocks and quoted strings. `None` when the block is unterminated,
/// a closer mismatches, or a string is broken: the error-token cases.
fn scan_block(input: &Vec<char>, pos: usize, end: usize) -> (r: Option<usize>)
    requires
        pos < end <= input@.len(),
        input@[pos as int] == '(' || input@[pos as int] == '[' || input@[pos as int] == '{',
    ensures
        match r {
            Some(close) => pos < close < end && close == block_close(
                input@,
                pos + 1,
                end as int,
                seq![closer_of(input@[pos as int])],
            ),
            None => block_close(input@, pos + 1, end as int, seq![closer_of(input@[pos as int])])
                == -1,
        },
{
    let mut stack: Vec<char> = Vec::new();
    let opener = input[pos];
    if opener == '(' {
        stack.push(')');
    } else if opener == '[' {
        stack.push(']');
    } else {
        stack.push('}');
    }
    let ghost st0 = stack@;
    proof {
        assert(st0 =~= seq![closer_of(input@[pos as int])]);
    }
    let mut i = pos + 1;
    while i < end
        invariant
            pos < i,
            i <= end,
            end <= input@.len(),
            stack@.len() >= 1,
            st0 == seq![closer_of(input@[pos as int])],
            block_close(input@, pos + 1, end as int, st0) == block_close(
                input@,
                i as int,
                end as int,
                stack@,
            ),
        decreases end - i,
    {
        let c = input[i];
        if c == '(' {
            stack.push(')');
            i = i + 1;
        } else if c == '[' {
            stack.push(']');
            i = i + 1;
        } else if c == '{' {
            stack.push('}');
            i = i + 1;
        } else if c == ')' || c == ']' || c == '}' {
            let ghost pre = stack@;
            match stack.pop() {
                Some(expected) => {
                    if expected != c {
                        proof {
                            assert(pre.last() != c);
                            assert(block_close(input@, i as int, end as int, pre) == -1);
                        }
                        return None;
                    }
                },
                None => {
                    proof {
                        assert(false);
                    }
                    return None;
                },
            }
            proof {
                assert(stack@ =~= pre.drop_last());
            }
            if stack.len() == 0 {
                proof {
                    assert(pre.len() == 1 && pre.last() == c);
                    assert(block_close(input@, i as int, end as int, pre) == i as int);
                }
                return Some(i);
            }
            i = i + 1;
        } else if c == '"' || c == '\'' {
            match skip_string(input, i, end) {
                Some(e) => {
                    i = e;
                },
                None => {
                    proof {
                        assert(block_close(input@, i as int, end as int, stack@) == -1);
                    }
                    return None;
                },
            }
        } else {
            i = i + 1;
        }
    }
    proof {
        assert(block_close(input@, i as int, end as int, stack@) == -1);
    }
    None
}

/// Checks that the range `[pos, end)` holds no error token: every block it
/// opens is closed inside it, no closer is unmatched, and every string is
/// intact.
fn scan_no_error(input: &Vec<char>, pos: usize, end: usize) -> (r: bool)
    requires
        pos <= end <= input@.len(),
    ensures
        r == scan_ok(input@, pos as int, end as int, Seq::<char>::empty()),
{
    let mut stack: Vec<char> = Vec::new();
    let mut i = pos;
    proof {
        assert(stack@ =~= Seq::<char>::empty());
    }
    while i < end
        invariant
            pos <= i,
            i <= end,
            end <= input@.len(),
            scan_ok(input@, pos as int, end as int, Seq::<char>::empty()) == scan_ok(
                input@,
                i as int,
                end as int,
                stack@,
            ),
        decreases end - i,
    {
        let c = input[i];
        if c == '(' {
            stack.push(')');
            i = i + 1;
        } else if c == '[' {
            stack.push(']');
            i = i + 1;
        } else if c == '{' {
            stack.push('}');
            i = i + 1;
        } else if c == ')' || c == ']' || c == '}' {
            let ghost pre = stack@;
            match stack.pop() {
                Some(expected) => {
                    if expected != c {
                        return false;
                    }
                },
                None => {
                    return false;
                },
            }
            proof {
                assert(stack@ =~= pre.drop_last());
            }
            i = i + 1;
        } else if c == '"' || c == '\'' {
            match skip_string(input, i, end) {
                Some(e) => {
                    i = e;
                },
                None => {
                    return false;
                },
            }
        } else {
            i = i + 1;
        }
    }
    stack.len() == 0
}

/// How a raw property name splits into a vendor prefix and the unprefixed
/// name: a known prefix is recognized and recorded in the prefix set; any
/// other name keeps an empty prefix set.
pub open spec fn split_prefix_spec(s: Seq<char>) -> crate::condition::PropIdView {
    if s.len() > 8 && s.subrange(0, 8) == seq!['-', 'w', 'e', 'b', 'k', 'i', 't', '-'] {
        crate::condition::PropIdView {
            name: s.skip(8),
            prefix: VendorPrefixSet {
                none: false,
                webkit: true,
                moz: false,
                ms: false,
                o: false,
            },
        }
    } else if s.len() > 5 && s.subrange(0, 5) == seq!['-', 'm', 'o', 'z', '-'] {
        crate::condition::PropIdView {
            name: s.skip(5),
            prefix: VendorPrefixSet {
                none: false,
                webkit: false,
                moz: true,
                ms: false,
                o: false,
            },
        }
    } else if s.len() > 4 && s.subrange(0, 4) == seq!['-', 'm', 's', '-'] {
        crate::condition::PropIdView {
            name: s.skip(4),
            prefix: VendorPrefixSet {
                none: false,
                webkit: false,
                moz: false,
                ms: true,
                o: false,
            },
        }
    } else if s.len() > 3 && s.subrange(0, 3) == seq!['-', 'o', '-'] {
        crate::condition::PropIdView {
            name: s.skip(3),
            prefix: VendorPrefixSet { none: false, webkit: false, moz: false, ms: false, o: true },
        }
    } else {
        crate::condition::PropIdView { name: s, prefix: VendorPrefixSet::spec_empty() }
    }
}

/// What parsing a declaration filling `[pos, end)` yields: the property
/// identifier (vendor prefix split off), a colon, then the raw value text to
/// the end of the range — or nothing, when no identifier starts the range,
/// no colon follows it, or the value holds an error token.
pub open spec fn parse_declaration_spec(s: Seq<char>, pos: int, end: int) -> Option<(Cond, int)> {
    let p = ws_end(s, pos, end);
    if p >= end || !is_ident_start_spec(s[p]) {
        None
    } else {
        let e = ident_end(s, p, end);
        let c = ws_end(s, e, end);
        if c >= end || s[c] != ':' {
            None
        } else {
            let v = ws_end(s, c + 1, end);
            if !scan_ok(s, v, end, Seq::<char>::empty()) {
                None
            } else {
                Some(
                    (
                        Cond::Declaration {
                            property: split_prefix_spec(s.subrange(p, e)),
                            value: s.subrange(v, end),
                        },
                        end,
                    ),
                )
            }
        }
    }
}

/// The alternatives after a failed nested-condition parse of a parenthesis
/// block: a declaration, else the block's text verbatim as an unknown
/// condition.
pub open spec fn paren_fallback(s: Seq<char>, p: int, close: int) -> (Cond, int) {
    match parse_declaration_spec(s, p + 1, close) {
        Some(cq) => (cq.0, close + 1),
        None => (Cond::Unknown(s.subrange(p, close + 1)), close + 1),
    }
}

/// What parsing one parenthesized-or-atomic unit yields. A `selector(...)`
/// function gives a selector check; any other function gives its full text
/// verbatim; a parenthesis block gives the nested condition when it parses
/// entirely, else a declaration, else its text verbatim. Nothing comes back
/// exactly when no function or parenthesis block starts the unit, or its
/// block is unterminated or holds an error token.
pub open spec fn parse_in_parens_spec(s: Seq<char>, pos: int, end: int) -> Option<(Cond, int)>
    decreases end - pos, 0int,
{
    let p = ws_end(s, pos, end);
    if p >= end {
        None
    } else if is_ident_start_spec(s[p]) {
        let e = ident_end(s, p, end);
        if !(e < end && s[e] == '(') {
            None
        } else {
            let close = block_end_of(s, e, end);
            if close < 0 {
                None
            } else if kw_selector_spec(s.subrange(p, e)) {
                Some((Cond::Selector(s.subrange(e + 1, close)), close + 1))
            } else {
                Some((Cond::Unknown(s.subrange(p, close + 1)), close + 1))
            }
        }
    } else if s[p] == '(' {
        proof {
            assert(pos < end);
            lemma_ws_end_bounds(s, pos, end);
            lemma_block_close_bounds(s, p + 1, end, seq![')']);
        }
        let close = block_end_of(s, p, end);
        if close < 0 {
            None
        } else {
            match parse_spec(s, p + 1, close) {
                Some(cq) => if ws_end(s, cq.1, close) == close {
                    Some((cq.0, close + 1))
                } else {
                    Some(paren_fallback(s, p, close))
                },
                None => Some(paren_fallback(s, p, close)),
            }
        }
    } else {
        None
    }
}

/// The list that an operator run has accumulated, closed off: a conjunction
/// or disjunction per the fixed operator type, or the lone first unit when
/// no operator ever succeeded.
pub open spec fn finish_ops(first: Cond, cur: int, expected: int, acc: Seq<Cond>) -> (Cond, int) {
    if expected == 1 {
        (Cond::And(acc), cur)
    } else if expected == 2 {
        (Cond::Or(acc), cur)
    } else {
        (first, cur)
    }
}

/// The operator loop: read an `and`/`or` keyword and one more unit, as long
/// as the keyword matches the fixed operator type and the unit parses; the
/// first success pushes the first unit onto the accumulator and fixes the
/// type. Any other outcome closes the list, leaving the keyword unconsumed.
pub open spec fn parse_ops(
    s: Seq<char>,
    end: int,
    first: Cond,
    cur: int,
    expected: int,
    acc: Seq<Cond>,
) -> (Cond, int)
    decreases end - cur, 0int,
{
    let p2 = ws_end(s, cur, end);
    if p2 >= end || !is_ident_start_spec(s[p2]) {
        finish_ops(first, cur, expected, acc)
    } else {
        let e2 = ident_end(s, p2, end);
        if e2 < end && s[e2] == '(' {
            finish_ops(first, cur, expected, acc)
        } else {
            let ty: int = if kw_and_spec(s.subrange(p2, e2)) {
                1
            } else if kw_or_spec(s.subrange(p2, e2)) {
                2
            } else {
                0
            };
            if ty == 0 || (expected != 0 && ty != expected) {
                finish_ops(first, cur, expected, acc)
            } else {
                proof {
                    assert(cur < end);
                    lemma_ws_end_bounds(s, cur, end);
                    lemma_ident_end_bounds(s, p2 + 1, end);
                }
                match parse_in_parens_spec(s, e2, end) {
                    Some(cq) => if cur < cq.1 <= end {
                        parse_ops(
                            s,
                            end,
                            first,
                            cq.1,
                            ty,
                            if acc.len() == 0 {
                                seq![first, cq.0]
                            } else {
                                acc.push(cq.0)
                            },
                        )
                    } else {
                        finish_ops(first, cur, expected, acc)
                    },
                    None => finish_ops(first, cur, expected, acc),
                }
            }
        }
    }
}

/// What parsing a full condition yields: a negation when the `not` keyword
/// leads, else a first unit extended by the operator loop — or nothing, when
/// the (first) unit fails.
pub open spec fn parse_spec(s: Seq<char>, pos: int, end: int) -> Option<(Cond, int)>
    decreases end - pos, 1int,
{
    let p = ws_end(s, pos, end);
    let e = ident_end(s, p, end);
    let not_kw = p < end && is_ident_start_spec(s[p]) && kw_not_spec(s.subrange(p, e)) && !(e
        < end && s[e] == '(');
    if not_kw {
        proof {
            assert(pos < end);
            lemma_ws_end_bounds(s, pos, end);
            lemma_ident_end_bounds(s, p + 1, end);
        }
        match parse_in_parens_spec(s, e, end) {
            Some(cq) => Some((Cond::Not(Box::new(cq.0)), cq.1)),
            None => None,
        }
    } else {
        match parse_in_parens_spec(s, pos, end) {
            Some(cq) => if pos < cq.1 <= end {
                Some(parse_ops(s, end, cq.0, cq.1, 0, Seq::<Cond>::empty()))
            } else {
                None
            },
            None => None,
        }
    }
}

/// Whether `input[a + k]` equals `p[k]` for all `k`.
fn range_matches(input: &Vec<char>, a: usize, b: usize, p: &Vec<char>) -> (r: bool)
    requires
        a <= b <= input@.len(),
    ensures
        r == (b - a >= p@.len() && input@.subrange(a as int, a + p@.len()) == p@),
{
    if b - a < p.len() {
        proof {
            assert(!(b - a >= p@.len()));
        }
        return false;
    }
    let mut k: usize = 0;
    while k < p.len()
        invariant
            k <= p@.len(),
            a + p@.len() <= b <= input@.len(),
            forall|j: int| 0 <= j < k ==> input@[a + j] == p@[j],
        decreases p@.len() - k,
    {
        if input[a + k] != p[k] {
            proof {
                assert(input@.subrange(a as int, a + p@.len())[k as int] != p@[k as int]);
            }
            return false;
        }
        k = k + 1;
    }
    proof {
        assert(input@.subrange(a as int, a + p@.len()) =~= p@);
    }
    true
}

impl PropertyId {
    /// Builds a property identifier from the raw name in `[a, b)`,
    /// recognizing a known vendor prefix.
    pub fn parse(input: &Vec<char>, a: usize, b: usize) -> (r: PropertyId)
        requires
            a <= b <= input@.len(),
        ensures
            r@ == split_prefix_spec(input@.subrange(a as int, b as int)),
    {
        let ghost s = input@.subrange(a as int, b as int);
        let webkit: Vec<char> = vec!['-', 'w', 'e', 'b', 'k', 'i', 't', '-'];
        let moz: Vec<char> = vec!['-', 'm', 'o', 'z', '-'];
        let ms: Vec<char> = vec!['-', 'm', 's', '-'];
        let o: Vec<char> = vec!['-', 'o', '-'];
        proof {
            assert(webkit@ =~= seq!['-', 'w', 'e', 'b', 'k', 'i', 't', '-']);
            assert(moz@ =~= seq!['-', 'm', 'o', 'z', '-']);
            assert(ms@ =~= seq!['-', 'm', 's', '-']);
            assert(o@ =~= seq!['-', 'o', '-']);
        }
        if b - a > 8 && range_matches(input, a, b, &webkit) {
            proof {
                assert(s.subrange(0, 8) =~= input@.subrange(a as int, a + 8));
                assert(s.skip(8) =~= input@.subrange(a + 8, b as int));
            }
            PropertyId {
                name: slice_chars(input, a + 8, b),
                prefix: VendorPrefixSet {
                    none: false,
                    webkit: true,
                    moz: false,
                    ms: false,
                    o: false,
                },
            }
        } else if b - a > 5 && range_matches(input, a, b, &moz) {
            proof {
                assert(s.subrange(0, 5) =~= input@.subrange(a as int, a + 5));
                assert(s.skip(5) =~= input@.subrange(a + 5, b as int));
                assert(!(s.len() > 8 && s.subrange(0, 8) == seq![
                    '-', 'w', 'e', 'b', 'k', 'i', 't', '-',
                ])) by {
                    if s.len() > 8 && s.subrange(0, 8) == seq![
                        '-', 'w', 'e', 'b', 'k', 'i', 't', '-',
                    ] {
                        assert(s.subrange(0, 8)[1] == 'w');
                        assert(s.subrange(0, 5)[1] == 'm');
                        assert(s[1] == 'w' && s[1] == 'm');
                    }
                }
            }
            PropertyId {
                name: slice_chars(input, a + 5, b),
                prefix: VendorPrefixSet {
                    none: false,
                    webkit: false,
                    moz: true,
                    ms: false,
                    o: false,
                },
            }
        } else if b - a > 4 && range_matches(input, a, b, &ms) {
            proof {
                assert(s.subrange(0, 4) =~= input@.subrange(a as int, a + 4));
                assert(s.skip(4) =~= input@.subrange(a + 4, b as int));
                assert(!(s.len() > 8 && s.subrange(0, 8) == seq![
                    '-', 'w', 'e', 'b', 'k', 'i', 't', '-',
                ])) by {
                    if s.len() > 8 && s.subrange(0, 8) == seq![
                        '-', 'w', 'e', 'b', 'k', 'i', 't', '-',
                    ] {
                        assert(s.subrange(0, 8)[1] == 'w');
                        assert(s.subrange(0, 4)[1] == 'm');
                        assert(s[1] == 'w' && s[1] == 'm');
                    }
                }
                assert(!(s.len() > 5 && s.subrange(0, 5) == seq!['-', 'm', 'o', 'z', '-'])) by {
                    if s.len() > 5 && s.subrange(0, 5) == seq!['-', 'm', 'o', 'z', '-'] {
                        assert(s.subrange(0, 5)[2] == 'o');
                        assert(s.subrange(0, 4)[2] == 's');
                        assert(s[2] == 'o' && s[2] == 's');
                    }
                }
            }
            PropertyId {
                name: slice_chars(input, a + 4, b),
                prefix: VendorPrefixSet {
                    none: false,
                    webkit: false,
                    moz: false,
                    ms: true,
                    o: false,
                },
            }
        } else if b - a > 3 && range_matches(input, a, b, &o) {
            proof {
                assert(s.subrange(0, 3) =~= input@.subrange(a as int, a + 3));
                assert(s.skip(3) =~= input@.subrange(a + 3, b as int));
                assert(!(s.len() > 8 && s.subrange(0, 8) == seq![
                    '-', 'w', 'e', 'b', 'k', 'i', 't', '-',
                ])) by {
                    if s.len() > 8 && s.subrange(0, 8) == seq![
                        '-', 'w', 'e', 'b', 'k', 'i', 't', '-',
                    ] {
                        assert(s.subrange(0, 8)[1] == 'w');
                        assert(s.subrange(0, 3)[1] == 'o');
                        assert(s[1] == 'w' && s[1] == 'o');
                    }
                }
                assert(!(s.len() > 5 && s.subrange(0, 5) == seq!['-', 'm', 'o', 'z', '-'])) by {
                    if s.len() > 5 && s.subrange(0, 5) == seq!['-', 'm', 'o', 'z', '-'] {
                        assert(s.subrange(0, 5)[1] == 'm');
                        assert(s.subrange(0, 3)[1] == 'o');
                        assert(s[1] == 'm' && s[1] == 'o');
                    }
                }
                assert(!(s.len() > 4 && s.subrange(0, 4) == seq!['-', 'm', 's', '-'])) by {
                    if s.len() > 4 && s.subrange(0, 4) == seq!['-', 'm', 's', '-'] {
                        assert(s.subrange(0, 4)[1] == 'm');
                        assert(s.subrange(0, 3)[1] == 'o');
                        assert(s[1] == 'm' && s[1] == 'o');
                    }
                }
            }
            PropertyId {
                name: slice_chars(input, a + 3, b),
                prefix: VendorPrefixSet {
                    none: false,
                    webkit: false,
                    moz: false,
                    ms: false,
                    o: true,
                },
            }
        } else {
            proof {
                if s.len() > 8 && s.subrange(0, 8) == seq!['-', 'w', 'e', 'b', 'k', 'i', 't', '-'] {
                    assert(input@.subrange(a as int, a + 8) =~= s.subrange(0, 8));
                }
                if s.len() > 5 && s.subrange(0, 5) == seq!['-', 'm', 'o', 'z', '-'] {
                    assert(input@.subrange(a as int, a + 5) =~= s.subrange(0, 5));
                }
                if s.len() > 4 && s.subrange(0, 4) == seq!['-', 'm', 's', '-'] {
                    assert(input@.subrange(a as int, a + 4) =~= s.subrange(0, 4));
                }
                if s.len() > 3 && s.subrange(0, 3) == seq!['-', 'o', '-'] {
                    assert(input@.subrange(a as int, a + 3) =~= s.subrange(0, 3));
                }
            }
            PropertyId { name: slice_chars(input, a, b), prefix: VendorPrefixSet::empty() }
        }
    }
}

impl SupportsCondition {
    /// Parses a single declaration filling the range up to `end`: a property
    /// identifier, a colon, then the raw value text. Succeeds exactly when
    /// an identifier starts the range, a colon follows it, and the value
    /// holds no error token.
    pub fn parse_declaration(input: &Vec<char>, pos: usize, end: usize) -> (r: Result<
        (SupportsCondition, usize),
        ParseError,
    >)
        requires
            pos <= end <= input@.len(),
        ensures
            match r {
                Ok(cq) => pos < cq.1 <= end && wf_cond(cq.0@) && parse_declaration_spec(
                    input@,
                    pos as int,
                    end as int,
                ) == Some((cq.0@, cq.1 as int)),
                Err(_) => parse_declaration_spec(input@, pos as int, end as int) is None,
            },
    {
        let p = skip_ws(input, pos, end);
        let e = match read_ident(input, p, end) {
            Some(e) => e,
            None => {
                return Err(ParseError { pos: p });
            },
        };
        let property_id = PropertyId::parse(input, p, e);
        let c = skip_ws(input, e, end);
        if c == end || input[c] != ':' {
            return Err(ParseError { pos: c });
        }
        let v = skip_ws(input, c + 1, end);
        if !scan_no_error(input, v, end) {
            return Err(ParseError { pos: v });
        }
        let value = slice_chars(input, v, end);
        Ok((SupportsCondition::Declaration { property_id, value }, end))
    }

    /// Parses one parenthesized-or-atomic unit: a `selector(...)` check, a
    /// parenthesized condition or declaration, or — for any other balanced,
    /// error-free block — the block's text verbatim as an unknown condition.
    /// Fails exactly when no function or parenthesis block starts the unit,
    /// or its block is unterminated or holds an error token.
    pub fn parse_in_parens(input: &Vec<char>, pos: usize, end: usize) -> (r: Result<
        (SupportsCondition, usize),
        ParseError,
    >)
        requires
            pos <= end <= input@.len(),
        ensures
            match r {
                Ok(cq) => pos < cq.1 <= end && wf_cond(cq.0@) && parse_in_parens_spec(
                    input@,
                    pos as int,
                    end as int,
                ) == Some((cq.0@, cq.1 as int)),
                Err(_) => parse_in_parens_spec(input@, pos as int, end as int) is None,
            },
        decreases end - pos, 0int,
    {
        let p = skip_ws(input, pos, end);
        if p == end {
            return Err(ParseError { pos: p });
        }
        match read_ident(input, p, end) {
            Some(e) => {
                // An identifier followed directly by `(` is a function
                // token; a bare identifier cannot start an atomic condition.
                if !(e < end && input[e] == '(') {
                    return Err(ParseError { pos: p });
                }
                let close = match scan_block(input, e, end) {
                    Some(close) => close,
                    None => {
                        return Err(ParseError { pos: p });
                    },
                };
                if is_kw_selector(input, p, e) {
                    let text = slice_chars(input, e + 1, close);
                    return Ok((SupportsCondition::Selector(text), close + 1));
                }
                let text = slice_chars(input, p, close + 1);
                Ok((SupportsCondition::Unknown(text), close + 1))
            },
            None => {
                if input[p] != '(' {
                    // A bracket or brace block, a quoted string, or any other
                    // leading token is a hard syntax error here.
                    return Err(ParseError { pos: p });
                }
                let close = match scan_block(input, p, end) {
                    Some(close) => close,
                    None => {
                        return Err(ParseError { pos: p });
                    },
                };
                match SupportsCondition::parse(input, p + 1, close) {
                    Ok((c, q)) => {
                        if skip_ws(input, q, close) == close {
                            return Ok((c, close + 1));
                        }
                    },
                    Err(_) => {},
                }
                match SupportsCondition::parse_declaration(input, p + 1, close) {
                    Ok((c, _)) => {
                        return Ok((c, close + 1));
                    },
                    Err(_) => {},
                }
                let text = slice_chars(input, p, close + 1);
                Ok((SupportsCondition::Unknown(text), close + 1))
            },
        }
    }

    /// Parses a full condition: an optional leading negation, or a first
    /// unit followed by a homogeneous `and`/`or` list. The first operator
    /// keyword whose operand parses fixes the list's type; a conflicting
    /// keyword, or one whose operand fails, stops the list without being
    /// consumed. Succeeds exactly when the (first) unit does; the result is
    /// well formed: every conjunction and disjunction in it has at least two
    /// members.
    pub fn parse(input: &Vec<char>, pos: usize, end: usize) -> (r: Result<
        (SupportsCondition, usize),
        ParseError,
    >)
        requires
            pos <= end <= input@.len(),
        ensures
            match r {
                Ok(cq) => pos < cq.1 <= end && wf_cond(cq.0@) && parse_spec(
                    input@,
                    pos as int,
                    end as int,
                ) == Some((cq.0@, cq.1 as int)),
                Err(_) => parse_spec(input@, pos as int, end as int) is None,
            },
        decreases end - pos, 1int,
    {
        let ghost s = input@;
        let p = skip_ws(input, pos, end);
        match read_ident(input, p, end) {
            Some(e) => {
                if is_kw_not(input, p, e) && !(e < end && input[e] == '(') {
                    let (inner, q) = match SupportsCondition::parse_in_parens(input, e, end) {
                        Ok(cq) => cq,
                        Err(err) => {
                            return Err(err);
                        },
                    };
                    return Ok((SupportsCondition::Not(Box::new(inner)), q));
                }
            },
            None => {},
        }
        let (first, first_q) = match SupportsCondition::parse_in_parens(input, pos, end) {
            Ok(cq) => cq,
            Err(err) => {
                return Err(err);
            },
        };
        let mut cur = first_q;
        let mut expected: u8 = 0;
        let mut conditions: Vec<SupportsCondition> = Vec::new();
        proof {
            assert(views_of(conditions@) =~= Seq::<Cond>::empty());
        }
        loop
            invariant
                pos < cur <= end <= input@.len(),
                s == input@,
                expected == 0 ==> cur == first_q && conditions@.len() == 0,
                expected == 0 || expected == 1 || expected == 2,
                expected != 0 ==> conditions@.len() >= 2,
                forall|i: int|
                    0 <= i < conditions@.len() ==> wf_cond(views_of(conditions@)[i]),
                wf_cond(first@),
                parse_ops(s, end as int, first@, first_q as int, 0, Seq::<Cond>::empty())
                    == parse_ops(
                    s,
                    end as int,
                    first@,
                    cur as int,
                    expected as int,
                    views_of(conditions@),
                ),
            ensures
                parse_ops(s, end as int, first@, first_q as int, 0, Seq::<Cond>::empty())
                    == finish_ops(first@, cur as int, expected as int, views_of(conditions@)),
            decreases end - cur,
        {
            let ghost acc0 = views_of(conditions@);
            let ghost expected0 = expected as int;
            let ghost cur0 = cur as int;
            let p2 = skip_ws(input, cur, end);
            let e2 = match read_ident(input, p2, end) {
                Some(e2) => e2,
                None => {
                    break;
                },
            };
            if e2 < end && input[e2] == '(' {
                // A function token, not an operator keyword.
                break;
            }
            let ty: u8 = if is_kw_and(input, p2, e2) {
                1
            } else if is_kw_or(input, p2, e2) {
                2
            } else {
                break;
            };
            if expected != 0 && ty != expected {
                // Mixing `and` and `or` stops the list; the keyword stays
                // unconsumed for the enclosing grammar.
                break;
            }
            let (c, q) = match SupportsCondition::parse_in_parens(input, e2, end) {
                Ok(cq) => cq,
                Err(_) => {
                    // The operator's operand failed: the keyword stays
                    // unconsumed and the list type is not fixed by it.
                    break;
                },
            };
            if expected == 0 {
                expected = ty;
            }
            let ghost pre = conditions@;
            if conditions.len() == 0 {
                conditions.push(first.deep_clone());
            }
            conditions.push(c);
            proof {
                let post = conditions@;
                assert forall|i: int|
                    0 <= i < post.len() implies wf_cond(views_of(post)[i]) by {
                    assert(views_of(post)[i] == post[i]@);
                    if i < pre.len() {
                        assert(post[i] == pre[i]);
                        assert(views_of(pre)[i] == pre[i]@);
                    }
                }
                if acc0.len() == 0 {
                    assert(views_of(post) =~= seq![first@, c@]);
                } else {
                    assert(views_of(post) =~= acc0.push(c@));
                }
                assert(parse_ops(s, end as int, first@, cur0, expected0, acc0) == parse_ops(
                    s,
                    end as int,
                    first@,
                    q as int,
                    ty as int,
                    views_of(post),
                ));
            }
            cur = q;
        }
        proof {
            assert(parse_spec(s, pos as int, end as int) == Some(
                parse_ops(s, end as int, first@, first_q as int, 0, Seq::<Cond>::empty()),
            ));
        }
        let ghost vs = views_of(conditions@);
        proof {
            assert(vs.len() == conditions@.len());
            if vs.len() >= 2 {
                assert(crate::condition::wf_items(vs));
            }
        }
        if expected == 1 {
            Ok((SupportsCondition::And(conditions), cur))
        } else if expected == 2 {
            Ok((SupportsCondition::Or(conditions), cur))
        } else {
            Ok((first, cur))
        }
    }
}

} // verus!
