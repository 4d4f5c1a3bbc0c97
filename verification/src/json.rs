//! The quotes file format.
//!
//! A quotes document is a JSON object with the single key `"quotes"`, holding
//! an array of quote objects; a quote object has exactly the string members
//! `"quote"` and `"author"` and the string-array member `"tags"`, in any
//! order. The grammar below states, over sequences of characters, exactly
//! which documents are accepted and what collection each one denotes; the
//! executable parser is proved to return precisely that.

use vstd::prelude::*;
use crate::quotes::{AllQuotes, Quote, QuoteView};
use vstd::string::{StringExecFns, StrSliceExecFns};

verus! {

/// JSON insignificant whitespace.
pub open spec fn is_ws(c: char) -> bool {
    c == ' ' || c == '\t' || c == '\n' || c == '\r'
}

/// The first position at or after `i` that does not hold whitespace.
pub open spec fn skip_ws(s: Seq<char>, i: int) -> int
    decreases s.len() - i,
{
    if 0 <= i < s.len() && is_ws(s[i]) {
        skip_ws(s, i + 1)
    } else {
        i
    }
}

pub proof fn lemma_skip_ws_bounds(s: Seq<char>, i: int)
    requires
        0 <= i <= s.len(),
    ensures
        i <= skip_ws(s, i) <= s.len(),
    decreases s.len() - i,
{
    if i < s.len() && is_ws(s[i]) {
        lemma_skip_ws_bounds(s, i + 1);
    }
}

/// The value of one hexadecimal digit, or `None` for any other character.
pub open spec fn hex_digit(c: char) -> Option<int> {
    if '0' as u32 <= c as u32 && c as u32 <= '9' as u32 {
        Some(c as u32 - '0' as u32)
    } else if 'a' as u32 <= c as u32 && c as u32 <= 'f' as u32 {
        Some(c as u32 - 'a' as u32 + 10)
    } else if 'A' as u32 <= c as u32 && c as u32 <= 'F' as u32 {
        Some(c as u32 - 'A' as u32 + 10)
    } else {
        None
    }
}

/// The value of the four hexadecimal digits at `i`, or `None` where they are
/// missing or not all hexadecimal.
pub open spec fn hex4(s: Seq<char>, i: int) -> Option<int> {
    if 0 <= i && i + 4 <= s.len() {
        match (hex_digit(s[i]), hex_digit(s[i + 1]), hex_digit(s[i + 2]), hex_digit(s[i + 3])) {
            (Some(a), Some(b), Some(c), Some(d)) => Some(a * 4096 + b * 256 + c * 16 + d),
            _ => None,
        }
    } else {
        None
    }
}

/// The character denoted by a single-character escape, or `None` where the
/// character may not follow a backslash.
pub open spec fn escape_char(c: char) -> Option<char> {
    if c == '"' {
        Some('"')
    } else if c == '\\' {
        Some('\\')
    } else if c == '/' {
        Some('/')
    } else if c == 'b' {
        Some('\u{8}')
    } else if c == 'f' {
        Some('\u{c}')
    } else if c == 'n' {
        Some('\n')
    } else if c == 'r' {
        Some('\r')
    } else if c == 't' {
        Some('\t')
    } else {
        None
    }
}

/// The remainder of a JSON string whose opening quote stands before `i`:
/// the decoded characters appended to `acc`, and the position after the
/// closing quote. Escapes follow the JSON rules; a supplementary character
/// is written as a surrogate pair of `\u` escapes; an unpaired surrogate,
/// an unescaped control character or a missing closing quote is an error.
pub open spec fn parse_str_body(s: Seq<char>, i: int, acc: Seq<char>) -> Option<(Seq<char>, int)>
    decreases s.len() - i,
{
    if i < 0 || i >= s.len() {
        None
    } else if s[i] == '"' {
        Some((acc, i + 1))
    } else if s[i] == '\\' {
        if i + 1 >= s.len() {
            None
        } else if s[i + 1] == 'u' {
            match hex4(s, i + 2) {
                None => None,
                Some(code) => if 0xD800 <= code < 0xDC00 {
                    if i + 12 <= s.len() && s[i + 6] == '\\' && s[i + 7] == 'u' {
                        match hex4(s, i + 8) {
                            None => None,
                            Some(lo) => if 0xDC00 <= lo < 0xE000 {
                                parse_str_body(
                                    s,
                                    i + 12,
                                    acc.push(
                                        ((0x10000 + (code - 0xD800) * 0x400 + (lo - 0xDC00))
                                            as u32) as char,
                                    ),
                                )
                            } else {
                                None
                            },
                        }
                    } else {
                        None
                    }
                } else if 0xDC00 <= code < 0xE000 {
                    None
                } else {
                    parse_str_body(s, i + 6, acc.push((code as u32) as char))
                },
            }
        } else {
            match escape_char(s[i + 1]) {
                Some(e) => parse_str_body(s, i + 2, acc.push(e)),
                None => None,
            }
        }
    } else if (s[i] as u32) < 0x20 {
        None
    } else {
        parse_str_body(s, i + 1, acc.push(s[i]))
    }
}

/// A JSON string starting at `i`: its decoded characters and the position
/// after its closing quote.
pub open spec fn parse_string(s: Seq<char>, i: int) -> Option<(Seq<char>, int)> {
    if 0 <= i < s.len() && s[i] == '"' {
        parse_str_body(s, i + 1, Seq::empty())
    } else {
        None
    }
}

pub proof fn lemma_str_body_advance(s: Seq<char>, i: int, acc: Seq<char>)
    ensures
        parse_str_body(s, i, acc) matches Some(r) ==> i < r.1 <= s.len(),
    decreases s.len() - i,
{
    if 0 <= i < s.len() {
        if s[i] == '\\' && i + 1 < s.len() {
            if s[i + 1] == 'u' {
                match hex4(s, i + 2) {
                    None => {},
                    Some(code) => if 0xD800 <= code < 0xDC00 {
                        if i + 12 <= s.len() && s[i + 6] == '\\' && s[i + 7] == 'u' {
                            match hex4(s, i + 8) {
                                None => {},
                                Some(lo) => {
                                    lemma_str_body_advance(
                                        s,
                                        i + 12,
                                        acc.push(
                                            ((0x10000 + (code - 0xD800) * 0x400 + (lo - 0xDC00))
                                                as u32) as char,
                                        ),
                                    );
                                },
                            }
                        }
                    } else {
                        lemma_str_body_advance(s, i + 6, acc.push((code as u32) as char));
                    },
                }
            } else {
                match escape_char(s[i + 1]) {
                    Some(e) => {
                        lemma_str_body_advance(s, i + 2, acc.push(e));
                    },
                    None => {},
                }
            }
        } else {
            lemma_str_body_advance(s, i + 1, acc.push(s[i]));
        }
    }
}

pub proof fn lemma_parse_string_advance(s: Seq<char>, i: int)
    ensures
        parse_string(s, i) matches Some(r) ==> i < r.1 <= s.len(),
{
    if 0 <= i < s.len() && s[i] == '"' {
        lemma_str_body_advance(s, i + 1, Seq::empty());
    }
}

/// The elements of a tag array from the first element on (at `i`), appended
/// to `acc`, with the position after the closing bracket.
pub open spec fn parse_tags_rest(s: Seq<char>, i: int, acc: Seq<Seq<char>>) -> Option<
    (Seq<Seq<char>>, int),
>
    decreases s.len() - i,
{
    match parse_string(s, i) {
        None => None,
        Some((v, j)) => {
            let k = skip_ws(s, j);
            if k < s.len() && s[k] == ']' {
                Some((acc.push(v), k + 1))
            } else if k < s.len() && s[k] == ',' {
                proof {
                    lemma_parse_string_advance(s, i);
                    lemma_skip_ws_bounds(s, j);
                    lemma_skip_ws_bounds(s, k + 1);
                }
                parse_tags_rest(s, skip_ws(s, k + 1), acc.push(v))
            } else {
                None
            }
        },
    }
}

/// A tag array starting at `i`: `[]`, or one or more strings separated by
/// commas.
pub open spec fn parse_tags(s: Seq<char>, i: int) -> Option<(Seq<Seq<char>>, int)> {
    if 0 <= i < s.len() && s[i] == '[' {
        let j = skip_ws(s, i + 1);
        if j < s.len() && s[j] == ']' {
            Some((Seq::empty(), j + 1))
        } else {
            parse_tags_rest(s, j, Seq::empty())
        }
    } else {
        None
    }
}

pub proof fn lemma_tags_rest_advance(s: Seq<char>, i: int, acc: Seq<Seq<char>>)
    ensures
        parse_tags_rest(s, i, acc) matches Some(r) ==> i < r.1 <= s.len(),
    decreases s.len() - i,
{
    match parse_string(s, i) {
        None => {},
        Some((v, j)) => {
            lemma_parse_string_advance(s, i);
            let k = skip_ws(s, j);
            lemma_skip_ws_bounds(s, j);
            if k < s.len() && s[k] == ',' {
                lemma_skip_ws_bounds(s, k + 1);
                lemma_tags_rest_advance(s, skip_ws(s, k + 1), acc.push(v));
            }
        },
    }
}

pub proof fn lemma_tags_advance(s: Seq<char>, i: int)
    ensures
        parse_tags(s, i) matches Some(r) ==> i < r.1 <= s.len(),
{
    if 0 <= i < s.len() && s[i] == '[' {
        lemma_skip_ws_bounds(s, i + 1);
        lemma_tags_rest_advance(s, skip_ws(s, i + 1), Seq::empty());
    }
}

/// How many of the three members of a quote object are still missing.
pub open spec fn members_left(
    q: Option<Seq<char>>,
    a: Option<Seq<char>>,
    t: Option<Seq<Seq<char>>>,
) -> int {
    (if q is None { 1int } else { 0int }) + (if a is None { 1int } else { 0int }) + (if t is None {
        1int
    } else {
        0int
    })
}

/// The members of a quote object from the member whose key starts at `i` on.
/// `q`, `a` and `t` hold the members already read; each key must be one of
/// `quote`, `author` and `tags`, not yet seen, with a value of the member's
/// type. Yields the finished quote and the position after the closing brace.
pub open spec fn parse_members(
    s: Seq<char>,
    i: int,
    q: Option<Seq<char>>,
    a: Option<Seq<char>>,
    t: Option<Seq<Seq<char>>>,
) -> Option<(QuoteView, int)>
    decreases members_left(q, a, t), 0int,
{
    match parse_string(s, i) {
        None => None,
        Some((key, j)) => {
            let k = skip_ws(s, j);
            if k < s.len() && s[k] == ':' {
                let m = skip_ws(s, k + 1);
                if key == "quote"@ && q is None {
                    match parse_string(s, m) {
                        Some((v, n)) => parse_after_member(s, n, Some(v), a, t),
                        None => None,
                    }
                } else if key == "author"@ && a is None {
                    match parse_string(s, m) {
                        Some((v, n)) => parse_after_member(s, n, q, Some(v), t),
                        None => None,
                    }
                } else if key == "tags"@ && t is None {
                    match parse_tags(s, m) {
                        Some((v, n)) => parse_after_member(s, n, q, a, Some(v)),
                        None => None,
                    }
                } else {
                    None
                }
            } else {
                None
            }
        },
    }
}

/// After a member's value, ending at `n`: either the closing brace, which
/// finishes the object once all three members are present, or a comma and
/// the next member.
pub open spec fn parse_after_member(
    s: Seq<char>,
    n: int,
    q: Option<Seq<char>>,
    a: Option<Seq<char>>,
    t: Option<Seq<Seq<char>>>,
) -> Option<(QuoteView, int)>
    decreases members_left(q, a, t), 1int,
{
    let p = skip_ws(s, n);
    if p < s.len() && s[p] == '}' {
        match (q, a, t) {
            (Some(qv), Some(av), Some(tv)) => Some(
                (QuoteView { quote: qv, author: av, tags: tv }, p + 1),
            ),
            _ => None,
        }
    } else if p < s.len() && s[p] == ',' {
        parse_members(s, skip_ws(s, p + 1), q, a, t)
    } else {
        None
    }
}

/// A quote object starting at `i`.
pub open spec fn parse_quote_obj(s: Seq<char>, i: int) -> Option<(QuoteView, int)> {
    if 0 <= i < s.len() && s[i] == '{' {
        parse_members(s, skip_ws(s, i + 1), None, None, None)
    } else {
        None
    }
}

pub proof fn lemma_members_advance(
    s: Seq<char>,
    i: int,
    q: Option<Seq<char>>,
    a: Option<Seq<char>>,
    t: Option<Seq<Seq<char>>>,
)
    ensures
        parse_members(s, i, q, a, t) matches Some(r) ==> i < r.1 <= s.len(),
    decreases members_left(q, a, t), 0int,
{
    match parse_string(s, i) {
        None => {},
        Some((key, j)) => {
            lemma_parse_string_advance(s, i);
            let k = skip_ws(s, j);
            lemma_skip_ws_bounds(s, j);
            if k < s.len() && s[k] == ':' {
                let m = skip_ws(s, k + 1);
                lemma_skip_ws_bounds(s, k + 1);
                lemma_parse_string_advance(s, m);
                lemma_tags_advance(s, m);
                if key == "quote"@ && q is None {
                    match parse_string(s, m) {
                        Some((v, n)) => {
                            lemma_after_member_advance(s, n, Some(v), a, t);
                        },
                        None => {},
                    }
                } else if key == "author"@ && a is None {
                    match parse_string(s, m) {
                        Some((v, n)) => {
                            lemma_after_member_advance(s, n, q, Some(v), t);
                        },
                        None => {},
                    }
                } else if key == "tags"@ && t is None {
                    match parse_tags(s, m) {
                        Some((v, n)) => {
                            lemma_after_member_advance(s, n, q, a, Some(v));
                        },
                        None => {},
                    }
                }
            }
        },
    }
}

pub proof fn lemma_after_member_advance(
    s: Seq<char>,
    n: int,
    q: Option<Seq<char>>,
    a: Option<Seq<char>>,
    t: Option<Seq<Seq<char>>>,
)
    requires
        0 <= n <= s.len(),
    ensures
        parse_after_member(s, n, q, a, t) matches Some(r) ==> n < r.1 <= s.len(),
    decreases members_left(q, a, t), 1int,
{
    let p = skip_ws(s, n);
    lemma_skip_ws_bounds(s, n);
    if p < s.len() && s[p] == ',' {
        lemma_skip_ws_bounds(s, p + 1);
        lemma_members_advance(s, skip_ws(s, p + 1), q, a, t);
    }
}

pub proof fn lemma_quote_obj_advance(s: Seq<char>, i: int)
    ensures
        parse_quote_obj(s, i) matches Some(r) ==> i < r.1 <= s.len(),
{
    if 0 <= i < s.len() && s[i] == '{' {
        lemma_skip_ws_bounds(s, i + 1);
        lemma_members_advance(s, skip_ws(s, i + 1), None, None, None);
    }
}

/// The elements of the quotes array from the first element on (at `i`),
/// appended to `acc`, with the position after the closing bracket.
pub open spec fn parse_quotes_rest(s: Seq<char>, i: int, acc: Seq<QuoteView>) -> Option<
    (Seq<QuoteView>, int),
>
    decreases s.len() - i,
{
    match parse_quote_obj(s, i) {
        None => None,
        Some((qv, j)) => {
            let k = skip_ws(s, j);
            if k < s.len() && s[k] == ']' {
                Some((acc.push(qv), k + 1))
            } else if k < s.len() && s[k] == ',' {
                proof {
                    lemma_quote_obj_advance(s, i);
                    lemma_skip_ws_bounds(s, j);
                    lemma_skip_ws_bounds(s, k + 1);
                }
                parse_quotes_rest(s, skip_ws(s, k + 1), acc.push(qv))
            } else {
                None
            }
        },
    }
}

/// The quotes array starting at `i`: `[]`, or one or more quote objects
/// separated by commas.
pub open spec fn parse_quotes_arr(s: Seq<char>, i: int) -> Option<(Seq<QuoteView>, int)> {
    if 0 <= i < s.len() && s[i] == '[' {
        let j = skip_ws(s, i + 1);
        if j < s.len() && s[j] == ']' {
            Some((Seq::empty(), j + 1))
        } else {
            parse_quotes_rest(s, j, Seq::empty())
        }
    } else {
        None
    }
}

/// A whole quotes document: an object with the single member `"quotes"`,
/// holding the quotes array, and nothing but whitespace after it.
pub open spec fn parse_doc(s: Seq<char>) -> Option<Seq<QuoteView>> {
    let i = skip_ws(s, 0);
    if i < s.len() && s[i] == '{' {
        match parse_string(s, skip_ws(s, i + 1)) {
            Some((key, k)) => if key == "quotes"@ {
                let m = skip_ws(s, k);
                if m < s.len() && s[m] == ':' {
                    match parse_quotes_arr(s, skip_ws(s, m + 1)) {
                        Some((qs, p)) => {
                            let r = skip_ws(s, p);
                            if r < s.len() && s[r] == '}' && skip_ws(s, r + 1) == s.len() {
                                Some(qs)
                            } else {
                                None
                            }
                        },
                        None => None,
                    }
                } else {
                    None
                }
            } else {
                None
            },
            None => None,
        }
    } else {
        None
    }
}

/// A document holding one quote object alone, with nothing but whitespace
/// around it.
pub open spec fn parse_quote_doc(s: Seq<char>) -> Option<QuoteView> {
    match parse_quote_obj(s, skip_ws(s, 0)) {
        Some((qv, j)) => if skip_ws(s, j) == s.len() {
            Some(qv)
        } else {
            None
        },
        None => None,
    }
}

/// The one load-time failure: the source text is not a well-formed quotes
/// document. Unreadable input, malformed JSON and schema mismatches are
/// deliberately not told apart.
#[derive(Debug, PartialEq, Eq)]
pub struct ParseError;

/// Relies on char::from_u32: a Unicode scalar value converts to the char with
/// that value; a surrogate or a value above 0x10FFFF gives None.
#[verifier::external_body]
fn char_from_u32(n: u32) -> (r: Option<char>)
    ensures
        r == (if vstd::utf8::is_scalar(n) {
            Some(n as char)
        } else {
            None::<char>
        }),
{
    char::from_u32(n)
}

/// Relies on String's FromIterator<char>: collecting chars yields the string
/// of exactly those chars, in order.
#[verifier::external_body]
fn chars_to_string(v: &Vec<char>) -> (s: String)
    ensures
        s@ == v@,
{
    v.iter().collect()
}

fn is_ws_char(c: char) -> (b: bool)
    ensures
        b == is_ws(c),
{
    c == ' ' || c == '\t' || c == '\n' || c == '\r'
}

fn skip_ws_x(s: &Vec<char>, i: usize) -> (r: usize)
    requires
        i <= s@.len(),
    ensures
        r as int == skip_ws(s@, i as int),
        i <= r <= s@.len(),
{
    let mut j: usize = i;
    while j < s.len() && is_ws_char(s[j])
        invariant
            i <= j <= s@.len(),
            skip_ws(s@, i as int) == skip_ws(s@, j as int),
        decreases s@.len() - j,
    {
        j = j + 1;
    }
    j
}

fn hex_digit_x(c: char) -> (r: Option<u32>)
    ensures
        match r {
            Some(v) => hex_digit(c) == Some(v as int) && v < 16,
            None => hex_digit(c) is None,
        },
{
    let u = c as u32;
    if '0' as u32 <= u && u <= '9' as u32 {
        Some(u - '0' as u32)
    } else if 'a' as u32 <= u && u <= 'f' as u32 {
        Some(u - 'a' as u32 + 10)
    } else if 'A' as u32 <= u && u <= 'F' as u32 {
        Some(u - 'A' as u32 + 10)
    } else {
        None
    }
}

fn hex4_x(s: &Vec<char>, i: usize) -> (r: Option<u32>)
    requires
        i <= s@.len(),
    ensures
        match r {
            Some(v) => hex4(s@, i as int) == Some(v as int) && v <= 0xFFFF,
            None => hex4(s@, i as int) is None,
        },
{
    if s.len() - i < 4 {
        return None;
    }
    match (hex_digit_x(s[i]), hex_digit_x(s[i + 1]), hex_digit_x(s[i + 2]), hex_digit_x(s[i + 3])) {
        (Some(a), Some(b), Some(c), Some(d)) => Some(a * 4096 + b * 256 + c * 16 + d),
        _ => None,
    }
}

fn escape_char_x(c: char) -> (r: Option<char>)
    ensures
        r == escape_char(c),
{
    if c == '"' {
        Some('"')
    } else if c == '\\' {
        Some('\\')
    } else if c == '/' {
        Some('/')
    } else if c == 'b' {
        Some('\u{8}')
    } else if c == 'f' {
        Some('\u{c}')
    } else if c == 'n' {
        Some('\n')
    } else if c == 'r' {
        Some('\r')
    } else if c == 't' {
        Some('\t')
    } else {
        None
    }
}

fn parse_string_x(s: &Vec<char>, i: usize) -> (r: Option<(String, usize)>)
    requires
        i <= s@.len(),
    ensures
        match r {
            Some(p) => parse_string(s@, i as int) == Some((p.0@, p.1 as int)) && i < p.1
                <= s@.len(),
            None => parse_string(s@, i as int) is None,
        },
{
    if !(i < s.len() && s[i] == '"') {
        return None;
    }
    let mut j: usize = i + 1;
    let mut acc: Vec<char> = Vec::new();
    loop
        invariant
            i + 1 <= j <= s@.len(),
            parse_string(s@, i as int) == parse_str_body(s@, j as int, acc@),
        decreases s@.len() - j,
    {
        if j == s.len() {
            return None;
        }
        let c = s[j];
        if c == '"' {
            let out = chars_to_string(&acc);
            return Some((out, j + 1));
        } else if c == '\\' {
            if s.len() - j < 2 {
                return None;
            }
            let e = s[j + 1];
            if e == 'u' {
                match hex4_x(s, j + 2) {
                    None => {
                        return None;
                    },
                    Some(code) => {
                        if 0xD800 <= code && code < 0xDC00 {
                            if s.len() - j >= 12 && s[j + 6] == '\\' && s[j + 7] == 'u' {
                                match hex4_x(s, j + 8) {
                                    None => {
                                        return None;
                                    },
                                    Some(lo) => {
                                        if 0xDC00 <= lo && lo < 0xE000 {
                                            let cp: u32 = 0x10000 + (code - 0xD800) * 0x400 + (lo
                                                - 0xDC00);
                                            let ch = char_from_u32(cp).unwrap();
                                            acc.push(ch);
                                            j = j + 12;
                                        } else {
                                            return None;
                                        }
                                    },
                                }
                            } else {
                                return None;
                            }
                        } else if 0xDC00 <= code && code < 0xE000 {
                            return None;
                        } else {
                            let ch = char_from_u32(code).unwrap();
                            acc.push(ch);
                            j = j + 6;
                        }
                    },
                }
            } else {
                match escape_char_x(e) {
                    Some(ec) => {
                        acc.push(ec);
                        j = j + 2;
                    },
                    None => {
                        return None;
                    },
                }
            }
        } else if (c as u32) < 0x20 {
            return None;
        } else {
            acc.push(c);
            j = j + 1;
        }
    }
}

fn parse_tags_x(s: &Vec<char>, i: usize) -> (r: Option<(Vec<String>, usize)>)
    requires
        i <= s@.len(),
    ensures
        match r {
            Some(p) => parse_tags(s@, i as int) == Some((p.0.deep_view(), p.1 as int)) && i < p.1
                <= s@.len(),
            None => parse_tags(s@, i as int) is None,
        },
{
    if !(i < s.len() && s[i] == '[') {
        return None;
    }
    let j = skip_ws_x(s, i + 1);
    if j < s.len() && s[j] == ']' {
        let empty: Vec<String> = Vec::new();
        proof {
            assert(empty.deep_view() =~= Seq::<Seq<char>>::empty());
        }
        return Some((empty, j + 1));
    }
    let mut pos: usize = j;
    let mut acc: Vec<String> = Vec::new();
    proof {
        assert(acc.deep_view() =~= Seq::<Seq<char>>::empty());
    }
    loop
        invariant
            i < pos <= s@.len(),
            parse_tags(s@, i as int) == parse_tags_rest(s@, pos as int, acc.deep_view()),
        decreases s@.len() - pos,
    {
        match parse_string_x(s, pos) {
            None => {
                return None;
            },
            Some((v, n)) => {
                let k = skip_ws_x(s, n);
                let ghost old_acc = acc.deep_view();
                acc.push(v);
                proof {
                    assert(acc.deep_view() =~= old_acc.push(v@));
                }
                if k < s.len() && s[k] == ']' {
                    return Some((acc, k + 1));
                } else if k < s.len() && s[k] == ',' {
                    pos = skip_ws_x(s, k + 1);
                } else {
                    return None;
                }
            },
        }
    }
}

fn parse_quote_obj_x(s: &Vec<char>, i: usize) -> (r: Option<(Quote, usize)>)
    requires
        i <= s@.len(),
    ensures
        match r {
            Some(p) => parse_quote_obj(s@, i as int) == Some((p.0@, p.1 as int)) && i < p.1
                <= s@.len(),
            None => parse_quote_obj(s@, i as int) is None,
        },
{
    if !(i < s.len() && s[i] == '{') {
        return None;
    }
    let mut pos: usize = skip_ws_x(s, i + 1);
    let mut q: Option<String> = None;
    let mut a: Option<String> = None;
    let mut t: Option<Vec<String>> = None;
    loop
        invariant
            i < pos <= s@.len(),
            parse_quote_obj(s@, i as int) == parse_members(
                s@,
                pos as int,
                q.deep_view(),
                a.deep_view(),
                t.deep_view(),
            ),
        decreases s@.len() - pos,
    {
        match parse_string_x(s, pos) {
            None => {
                return None;
            },
            Some((key, j)) => {
                let k = skip_ws_x(s, j);
                if !(k < s.len() && s[k] == ':') {
                    return None;
                }
                let m = skip_ws_x(s, k + 1);
                let n: usize;
                if key == String::from_str("quote") && q.is_none() {
                    match parse_string_x(s, m) {
                        Some((v, n2)) => {
                            q = Some(v);
                            n = n2;
                        },
                        None => {
                            return None;
                        },
                    }
                } else if key == String::from_str("author") && a.is_none() {
                    match parse_string_x(s, m) {
                        Some((v, n2)) => {
                            a = Some(v);
                            n = n2;
                        },
                        None => {
                            return None;
                        },
                    }
                } else if key == String::from_str("tags") && t.is_none() {
                    match parse_tags_x(s, m) {
                        Some((v, n2)) => {
                            t = Some(v);
                            n = n2;
                        },
                        None => {
                            return None;
                        },
                    }
                } else {
                    return None;
                }
                let p = skip_ws_x(s, n);
                if p < s.len() && s[p] == '}' {
                    if q.is_some() && a.is_some() && t.is_some() {
                        let quote = Quote { quote: q.unwrap(), author: a.unwrap(), tags: t.unwrap() };
                        return Some((quote, p + 1));
                    }
                    return None;
                } else if p < s.len() && s[p] == ',' {
                    pos = skip_ws_x(s, p + 1);
                } else {
                    return None;
                }
            },
        }
    }
}

fn parse_quotes_arr_x(s: &Vec<char>, i: usize) -> (r: Option<(Vec<Quote>, usize)>)
    requires
        i <= s@.len(),
    ensures
        match r {
            Some(p) => parse_quotes_arr(s@, i as int) == Some((p.0.deep_view(), p.1 as int)) && i
                < p.1 <= s@.len(),
            None => parse_quotes_arr(s@, i as int) is None,
        },
{
    if !(i < s.len() && s[i] == '[') {
        return None;
    }
    let j = skip_ws_x(s, i + 1);
    if j < s.len() && s[j] == ']' {
        let empty: Vec<Quote> = Vec::new();
        proof {
            assert(empty.deep_view() =~= Seq::<QuoteView>::empty());
        }
        return Some((empty, j + 1));
    }
    let mut pos: usize = j;
    let mut acc: Vec<Quote> = Vec::new();
    proof {
        assert(acc.deep_view() =~= Seq::<QuoteView>::empty());
    }
    loop
        invariant
            i < pos <= s@.len(),
            parse_quotes_arr(s@, i as int) == parse_quotes_rest(s@, pos as int, acc.deep_view()),
        decreases s@.len() - pos,
    {
        match parse_quote_obj_x(s, pos) {
            None => {
                return None;
            },
            Some((quote, n)) => {
                let k = skip_ws_x(s, n);
                let ghost old_acc = acc.deep_view();
                acc.push(quote);
                proof {
                    assert(acc.deep_view() =~= old_acc.push(acc@[old_acc.len() as int]@));
                }
                if k < s.len() && s[k] == ']' {
                    return Some((acc, k + 1));
                } else if k < s.len() && s[k] == ',' {
                    pos = skip_ws_x(s, k + 1);
                } else {
                    return None;
                }
            },
        }
    }
}

fn str_to_chars(text: &str) -> (v: Vec<char>)
    ensures
        v@ == text@,
{
    let n = text.unicode_len();
    let mut v: Vec<char> = Vec::new();
    let mut i: usize = 0;
    while i < n
        invariant
            n == text@.len(),
            i <= n,
            v@ == text@.subrange(0, i as int),
        decreases n - i,
    {
        let c = text.get_char(i);
        v.push(c);
        proof {
            assert(v@ =~= text@.subrange(0, i + 1));
        }
        i = i + 1;
    }
    proof {
        assert(text@.subrange(0, n as int) =~= text@);
    }
    v
}

/// Parse a quotes document. `Ok` holds exactly the collection the grammar
/// assigns to the text; any text outside the grammar is an error.
pub fn load(text: &str) -> (r: Result<AllQuotes, ParseError>)
    ensures
        match r {
            Ok(c) => parse_doc(text@) == Some(c@),
            Err(_) => parse_doc(text@) is None,
        },
{
    let s = str_to_chars(text);
    let i = skip_ws_x(&s, 0);
    if !(i < s.len() && s[i] == '{') {
        return Err(ParseError);
    }
    let j = skip_ws_x(&s, i + 1);
    match parse_string_x(&s, j) {
        None => Err(ParseError),
        Some((key, k)) => {
            if !(key == String::from_str("quotes")) {
                return Err(ParseError);
            }
            let m = skip_ws_x(&s, k);
            if !(m < s.len() && s[m] == ':') {
                return Err(ParseError);
            }
            let n = skip_ws_x(&s, m + 1);
            match parse_quotes_arr_x(&s, n) {
                None => Err(ParseError),
                Some((quotes, p)) => {
                    let r2 = skip_ws_x(&s, p);
                    if !(r2 < s.len() && s[r2] == '}') {
                        return Err(ParseError);
                    }
                    let e = skip_ws_x(&s, r2 + 1);
                    if e == s.len() {
                        Ok(AllQuotes { quotes })
                    } else {
                        Err(ParseError)
                    }
                },
            }
        },
    }
}

/// Parse a document holding one quote object alone.
pub fn parse_quote(text: &str) -> (r: Result<Quote, ParseError>)
    ensures
        match r {
            Ok(q) => parse_quote_doc(text@) == Some(q@),
            Err(_) => parse_quote_doc(text@) is None,
        },
{
    let s = str_to_chars(text);
    let i = skip_ws_x(&s, 0);
    match parse_quote_obj_x(&s, i) {
        None => Err(ParseError),
        Some((quote, j)) => {
            let e = skip_ws_x(&s, j);
            if e == s.len() {
                Ok(quote)
            } else {
                Err(ParseError)
            }
        },
    }
}

} // verus!
