//! The JSON wire form used by the gateway, as a verified lexer and renderer
//! over characters.
//!
//! The token layer is deliberately scoped to what the gateway's wire format
//! uses: objects, arrays, strings, integers and `null`. Escapes `\uXXXX` are
//! accepted for ASCII code points; floating-point numbers are not part of the
//! format and are rejected.

use vstd::prelude::*;
use crate::strutil::{chars_to_string, string_to_chars};

verus! {

/// Why a JSON text was rejected: it does not lex (`Syntax`), or its token
/// stream does not match the expected record shape (`Shape`).
#[derive(Debug, Clone, Copy, PartialEq, Eq, Structural)]
pub enum JsonError {
    Syntax,
    Shape,
}

/// One lexical token of the wire format.
#[derive(Debug, Clone)]
pub enum JsonToken {
    LBrace,
    RBrace,
    LBracket,
    RBracket,
    Colon,
    Comma,
    Null,
    Int(i64),
    Str(String),
}

/// Mathematical view of a token: integers unbounded, strings as sequences.
pub enum JsonTokenView {
    LBrace,
    RBrace,
    LBracket,
    RBracket,
    Colon,
    Comma,
    Null,
    Int(int),
    Str(Seq<char>),
}

impl View for JsonToken {
    type V = JsonTokenView;

    open spec fn view(&self) -> JsonTokenView {
        match self {
            JsonToken::LBrace => JsonTokenView::LBrace,
            JsonToken::RBrace => JsonTokenView::RBrace,
            JsonToken::LBracket => JsonTokenView::LBracket,
            JsonToken::RBracket => JsonTokenView::RBracket,
            JsonToken::Colon => JsonTokenView::Colon,
            JsonToken::Comma => JsonTokenView::Comma,
            JsonToken::Null => JsonTokenView::Null,
            JsonToken::Int(n) => JsonTokenView::Int(*n as int),
            JsonToken::Str(s) => JsonTokenView::Str(s@),
        }
    }
}

/// The views of a token sequence.
pub open spec fn toks_view(ts: Seq<JsonToken>) -> Seq<JsonTokenView> {
    ts.map_values(|t: JsonToken| t@)
}

/// Insignificant whitespace between tokens.
pub open spec fn is_ws_char(c: char) -> bool {
    c == ' ' || c == '\n' || c == '\t' || c == '\r'
}

/// A decimal digit.
pub open spec fn is_digit(c: char) -> bool {
    48 <= c as u32 <= 57
}

/// The value of a decimal digit.
pub open spec fn digit_val(c: char) -> int {
    c as u32 - 48
}

/// The value of a hexadecimal digit, or `None`.
pub open spec fn spec_hex_val(c: char) -> Option<int> {
    let u = c as u32;
    if 48 <= u <= 57 {
        Option::Some((u - 48) as int)
    } else if 97 <= u <= 102 {
        Option::Some((u - 87) as int)
    } else if 65 <= u <= 70 {
        Option::Some((u - 55) as int)
    } else {
        Option::None
    }
}

/// The code point named by four hexadecimal digits.
pub open spec fn spec_hex4(a: char, b: char, c: char, d: char) -> Option<int> {
    match (spec_hex_val(a), spec_hex_val(b), spec_hex_val(c), spec_hex_val(d)) {
        (Option::Some(x), Option::Some(y), Option::Some(z), Option::Some(w)) => Option::Some(
            x * 4096 + y * 256 + z * 16 + w,
        ),
        _ => Option::None,
    }
}

/// The character of an ASCII code point.
pub open spec fn spec_char_of_ascii(v: int) -> char {
    (v as u8) as char
}

/// The character named by a single-letter escape, or `None`.
pub open spec fn spec_unescape_char(e: char) -> Option<char> {
    if e == '"' {
        Option::Some('"')
    } else if e == '\\' {
        Option::Some('\\')
    } else if e == '/' {
        Option::Some('/')
    } else if e == 'n' {
        Option::Some('\n')
    } else if e == 'r' {
        Option::Some('\r')
    } else if e == 't' {
        Option::Some('\t')
    } else if e == 'b' {
        Option::Some('\u{8}')
    } else if e == 'f' {
        Option::Some('\u{c}')
    } else {
        Option::None
    }
}

/// Scans the body of a string literal (the opening quote already consumed):
/// the decoded characters and the suffix after the closing quote, or `None`
/// when the literal is unterminated or holds a bad escape or a bare control
/// character.
pub open spec fn spec_scan_string(s: Seq<char>) -> Option<(Seq<char>, Seq<char>)>
    decreases s.len(),
{
    if s.len() == 0 {
        Option::None
    } else if s[0] == '"' {
        Option::Some((Seq::empty(), s.skip(1)))
    } else if s[0] == '\\' {
        if s.len() < 2 {
            Option::None
        } else if s[1] == 'u' {
            if s.len() < 6 {
                Option::None
            } else {
                match spec_hex4(s[2], s[3], s[4], s[5]) {
                    Option::Some(v) => if v < 128 {
                        match spec_scan_string(s.skip(6)) {
                            Option::Some(p) => Option::Some(
                                (seq![spec_char_of_ascii(v)] + p.0, p.1),
                            ),
                            Option::None => Option::None,
                        }
                    } else {
                        Option::None
                    },
                    Option::None => Option::None,
                }
            }
        } else {
            match spec_unescape_char(s[1]) {
                Option::Some(c) => match spec_scan_string(s.skip(2)) {
                    Option::Some(p) => Option::Some((seq![c] + p.0, p.1)),
                    Option::None => Option::None,
                },
                Option::None => Option::None,
            }
        }
    } else if (s[0] as u32) < 32 {
        Option::None
    } else {
        match spec_scan_string(s.skip(1)) {
            Option::Some(p) => Option::Some((seq![s[0]] + p.0, p.1)),
            Option::None => Option::None,
        }
    }
}

/// A successful string scan consumes at least the closing quote.
pub proof fn lemma_scan_string_shorter(s: Seq<char>)
    ensures
        match spec_scan_string(s) {
            Option::Some(p) => p.1.len() < s.len(),
            Option::None => true,
        },
    decreases s.len(),
{
    if s.len() == 0 {
    } else if s[0] == '"' {
    } else if s[0] == '\\' {
        if s.len() >= 6 && s[1] == 'u' {
            lemma_scan_string_shorter(s.skip(6));
        }
        if s.len() >= 2 {
            lemma_scan_string_shorter(s.skip(2));
        }
    } else {
        lemma_scan_string_shorter(s.skip(1));
    }
}

/// Splits `s` into its longest leading run of decimal digits and the rest.
pub open spec fn spec_scan_digits(s: Seq<char>) -> (Seq<char>, Seq<char>)
    decreases s.len(),
{
    if s.len() == 0 || !is_digit(s[0]) {
        (Seq::empty(), s)
    } else {
        let p = spec_scan_digits(s.skip(1));
        (seq![s[0]] + p.0, p.1)
    }
}

/// The digit run and the rest together carry every character of `s`.
pub proof fn lemma_scan_digits_len(s: Seq<char>)
    ensures
        spec_scan_digits(s).0.len() + spec_scan_digits(s).1.len() == s.len(),
    decreases s.len(),
{
    if s.len() != 0 && is_digit(s[0]) {
        lemma_scan_digits_len(s.skip(1));
    }
}

/// The value of a run of decimal digits, most significant first.
pub open spec fn spec_digits_val(d: Seq<char>) -> int
    decreases d.len(),
{
    if d.len() == 0 {
        0
    } else {
        spec_digits_val(d.drop_last()) * 10 + digit_val(d.last())
    }
}

/// Appends one token in front of a token stream, propagating failure.
pub open spec fn cons_tok(
    t: JsonTokenView,
    rest: Option<Seq<JsonTokenView>>,
) -> Option<Seq<JsonTokenView>> {
    match rest {
        Option::Some(ts) => Option::Some(seq![t] + ts),
        Option::None => Option::None,
    }
}

/// Lexes a JSON text into its token stream, or `None` when some character
/// fits no token, a string literal is bad, or an integer leaves `i64` range.
pub open spec fn spec_tokenize(s: Seq<char>) -> Option<Seq<JsonTokenView>>
    decreases s.len(),
    via spec_tokenize_decreases
{
    if s.len() == 0 {
        Option::Some(Seq::empty())
    } else if is_ws_char(s[0]) {
        spec_tokenize(s.skip(1))
    } else if s[0] == '{' {
        cons_tok(JsonTokenView::LBrace, spec_tokenize(s.skip(1)))
    } else if s[0] == '}' {
        cons_tok(JsonTokenView::RBrace, spec_tokenize(s.skip(1)))
    } else if s[0] == '[' {
        cons_tok(JsonTokenView::LBracket, spec_tokenize(s.skip(1)))
    } else if s[0] == ']' {
        cons_tok(JsonTokenView::RBracket, spec_tokenize(s.skip(1)))
    } else if s[0] == ':' {
        cons_tok(JsonTokenView::Colon, spec_tokenize(s.skip(1)))
    } else if s[0] == ',' {
        cons_tok(JsonTokenView::Comma, spec_tokenize(s.skip(1)))
    } else if s[0] == '"' {
        match spec_scan_string(s.skip(1)) {
            Option::Some(p) => cons_tok(JsonTokenView::Str(p.0), spec_tokenize(p.1)),
            Option::None => Option::None,
        }
    } else if s[0] == 'n' {
        if s.len() >= 4 && s[1] == 'u' && s[2] == 'l' && s[3] == 'l' {
            cons_tok(JsonTokenView::Null, spec_tokenize(s.skip(4)))
        } else {
            Option::None
        }
    } else if s[0] == '-' || is_digit(s[0]) {
        let body = if s[0] == '-' {
            s.skip(1)
        } else {
            s
        };
        let p = spec_scan_digits(body);
        if p.0.len() == 0 {
            Option::None
        } else {
            let v = spec_digits_val(p.0);
            let n = if s[0] == '-' {
                -v
            } else {
                v
            };
            if i64::MIN <= n <= i64::MAX {
                cons_tok(JsonTokenView::Int(n), spec_tokenize(p.1))
            } else {
                Option::None
            }
        }
    } else {
        Option::None
    }
}

#[via_fn]
proof fn spec_tokenize_decreases(s: Seq<char>) {
    if s.len() >= 1 {
        lemma_scan_string_shorter(s.skip(1));
        lemma_scan_digits_len(s);
        lemma_scan_digits_len(s.skip(1));
    }
}

/// The decimal rendering of a non-negative integer, no leading zeros.
pub open spec fn spec_render_nat(n: int) -> Seq<char>
    decreases n,
{
    if n < 10 {
        seq![digit_char(if n < 0 { 0 } else { n })]
    } else {
        spec_render_nat(n / 10).push(digit_char(n % 10))
    }
}

/// The canonical decimal rendering of an integer.
pub open spec fn spec_render_int(n: int) -> Seq<char> {
    if n < 0 {
        seq!['-'] + spec_render_nat(-n)
    } else {
        spec_render_nat(n)
    }
}

/// The digit character of a value below ten.
pub open spec fn digit_char(d: int) -> char {
    if d == 0 {
        '0'
    } else if d == 1 {
        '1'
    } else if d == 2 {
        '2'
    } else if d == 3 {
        '3'
    } else if d == 4 {
        '4'
    } else if d == 5 {
        '5'
    } else if d == 6 {
        '6'
    } else if d == 7 {
        '7'
    } else if d == 8 {
        '8'
    } else {
        '9'
    }
}

/// The lowercase hexadecimal digit character of a value below sixteen.
pub open spec fn hex_char(d: int) -> char {
    if d < 10 {
        digit_char(d)
    } else if d == 10 {
        'a'
    } else if d == 11 {
        'b'
    } else if d == 12 {
        'c'
    } else if d == 13 {
        'd'
    } else if d == 14 {
        'e'
    } else {
        'f'
    }
}

/// The escaped rendering of one character inside a string literal.
pub open spec fn spec_escape_char(c: char) -> Seq<char> {
    if c == '"' {
        seq!['\\', '"']
    } else if c == '\\' {
        seq!['\\', '\\']
    } else if c == '\n' {
        seq!['\\', 'n']
    } else if c == '\r' {
        seq!['\\', 'r']
    } else if c == '\t' {
        seq!['\\', 't']
    } else if (c as u32) < 32 {
        seq!['\\', 'u', '0', '0', hex_char(c as u32 as int / 16), hex_char(c as u32 as int % 16)]
    } else {
        seq![c]
    }
}

/// The escaped rendering of a string body.
pub open spec fn spec_escape(s: Seq<char>) -> Seq<char>
    decreases s.len(),
{
    if s.len() == 0 {
        Seq::empty()
    } else {
        spec_escape_char(s[0]) + spec_escape(s.skip(1))
    }
}

/// The rendering of one token.
pub open spec fn spec_render_token(t: JsonTokenView) -> Seq<char> {
    match t {
        JsonTokenView::LBrace => seq!['{'],
        JsonTokenView::RBrace => seq!['}'],
        JsonTokenView::LBracket => seq!['['],
        JsonTokenView::RBracket => seq![']'],
        JsonTokenView::Colon => seq![':'],
        JsonTokenView::Comma => seq![','],
        JsonTokenView::Null => seq!['n', 'u', 'l', 'l'],
        JsonTokenView::Int(n) => spec_render_int(n),
        JsonTokenView::Str(s) => seq!['"'] + spec_escape(s) + seq!['"'],
    }
}

/// The compact rendering of a token stream: tokens in order, no whitespace.
pub open spec fn spec_render_tokens(ts: Seq<JsonTokenView>) -> Seq<char>
    decreases ts.len(),
{
    if ts.len() == 0 {
        Seq::empty()
    } else {
        spec_render_token(ts[0]) + spec_render_tokens(ts.skip(1))
    }
}

/// Prepends a rendered prefix to the outcome of lexing the remaining text.
pub open spec fn combine_toks(
    prefix: Seq<JsonTokenView>,
    rest: Option<Seq<JsonTokenView>>,
) -> Option<Seq<JsonTokenView>> {
    match rest {
        Option::Some(ts) => Option::Some(prefix + ts),
        Option::None => Option::None,
    }
}

proof fn lemma_combine_cons(
    prefix: Seq<JsonTokenView>,
    tv: JsonTokenView,
    rest: Option<Seq<JsonTokenView>>,
)
    ensures
        combine_toks(prefix, cons_tok(tv, rest)) == combine_toks(prefix.push(tv), rest),
{
    match rest {
        Option::Some(ts) => {
            assert(prefix + (seq![tv] + ts) =~= prefix.push(tv) + ts);
        },
        Option::None => {},
    }
}

fn hex_val_exec(c: char) -> (r: Option<u8>)
    ensures
        match r {
            Option::Some(v) => spec_hex_val(c) == Option::Some(v as int),
            Option::None => spec_hex_val(c) is None,
        },
{
    let u = c as u32;
    if 48 <= u && u <= 57 {
        Option::Some((u - 48) as u8)
    } else if 97 <= u && u <= 102 {
        Option::Some((u - 87) as u8)
    } else if 65 <= u && u <= 70 {
        Option::Some((u - 55) as u8)
    } else {
        Option::None
    }
}

fn unescape_exec(e: char) -> (r: Option<char>)
    ensures
        r == spec_unescape_char(e),
{
    if e == '"' {
        Option::Some('"')
    } else if e == '\\' {
        Option::Some('\\')
    } else if e == '/' {
        Option::Some('/')
    } else if e == 'n' {
        Option::Some('\n')
    } else if e == 'r' {
        Option::Some('\r')
    } else if e == 't' {
        Option::Some('\t')
    } else if e == 'b' {
        Option::Some('\u{8}')
    } else if e == 'f' {
        Option::Some('\u{c}')
    } else {
        Option::None
    }
}

/// Scans a string literal's body starting at `start` (just after the opening
/// quote); on success returns the decoded characters and the position just
/// after the closing quote.
fn scan_string_exec(s: &Vec<char>, start: usize) -> (r: Result<(Vec<char>, usize), JsonError>)
    requires
        start <= s@.len(),
    ensures
        match r {
            Ok(p) => start < p.1 <= s@.len() && spec_scan_string(s@.skip(start as int))
                == Option::Some((p.0@, s@.skip(p.1 as int))),
            Err(e) => spec_scan_string(s@.skip(start as int)) is None && e == JsonError::Syntax,
        },
{
    let n = s.len();
    let mut acc: Vec<char> = Vec::new();
    let mut cur: usize = start;
    while cur < n
        invariant
            start <= cur <= n,
            n == s@.len(),
            forall|t: Seq<char>, rest: Seq<char>|
                spec_scan_string(s@.skip(cur as int)) == Option::Some((t, rest))
                    ==> spec_scan_string(s@.skip(start as int)) == Option::Some((acc@ + t, rest)),
            spec_scan_string(s@.skip(cur as int)) is None ==> spec_scan_string(
                s@.skip(start as int),
            ) is None,
        decreases n - cur,
    {
        let ghost pre = s@.skip(cur as int);
        let c = s[cur];
        proof {
            assert(pre[0] == c);
        }
        if c == '"' {
            proof {
                assert(pre.skip(1) =~= s@.skip(cur + 1));
                assert(spec_scan_string(pre) == Option::Some(
                    (Seq::<char>::empty(), s@.skip(cur + 1)),
                ));
                assert(acc@ + Seq::<char>::empty() =~= acc@);
            }
            return Ok((acc, cur + 1));
        } else if c == '\\' {
            if n - cur < 2 {
                proof {
                    assert(pre.len() < 2);
                }
                return Err(JsonError::Syntax);
            }
            let e = s[cur + 1];
            proof {
                assert(pre[1] == e);
            }
            if e == 'u' {
                if n - cur < 6 {
                    proof {
                        assert(pre.len() < 6);
                    }
                    return Err(JsonError::Syntax);
                }
                let h0 = hex_val_exec(s[cur + 2]);
                let h1 = hex_val_exec(s[cur + 3]);
                let h2 = hex_val_exec(s[cur + 4]);
                let h3 = hex_val_exec(s[cur + 5]);
                proof {
                    assert(pre[2] == s@[cur + 2]);
                    assert(pre[3] == s@[cur + 3]);
                    assert(pre[4] == s@[cur + 4]);
                    assert(pre[5] == s@[cur + 5]);
                }
                match (h0, h1, h2, h3) {
                    (Option::Some(x), Option::Some(y), Option::Some(z), Option::Some(w)) => {
                        let v: u32 = (x as u32) * 4096 + (y as u32) * 256 + (z as u32) * 16
                            + (w as u32);
                        proof {
                            assert(spec_hex4(pre[2], pre[3], pre[4], pre[5]) == Option::Some(
                                v as int,
                            ));
                        }
                        if v < 128 {
                            let dc = (v as u8) as char;
                            let ghost prev = acc@;
                            acc.push(dc);
                            proof {
                                assert(dc == spec_char_of_ascii(v as int));
                                assert(pre.skip(6) =~= s@.skip(cur + 6));
                                assert(acc@ =~= prev + seq![dc]);
                                assert forall|t: Seq<char>, rest: Seq<char>|
                                    spec_scan_string(s@.skip(cur + 6)) == Option::Some((t, rest))
                                        implies spec_scan_string(s@.skip(start as int))
                                        == Option::Some((acc@ + t, rest)) by {
                                    assert(spec_scan_string(pre) == Option::Some(
                                        (seq![dc] + t, rest),
                                    ));
                                    assert(prev + (seq![dc] + t) =~= acc@ + t);
                                }
                            }
                            cur = cur + 6;
                        } else {
                            return Err(JsonError::Syntax);
                        }
                    },
                    _ => {
                        proof {
                            assert(spec_hex4(pre[2], pre[3], pre[4], pre[5]) is None);
                        }
                        return Err(JsonError::Syntax);
                    },
                }
            } else {
                match unescape_exec(e) {
                    Option::Some(dc) => {
                        let ghost prev = acc@;
                        acc.push(dc);
                        proof {
                            assert(pre.skip(2) =~= s@.skip(cur + 2));
                            assert(acc@ =~= prev + seq![dc]);
                            assert forall|t: Seq<char>, rest: Seq<char>|
                                spec_scan_string(s@.skip(cur + 2)) == Option::Some((t, rest))
                                    implies spec_scan_string(s@.skip(start as int)) == Option::Some(
                                    (acc@ + t, rest),
                                ) by {
                                assert(spec_scan_string(pre) == Option::Some((seq![dc] + t, rest)));
                                assert(prev + (seq![dc] + t) =~= acc@ + t);
                            }
                        }
                        cur = cur + 2;
                    },
                    Option::None => {
                        return Err(JsonError::Syntax);
                    },
                }
            }
        } else if (c as u32) < 32 {
            return Err(JsonError::Syntax);
        } else {
            let ghost prev = acc@;
            acc.push(c);
            proof {
                assert(pre.skip(1) =~= s@.skip(cur + 1));
                assert(acc@ =~= prev + seq![c]);
                assert forall|t: Seq<char>, rest: Seq<char>|
                    spec_scan_string(s@.skip(cur + 1)) == Option::Some((t, rest))
                        implies spec_scan_string(s@.skip(start as int)) == Option::Some(
                        (acc@ + t, rest),
                    ) by {
                    assert(spec_scan_string(pre) == Option::Some((seq![c] + t, rest)));
                    assert(prev + (seq![c] + t) =~= acc@ + t);
                }
            }
            cur = cur + 1;
        }
    }
    proof {
        assert(s@.skip(cur as int).len() == 0);
    }
    Err(JsonError::Syntax)
}

/// When the first `k` characters of `s` are digits and the `k`-th is not,
/// the digit scan splits `s` exactly there.
proof fn lemma_scan_digits_run(s: Seq<char>, k: int)
    requires
        0 <= k <= s.len(),
        forall|j: int| 0 <= j < k ==> is_digit(#[trigger] s[j]),
        k == s.len() || !is_digit(s[k]),
    ensures
        spec_scan_digits(s) == (s.subrange(0, k), s.skip(k)),
    decreases k,
{
    if k == 0 {
        assert(s.subrange(0, 0) =~= Seq::<char>::empty());
        assert(s.skip(0) =~= s);
    } else {
        lemma_scan_digits_run(s.skip(1), k - 1);
        assert(seq![s[0]] + s.skip(1).subrange(0, k - 1) =~= s.subrange(0, k));
        assert(s.skip(1).skip(k - 1) =~= s.skip(k));
    }
}

/// Scans an integer token starting at `start` (a minus sign or a digit);
/// on success returns its value and the position just after the digit run.
fn scan_int_exec(s: &Vec<char>, start: usize) -> (r: Result<(i64, usize), JsonError>)
    requires
        start < s@.len(),
        s@[start as int] == '-' || is_digit(s@[start as int]),
    ensures
        ({
            let neg = s@[start as int] == '-';
            let body = if neg {
                s@.skip(start + 1)
            } else {
                s@.skip(start as int)
            };
            let p = spec_scan_digits(body);
            let nv = if neg {
                -spec_digits_val(p.0)
            } else {
                spec_digits_val(p.0)
            };
            match r {
                Ok(q) => p.0.len() > 0 && i64::MIN <= nv <= i64::MAX && q.0 as int == nv && start
                    < q.1 <= s@.len() && s@.skip(q.1 as int) == p.1,
                Err(e) => (p.0.len() == 0 || nv < i64::MIN || nv > i64::MAX) && e
                    == JsonError::Syntax,
            }
        }),
{
    let n = s.len();
    let neg = s[start] == '-';
    let ds: usize = if neg {
        start + 1
    } else {
        start
    };
    let ghost body = s@.skip(ds as int);
    let mut i: usize = ds;
    let mut acc: u64 = 0;
    let mut overflow = false;
    while i < n
        invariant
            ds <= i <= n,
            n == s@.len(),
            body == s@.skip(ds as int),
            forall|j: int| ds <= j < i ==> is_digit(#[trigger] s@[j]),
            !overflow ==> acc as int == spec_digits_val(s@.subrange(ds as int, i as int)),
            overflow ==> spec_digits_val(s@.subrange(ds as int, i as int)) > u64::MAX,
        ensures
            ds <= i <= n,
            forall|j: int| ds <= j < i ==> is_digit(#[trigger] s@[j]),
            i == n || !is_digit(s@[i as int]),
            !overflow ==> acc as int == spec_digits_val(s@.subrange(ds as int, i as int)),
            overflow ==> spec_digits_val(s@.subrange(ds as int, i as int)) > u64::MAX,
        decreases n - i,
    {
        let c = s[i];
        let u = c as u32;
        if !(48 <= u && u <= 57) {
            break;
        }
        let d: u64 = (u - 48) as u64;
        let ghost prevrun = s@.subrange(ds as int, i as int);
        proof {
            assert(s@.subrange(ds as int, i + 1).drop_last() =~= prevrun);
            assert(s@.subrange(ds as int, i + 1).last() == c);
        }
        if overflow {
            proof {
                assert(spec_digits_val(s@.subrange(ds as int, i + 1)) == spec_digits_val(prevrun)
                    * 10 + d);
                assert(spec_digits_val(prevrun) * 10 + d > u64::MAX) by (nonlinear_arith)
                    requires
                        spec_digits_val(prevrun) > u64::MAX,
                        d >= 0,
                ;
            }
        } else if acc > (u64::MAX - d) / 10 {
            proof {
                assert(acc as int * 10 + d > u64::MAX) by (nonlinear_arith)
                    requires
                        acc as int > (u64::MAX - d) / 10,
                        0 <= d <= 9,
                        acc as int <= u64::MAX,
                ;
            }
            overflow = true;
        } else {
            acc = acc * 10 + d;
        }
        i = i + 1;
    }
    let ghost run = s@.subrange(ds as int, i as int);
    proof {
        lemma_scan_digits_run(body, i - ds);
        assert(body.subrange(0, i - ds) =~= run);
        assert(body.skip(i - ds) =~= s@.skip(i as int));
    }
    if i == ds {
        // a minus sign with no digits
        return Err(JsonError::Syntax);
    }
    if overflow {
        proof {
            assert(spec_digits_val(run) > u64::MAX >= 9223372036854775808);
        }
        return Err(JsonError::Syntax);
    }
    if neg {
        if acc > 9223372036854775808u64 {
            return Err(JsonError::Syntax);
        } else if acc == 9223372036854775808u64 {
            return Ok((i64::MIN, i));
        } else {
            return Ok((0i64 - (acc as i64), i));
        }
    } else {
        if acc > 9223372036854775807u64 {
            return Err(JsonError::Syntax);
        } else {
            return Ok((acc as i64, i));
        }
    }
}

/// Lexes `s` into its token stream; `Err` exactly when [`spec_tokenize`]
/// rejects the text.
pub fn tokenize(s: &Vec<char>) -> (r: Result<Vec<JsonToken>, JsonError>)
    ensures
        match r {
            Ok(ts) => spec_tokenize(s@) == Option::Some(toks_view(ts@)),
            Err(e) => spec_tokenize(s@) is None && e == JsonError::Syntax,
        },
{
    let n = s.len();
    let mut out: Vec<JsonToken> = Vec::new();
    let mut i: usize = 0;
    proof {
        assert(s@.skip(0) =~= s@);
        assert(toks_view(out@) =~= Seq::<JsonTokenView>::empty());
        if spec_tokenize(s@) is Some {
            assert(toks_view(out@) + spec_tokenize(s@)->Some_0 =~= spec_tokenize(s@)->Some_0);
        }
    }
    while i < n
        invariant
            i <= n,
            n == s@.len(),
            spec_tokenize(s@) == combine_toks(toks_view(out@), spec_tokenize(s@.skip(i as int))),
        decreases n - i,
    {
        let ghost pre = s@.skip(i as int);
        let ghost prev = toks_view(out@);
        let c = s[i];
        proof {
            assert(pre[0] == c);
        }
        if c == ' ' || c == '\n' || c == '\t' || c == '\r' {
            proof {
                assert(pre.skip(1) =~= s@.skip(i + 1));
            }
            i = i + 1;
        } else if c == '{' || c == '}' || c == '[' || c == ']' || c == ':' || c == ',' {
            let tok = if c == '{' {
                JsonToken::LBrace
            } else if c == '}' {
                JsonToken::RBrace
            } else if c == '[' {
                JsonToken::LBracket
            } else if c == ']' {
                JsonToken::RBracket
            } else if c == ':' {
                JsonToken::Colon
            } else {
                JsonToken::Comma
            };
            proof {
                assert(pre.skip(1) =~= s@.skip(i + 1));
                assert(spec_tokenize(pre) == cons_tok(tok@, spec_tokenize(s@.skip(i + 1))));
                lemma_combine_cons(prev, tok@, spec_tokenize(s@.skip(i + 1)));
            }
            out.push(tok);
            proof {
                assert(toks_view(out@) =~= prev.push(tok@));
            }
            i = i + 1;
        } else if c == '"' {
            proof {
                assert(pre.skip(1) =~= s@.skip(i + 1));
            }
            match scan_string_exec(s, i + 1) {
                Ok((body, end)) => {
                    let tok = JsonToken::Str(chars_to_string(&body));
                    proof {
                        assert(spec_tokenize(pre) == cons_tok(
                            tok@,
                            spec_tokenize(s@.skip(end as int)),
                        ));
                        lemma_combine_cons(prev, tok@, spec_tokenize(s@.skip(end as int)));
                    }
                    out.push(tok);
                    proof {
                        assert(toks_view(out@) =~= prev.push(tok@));
                    }
                    i = end;
                },
                Err(e) => {
                    return Err(e);
                },
            }
        } else if c == 'n' {
            if n - i > 3 {
                let c1 = s[i + 1];
                let c2 = s[i + 2];
                let c3 = s[i + 3];
                proof {
                    assert(pre[1] == c1);
                    assert(pre[2] == c2);
                    assert(pre[3] == c3);
                }
                if c1 == 'u' && c2 == 'l' && c3 == 'l' {
                    proof {
                        assert(pre.skip(4) =~= s@.skip(i + 4));
                        assert(spec_tokenize(pre) == cons_tok(
                            JsonTokenView::Null,
                            spec_tokenize(s@.skip(i + 4)),
                        ));
                        lemma_combine_cons(prev, JsonTokenView::Null, spec_tokenize(s@.skip(i + 4)));
                    }
                    out.push(JsonToken::Null);
                    proof {
                        assert(toks_view(out@) =~= prev.push(JsonTokenView::Null));
                    }
                    i = i + 4;
                } else {
                    return Err(JsonError::Syntax);
                }
            } else {
                proof {
                    assert(pre.len() < 4);
                }
                return Err(JsonError::Syntax);
            }
        } else {
            let u = c as u32;
            if c == '-' || (48 <= u && u <= 57) {
                proof {
                    assert(pre.skip(1) =~= s@.skip(i + 1));
                }
                match scan_int_exec(s, i) {
                    Ok((v, end)) => {
                        let tok = JsonToken::Int(v);
                        proof {
                            assert(spec_tokenize(pre) == cons_tok(
                                tok@,
                                spec_tokenize(s@.skip(end as int)),
                            ));
                            lemma_combine_cons(prev, tok@, spec_tokenize(s@.skip(end as int)));
                        }
                        out.push(tok);
                        proof {
                            assert(toks_view(out@) =~= prev.push(tok@));
                        }
                        i = end;
                    },
                    Err(e) => {
                        return Err(e);
                    },
                }
            } else {
                return Err(JsonError::Syntax);
            }
        }
    }
    proof {
        assert(s@.skip(i as int).len() == 0);
        assert(spec_tokenize(s@.skip(i as int)) == Option::Some(Seq::<JsonTokenView>::empty()));
        assert(toks_view(out@) + Seq::<JsonTokenView>::empty() =~= toks_view(out@));
    }
    Ok(out)
}

/// An integer token the lexer itself could have produced.
pub open spec fn tok_ok(t: JsonTokenView) -> bool {
    match t {
        JsonTokenView::Int(n) => i64::MIN <= n <= i64::MAX,
        _ => true,
    }
}

/// A token stream the renderer keeps unambiguous: every integer fits `i64`,
/// and no two integer tokens stand side by side (their renderings would fuse).
pub open spec fn toks_ok(ts: Seq<JsonTokenView>) -> bool {
    (forall|i: int| 0 <= i < ts.len() ==> tok_ok(#[trigger] ts[i])) && (forall|i: int|
        0 <= i < ts.len() - 1 ==> !((#[trigger] ts[i]) is Int && ts[i + 1] is Int))
}

proof fn lemma_digit_char_val(d: int)
    requires
        0 <= d < 10,
    ensures
        is_digit(digit_char(d)),
        digit_val(digit_char(d)) == d,
{
}

proof fn lemma_render_nat_digits(n: int)
    requires
        n >= 0,
    ensures
        spec_render_nat(n).len() >= 1,
        forall|i: int|
            0 <= i < spec_render_nat(n).len() ==> is_digit(#[trigger] spec_render_nat(n)[i]),
    decreases n,
{
    if n < 10 {
        lemma_digit_char_val(n);
    } else {
        lemma_render_nat_digits(n / 10);
        lemma_digit_char_val(n % 10);
        assert forall|i: int| 0 <= i < spec_render_nat(n).len() implies is_digit(
            spec_render_nat(n)[i],
        ) by {
            if i < spec_render_nat(n / 10).len() {
                assert(spec_render_nat(n)[i] == spec_render_nat(n / 10)[i]);
            } else {
                assert(spec_render_nat(n)[i] == digit_char(n % 10));
            }
        }
    }
}

proof fn lemma_digits_val_render(n: int)
    requires
        n >= 0,
    ensures
        spec_digits_val(spec_render_nat(n)) == n,
    decreases n,
{
    if n < 10 {
        lemma_digit_char_val(n);
        let d = seq![digit_char(n)];
        assert(d.drop_last() =~= Seq::<char>::empty());
        assert(spec_digits_val(d.drop_last()) == 0);
    } else {
        lemma_digits_val_render(n / 10);
        lemma_digit_char_val(n % 10);
        let whole = spec_render_nat(n);
        assert(whole.drop_last() =~= spec_render_nat(n / 10));
        assert(whole.last() == digit_char(n % 10));
    }
}

proof fn lemma_scan_digits_concat(d: Seq<char>, rest: Seq<char>)
    requires
        forall|i: int| 0 <= i < d.len() ==> is_digit(#[trigger] d[i]),
        rest.len() == 0 || !is_digit(rest[0]),
    ensures
        spec_scan_digits(d + rest).0 == d,
        spec_scan_digits(d + rest).1 == rest,
    decreases d.len(),
{
    if d.len() == 0 {
        assert(d + rest =~= rest);
        assert(spec_scan_digits(rest).0 =~= d);
    } else {
        assert((d + rest)[0] == d[0]);
        assert((d + rest).skip(1) =~= d.skip(1) + rest);
        lemma_scan_digits_concat(d.skip(1), rest);
        assert(seq![d[0]] + d.skip(1) =~= d);
    }
}

proof fn lemma_tokenize_int(n: int, rest: Seq<char>)
    requires
        i64::MIN <= n <= i64::MAX,
        rest.len() == 0 || !is_digit(rest[0]),
    ensures
        spec_tokenize(spec_render_int(n) + rest) == cons_tok(
            JsonTokenView::Int(n),
            spec_tokenize(rest),
        ),
{
    if n < 0 {
        let digits = spec_render_nat(-n);
        lemma_render_nat_digits(-n);
        lemma_digits_val_render(-n);
        let s = spec_render_int(n) + rest;
        assert(s[0] == '-');
        assert(s.skip(1) =~= digits + rest);
        lemma_scan_digits_concat(digits, rest);
        assert(spec_scan_digits(s.skip(1)).0 == digits);
        assert(spec_digits_val(digits) == -n);
    } else {
        let digits = spec_render_nat(n);
        lemma_render_nat_digits(n);
        lemma_digits_val_render(n);
        let s = spec_render_int(n) + rest;
        assert(s =~= digits + rest);
        assert(s[0] == digits[0]);
        assert(is_digit(s[0]));
        lemma_scan_digits_concat(digits, rest);
        assert(spec_scan_digits(s).0 == digits);
        assert(!is_ws_char(s[0]) && s[0] != '{' && s[0] != '}' && s[0] != '[' && s[0] != ']' && s[0]
            != ':' && s[0] != ',' && s[0] != '"' && s[0] != 'n' && s[0] != '-');
    }
}

proof fn lemma_hex_val_hex_char(x: int)
    requires
        0 <= x < 16,
    ensures
        spec_hex_val(hex_char(x)) == Option::Some(x),
{
}

proof fn lemma_scan_string_escape(t: Seq<char>, rest: Seq<char>)
    ensures
        spec_scan_string(spec_escape(t) + seq!['"'] + rest) == Option::Some((t, rest)),
    decreases t.len(),
{
    let s = spec_escape(t) + seq!['"'] + rest;
    if t.len() == 0 {
        assert(s =~= seq!['"'] + rest);
        assert(s[0] == '"');
        assert(s.skip(1) =~= rest);
        assert(spec_scan_string(s) == Option::Some((Seq::<char>::empty(), rest)));
        assert(Seq::<char>::empty() =~= t);
    } else {
        let c = t[0];
        let tail = spec_escape(t.skip(1)) + seq!['"'] + rest;
        assert(spec_escape(t) == spec_escape_char(c) + spec_escape(t.skip(1)));
        assert(s =~= spec_escape_char(c) + tail);
        lemma_scan_string_escape(t.skip(1), rest);
        assert(seq![c] + t.skip(1) =~= t);
        if c == '"' {
            assert(s[0] == '\\');
            assert(s[1] == '"');
            assert(s.skip(2) =~= tail);
        } else if c == '\\' {
            assert(s[0] == '\\');
            assert(s[1] == '\\');
            assert(s.skip(2) =~= tail);
        } else if c == '\n' {
            assert(s[0] == '\\');
            assert(s[1] == 'n');
            assert(s.skip(2) =~= tail);
        } else if c == '\r' {
            assert(s[0] == '\\');
            assert(s[1] == 'r');
            assert(s.skip(2) =~= tail);
        } else if c == '\t' {
            assert(s[0] == '\\');
            assert(s[1] == 't');
            assert(s.skip(2) =~= tail);
        } else if (c as u32) < 32 {
            let v = c as u32 as int;
            assert(s[0] == '\\');
            assert(s[1] == 'u');
            assert(s[2] == '0');
            assert(s[3] == '0');
            assert(s[4] == hex_char(v / 16));
            assert(s[5] == hex_char(v % 16));
            assert(s.len() >= 6);
            assert(spec_hex_val('0') == Option::Some(0int));
            lemma_hex_val_hex_char(v / 16);
            lemma_hex_val_hex_char(v % 16);
            assert(spec_hex4(s[2], s[3], s[4], s[5]) == Option::Some((v / 16) * 16 + v % 16));
            assert((v / 16) * 16 + v % 16 == v);
            assert(spec_char_of_ascii(v) == c) by {
                let b: u8 = v as u8;
                let u: u32 = c as u32;
                vstd::utf8::char_u32_cast(c, u);
                assert(b as u32 == u);
                assert((b as char) == (u as char));
            }
            assert(s.skip(6) =~= tail);
        } else {
            assert(s[0] == c);
            assert(s.skip(1) =~= tail);
            assert(!((s[0] as u32) < 32));
        }
    }
}

proof fn lemma_render_token_nonempty(t: JsonTokenView)
    ensures
        spec_render_token(t).len() >= 1,
{
    match t {
        JsonTokenView::Int(n) => {
            if n < 0 {
                lemma_render_nat_digits(-n);
            } else {
                lemma_render_nat_digits(n);
            }
        },
        _ => {},
    }
}

proof fn lemma_render_token_first_not_digit(t: JsonTokenView)
    requires
        !(t is Int),
    ensures
        spec_render_token(t).len() >= 1,
        !is_digit(spec_render_token(t)[0]),
{
}

/// Lexing inverts rendering: a well-formed token stream is recovered exactly
/// from its compact rendering.
pub proof fn lemma_tokenize_render(ts: Seq<JsonTokenView>)
    requires
        toks_ok(ts),
    ensures
        spec_tokenize(spec_render_tokens(ts)) == Option::Some(ts),
    decreases ts.len(),
{
    if ts.len() == 0 {
    } else {
        let t = ts[0];
        let rest_toks = ts.skip(1);
        assert(toks_ok(rest_toks)) by {
            assert forall|i: int| 0 <= i < rest_toks.len() implies tok_ok(rest_toks[i]) by {
                assert(rest_toks[i] == ts[i + 1]);
            }
            assert forall|i: int| 0 <= i < rest_toks.len() - 1 implies !((#[trigger] rest_toks[i]) is Int
                && rest_toks[i + 1] is Int) by {
                assert(rest_toks[i] == ts[i + 1]);
                assert(rest_toks[i + 1] == ts[i + 2]);
            }
        }
        lemma_tokenize_render(rest_toks);
        let rest = spec_render_tokens(rest_toks);
        let s = spec_render_token(t) + rest;
        assert(spec_render_tokens(ts) == s);
        assert(seq![t] + rest_toks =~= ts);
        match t {
            JsonTokenView::LBrace => {
                assert(s[0] == '{');
                assert(s.skip(1) =~= rest);
            },
            JsonTokenView::RBrace => {
                assert(s[0] == '}');
                assert(s.skip(1) =~= rest);
            },
            JsonTokenView::LBracket => {
                assert(s[0] == '[');
                assert(s.skip(1) =~= rest);
            },
            JsonTokenView::RBracket => {
                assert(s[0] == ']');
                assert(s.skip(1) =~= rest);
            },
            JsonTokenView::Colon => {
                assert(s[0] == ':');
                assert(s.skip(1) =~= rest);
            },
            JsonTokenView::Comma => {
                assert(s[0] == ',');
                assert(s.skip(1) =~= rest);
            },
            JsonTokenView::Null => {
                assert(s[0] == 'n');
                assert(s[1] == 'u');
                assert(s[2] == 'l');
                assert(s[3] == 'l');
                assert(s.len() >= 4);
                assert(s.skip(4) =~= rest);
            },
            JsonTokenView::Str(body) => {
                assert(s =~= seq!['"'] + (spec_escape(body) + seq!['"'] + rest));
                assert(s[0] == '"');
                lemma_scan_string_escape(body, rest);
                assert(s.skip(1) =~= spec_escape(body) + seq!['"'] + rest);
            },
            JsonTokenView::Int(n) => {
                assert(tok_ok(ts[0]));
                if rest_toks.len() == 0 {
                    assert(rest =~= Seq::<char>::empty());
                    lemma_tokenize_int(n, rest);
                } else {
                    assert(!(ts[1] is Int));
                    assert(rest_toks[0] == ts[1]);
                    lemma_render_token_first_not_digit(rest_toks[0]);
                    assert(rest == spec_render_token(rest_toks[0]) + spec_render_tokens(
                        rest_toks.skip(1),
                    ));
                    assert(rest[0] == spec_render_token(rest_toks[0])[0]);
                    lemma_tokenize_int(n, rest);
                }
            },
        }
    }
}

/// True exactly when `t` is the object-opening token.
pub fn is_lbrace(t: &JsonToken) -> (b: bool)
    ensures
        b == (t@ == JsonTokenView::LBrace),
{
    match t {
        JsonToken::LBrace => true,
        _ => false,
    }
}

/// True exactly when `t` is the object-closing token.
pub fn is_rbrace(t: &JsonToken) -> (b: bool)
    ensures
        b == (t@ == JsonTokenView::RBrace),
{
    match t {
        JsonToken::RBrace => true,
        _ => false,
    }
}

/// True exactly when `t` is the array-opening token.
pub fn is_lbracket(t: &JsonToken) -> (b: bool)
    ensures
        b == (t@ == JsonTokenView::LBracket),
{
    match t {
        JsonToken::LBracket => true,
        _ => false,
    }
}

/// True exactly when `t` is the array-closing token.
pub fn is_rbracket(t: &JsonToken) -> (b: bool)
    ensures
        b == (t@ == JsonTokenView::RBracket),
{
    match t {
        JsonToken::RBracket => true,
        _ => false,
    }
}

/// True exactly when `t` is the colon token.
pub fn is_colon(t: &JsonToken) -> (b: bool)
    ensures
        b == (t@ == JsonTokenView::Colon),
{
    match t {
        JsonToken::Colon => true,
        _ => false,
    }
}

/// True exactly when `t` is the comma token.
pub fn is_comma(t: &JsonToken) -> (b: bool)
    ensures
        b == (t@ == JsonTokenView::Comma),
{
    match t {
        JsonToken::Comma => true,
        _ => false,
    }
}

/// True exactly when `t` is the `null` token.
pub fn is_null(t: &JsonToken) -> (b: bool)
    ensures
        b == (t@ == JsonTokenView::Null),
{
    match t {
        JsonToken::Null => true,
        _ => false,
    }
}

/// True exactly when `t` is the string token holding `key`.
pub fn is_key(t: &JsonToken, key: &str) -> (b: bool)
    ensures
        b == (t@ == JsonTokenView::Str(key@)),
{
    match t {
        JsonToken::Str(s) => crate::strutil::str_eq(s.as_str(), key),
        _ => false,
    }
}

/// The string payload of `t`, or `None` when `t` is no string token.
pub fn get_str(t: &JsonToken) -> (r: Option<String>)
    ensures
        match r {
            Option::Some(s) => t@ == JsonTokenView::Str(s@),
            Option::None => !(t@ is Str),
        },
{
    match t {
        JsonToken::Str(s) => Option::Some(s.clone()),
        _ => Option::None,
    }
}

/// The integer payload of `t`, or `None` when `t` is no integer token.
pub fn get_i64(t: &JsonToken) -> (r: Option<i64>)
    ensures
        match r {
            Option::Some(v) => t@ == JsonTokenView::Int(v as int),
            Option::None => !(t@ is Int),
        },
{
    match t {
        JsonToken::Int(v) => Option::Some(*v),
        _ => Option::None,
    }
}

/// The integer payload of `t` when it fits `i32`, else `None`.
pub fn get_i32(t: &JsonToken) -> (r: Option<i32>)
    ensures
        match r {
            Option::Some(v) => t@ == JsonTokenView::Int(v as int),
            Option::None => !(t@ is Int) || t@->Int_0 < i32::MIN || t@->Int_0 > i32::MAX,
        },
{
    match t {
        JsonToken::Int(v) => {
            if *v >= -2147483648i64 && *v <= 2147483647i64 {
                Option::Some(*v as i32)
            } else {
                Option::None
            }
        },
        _ => Option::None,
    }
}

/// Reads an optional string value: `null` gives `None`, a string token gives
/// the string; any other token is rejected.
pub fn get_opt_str(t: &JsonToken) -> (r: Result<Option<String>, JsonError>)
    ensures
        match r {
            Ok(o) => match o {
                Option::Some(s) => t@ == JsonTokenView::Str(s@),
                Option::None => t@ == JsonTokenView::Null,
            },
            Err(e) => !(t@ is Str) && !(t@ is Null) && e == JsonError::Shape,
        },
{
    match t {
        JsonToken::Str(s) => Ok(Option::Some(s.clone())),
        JsonToken::Null => Ok(Option::None),
        _ => Err(JsonError::Shape),
    }
}

fn digit_char_exec(d: u64) -> (c: char)
    requires
        d < 10,
    ensures
        c == digit_char(d as int),
{
    if d == 0 {
        '0'
    } else if d == 1 {
        '1'
    } else if d == 2 {
        '2'
    } else if d == 3 {
        '3'
    } else if d == 4 {
        '4'
    } else if d == 5 {
        '5'
    } else if d == 6 {
        '6'
    } else if d == 7 {
        '7'
    } else if d == 8 {
        '8'
    } else {
        '9'
    }
}

fn hex_char_exec(d: u32) -> (c: char)
    requires
        d < 16,
    ensures
        c == hex_char(d as int),
{
    if d < 10 {
        digit_char_exec(d as u64)
    } else if d == 10 {
        'a'
    } else if d == 11 {
        'b'
    } else if d == 12 {
        'c'
    } else if d == 13 {
        'd'
    } else if d == 14 {
        'e'
    } else {
        'f'
    }
}

fn push_nat_chars(out: &mut Vec<char>, n: u64)
    ensures
        final(out)@ == old(out)@ + spec_render_nat(n as int),
    decreases n,
{
    if n < 10 {
        out.push(digit_char_exec(n));
        proof {
            assert(final(out)@ =~= old(out)@ + spec_render_nat(n as int));
        }
    } else {
        push_nat_chars(out, n / 10);
        out.push(digit_char_exec(n % 10));
        proof {
            assert(final(out)@ =~= old(out)@ + spec_render_nat(n as int));
        }
    }
}

fn push_int_chars(out: &mut Vec<char>, v: i64)
    ensures
        final(out)@ == old(out)@ + spec_render_int(v as int),
{
    if v < 0 {
        out.push('-');
        let mag: u64 = if v == i64::MIN {
            9223372036854775808u64
        } else {
            (0i64 - v) as u64
        };
        proof {
            assert(mag as int == -(v as int));
        }
        push_nat_chars(out, mag);
        proof {
            assert(final(out)@ =~= old(out)@ + spec_render_int(v as int));
        }
    } else {
        push_nat_chars(out, v as u64);
    }
}

/// Appending one character extends the escaped rendering at the back.
proof fn lemma_escape_snoc(s: Seq<char>, c: char)
    ensures
        spec_escape(s.push(c)) == spec_escape(s) + spec_escape_char(c),
    decreases s.len(),
{
    if s.len() == 0 {
        assert(s.push(c)[0] == c);
        assert(s.push(c).skip(1) =~= Seq::<char>::empty());
        assert(spec_escape(s.push(c).skip(1)) =~= Seq::<char>::empty());
        assert(spec_escape(s.push(c)) =~= spec_escape_char(c));
        assert(spec_escape(s) + spec_escape_char(c) =~= spec_escape_char(c));
    } else {
        assert(s.push(c)[0] == s[0]);
        assert(s.push(c).skip(1) =~= s.skip(1).push(c));
        lemma_escape_snoc(s.skip(1), c);
        assert(spec_escape_char(s[0]) + (spec_escape(s.skip(1)) + spec_escape_char(c))
            =~= (spec_escape_char(s[0]) + spec_escape(s.skip(1))) + spec_escape_char(c));
    }
}

fn push_escaped_chars(out: &mut Vec<char>, cs: &Vec<char>)
    ensures
        final(out)@ == old(out)@ + spec_escape(cs@),
{
    let m = cs.len();
    let mut j: usize = 0;
    while j < m
        invariant
            j <= m,
            m == cs@.len(),
            out@ == old(out)@ + spec_escape(cs@.subrange(0, j as int)),
        decreases m - j,
    {
        let c = cs[j];
        let ghost donepart = cs@.subrange(0, j as int);
        proof {
            assert(cs@.subrange(0, j + 1) =~= donepart.push(c));
            lemma_escape_snoc(donepart, c);
        }
        let u = c as u32;
        let ghost mid = out@;
        if c == '"' {
            out.push('\\');
            out.push('"');
        } else if c == '\\' {
            out.push('\\');
            out.push('\\');
        } else if c == '\n' {
            out.push('\\');
            out.push('n');
        } else if c == '\r' {
            out.push('\\');
            out.push('r');
        } else if c == '\t' {
            out.push('\\');
            out.push('t');
        } else if u < 32 {
            out.push('\\');
            out.push('u');
            out.push('0');
            out.push('0');
            out.push(hex_char_exec(u / 16));
            out.push(hex_char_exec(u % 16));
        } else {
            out.push(c);
        }
        proof {
            assert(out@ =~= mid + spec_escape_char(c));
            assert(out@ =~= old(out)@ + spec_escape(cs@.subrange(0, j + 1)));
        }
        j = j + 1;
    }
    proof {
        assert(cs@.subrange(0, m as int) =~= cs@);
    }
}

/// Renders a token stream compactly: tokens in order, no whitespace.
pub fn render_tokens(ts: &Vec<JsonToken>) -> (r: Vec<char>)
    ensures
        r@ == spec_render_tokens(toks_view(ts@)),
{
    let n = ts.len();
    let ghost whole = toks_view(ts@);
    let mut out: Vec<char> = Vec::new();
    let mut k: usize = 0;
    proof {
        assert(whole.skip(0) =~= whole);
        assert(out@ + spec_render_tokens(whole) =~= spec_render_tokens(whole));
    }
    while k < n
        invariant
            k <= n,
            n == ts@.len(),
            whole == toks_view(ts@),
            spec_render_tokens(whole) == out@ + spec_render_tokens(whole.skip(k as int)),
        decreases n - k,
    {
        let ghost seen = out@;
        let ghost remaining = whole.skip(k as int);
        proof {
            assert(remaining[0] == ts@[k as int]@);
            assert(remaining.skip(1) =~= whole.skip(k + 1));
            assert(spec_render_tokens(remaining) == spec_render_token(remaining[0])
                + spec_render_tokens(whole.skip(k + 1)));
        }
        let t = &ts[k];
        match t {
            JsonToken::LBrace => {
                out.push('{');
            },
            JsonToken::RBrace => {
                out.push('}');
            },
            JsonToken::LBracket => {
                out.push('[');
            },
            JsonToken::RBracket => {
                out.push(']');
            },
            JsonToken::Colon => {
                out.push(':');
            },
            JsonToken::Comma => {
                out.push(',');
            },
            JsonToken::Null => {
                out.push('n');
                out.push('u');
                out.push('l');
                out.push('l');
            },
            JsonToken::Int(v) => {
                push_int_chars(&mut out, *v);
            },
            JsonToken::Str(st) => {
                let cs = string_to_chars(st.as_str());
                out.push('"');
                push_escaped_chars(&mut out, &cs);
                out.push('"');
                proof {
                    assert(spec_render_token(remaining[0]) =~= seq!['"'] + spec_escape(st@)
                        + seq!['"']);
                }
            },
        }
        proof {
            assert(out@ =~= seen + spec_render_token(remaining[0]));
            assert(spec_render_tokens(whole) =~= out@ + spec_render_tokens(whole.skip(k + 1)));
        }
        k = k + 1;
    }
    proof {
        assert(whole.skip(n as int).len() == 0);
        assert(out@ =~= spec_render_tokens(whole));
    }
    out
}

} // verus!
