//! Recognition of one token at a position of the source bytes.
//!
//! Families are tried in a fixed order: keywords (whole words), operators
//! (longest spelling first), literals (numbers, quoted strings, `true`,
//! `false`, `null`), end markers, identifiers, punctuation, and last a
//! generic run that swallows the rest of the input.
use vstd::prelude::*;

use crate::numbers::parse_number_bits;
use crate::numbers::parsed_number;
use crate::token_type::Keyword;
use crate::token_type::Literal;
use crate::token_type::LiteralV;
use crate::token_type::Operator;
use crate::token_type::Punctuation;
use crate::token_type::TokenType;
use crate::token_type::TokenTypeV;

verus! {

pub open spec fn is_digit(c: u8) -> bool {
    48 <= c <= 57
}

pub open spec fn is_alpha(c: u8) -> bool {
    (65 <= c <= 90) || (97 <= c <= 122)
}

/// A byte that may open an identifier: a letter, `_` or `$`.
pub open spec fn is_ident_start(c: u8) -> bool {
    is_alpha(c) || c == 95 || c == 36
}

/// A byte that may continue an identifier.
pub open spec fn is_ident_cont(c: u8) -> bool {
    is_ident_start(c) || is_digit(c)
}

/// A byte of a digit run: a digit or a `_` group separator.
pub open spec fn is_run_byte(c: u8) -> bool {
    is_digit(c) || c == 95
}

/// The first position at or after `i` that does not continue a digit run.
pub open spec fn spec_run_end(s: Seq<u8>, i: int) -> int
    decreases s.len() - i,
{
    if i < s.len() && is_run_byte(s[i]) {
        spec_run_end(s, i + 1)
    } else {
        i
    }
}

/// The first position at or after `i` that does not continue an identifier.
pub open spec fn spec_ident_end(s: Seq<u8>, i: int) -> int
    decreases s.len() - i,
{
    if i < s.len() && is_ident_cont(s[i]) {
        spec_ident_end(s, i + 1)
    } else {
        i
    }
}

/// The first position at or after `i` holding byte `q`, or `-1` if none does.
pub open spec fn spec_find_byte(s: Seq<u8>, i: int, q: u8) -> int
    decreases s.len() - i,
{
    if i >= s.len() {
        -1
    } else if s[i] == q {
        i
    } else {
        spec_find_byte(s, i + 1, q)
    }
}

/// The word `w` occurs in `s` at position `i`.
pub open spec fn spec_word_at(s: Seq<u8>, i: int, w: Seq<u8>) -> bool {
    &&& 0 <= i
    &&& i + w.len() <= s.len()
    &&& forall|k: int| 0 <= k < w.len() ==> s[i + k] == w[k]
}

/// Position `j` does not sit inside a word: the end of input, or a byte that
/// cannot continue an identifier.
pub open spec fn spec_word_boundary(s: Seq<u8>, j: int) -> bool {
    j >= s.len() || !is_ident_cont(s[j])
}

/// The canonical spelling of a keyword.
pub open spec fn spec_keyword_bytes(k: Keyword) -> Seq<u8> {
    match k {
        Keyword::Class => seq![99u8, 108u8, 97u8, 115u8, 115u8],
        Keyword::If => seq![105u8, 102u8],
        Keyword::Else => seq![101u8, 108u8, 115u8, 101u8],
        Keyword::Function => seq![102u8, 110u8],
        Keyword::For => seq![102u8, 111u8, 114u8],
        Keyword::While => seq![119u8, 104u8, 105u8, 108u8, 101u8],
        Keyword::Print => seq![112u8, 114u8, 105u8, 110u8, 116u8],
        Keyword::Return => seq![114u8, 101u8, 116u8, 117u8, 114u8, 110u8],
        Keyword::Super => seq![115u8, 117u8, 112u8, 101u8, 114u8],
        Keyword::This => seq![116u8, 104u8, 105u8, 115u8],
        Keyword::Var => seq![118u8, 97u8, 114u8],
    }
}

/// The whole keyword `k` stands at position `i`.
pub open spec fn spec_keyword_word_at(s: Seq<u8>, i: int, k: Keyword) -> bool {
    spec_word_at(s, i, spec_keyword_bytes(k)) && spec_word_boundary(
        s,
        i + spec_keyword_bytes(k).len(),
    )
}

/// The keyword recognised at position `i`, with the position after it.
pub open spec fn spec_keyword_at(s: Seq<u8>, i: int) -> Option<(Keyword, int)> {
    if spec_keyword_word_at(s, i, Keyword::Class) {
        Some((Keyword::Class, i + 5))
    } else if spec_keyword_word_at(s, i, Keyword::If) {
        Some((Keyword::If, i + 2))
    } else if spec_keyword_word_at(s, i, Keyword::Else) {
        Some((Keyword::Else, i + 4))
    } else if spec_keyword_word_at(s, i, Keyword::Function) {
        Some((Keyword::Function, i + 2))
    } else if spec_keyword_word_at(s, i, Keyword::For) {
        Some((Keyword::For, i + 3))
    } else if spec_keyword_word_at(s, i, Keyword::While) {
        Some((Keyword::While, i + 5))
    } else if spec_keyword_word_at(s, i, Keyword::Print) {
        Some((Keyword::Print, i + 5))
    } else if spec_keyword_word_at(s, i, Keyword::Return) {
        Some((Keyword::Return, i + 6))
    } else if spec_keyword_word_at(s, i, Keyword::Super) {
        Some((Keyword::Super, i + 5))
    } else if spec_keyword_word_at(s, i, Keyword::This) {
        Some((Keyword::This, i + 4))
    } else if spec_keyword_word_at(s, i, Keyword::Var) {
        Some((Keyword::Var, i + 3))
    } else {
        None
    }
}

/// The operator recognised at position `i`: two-byte spellings win over their
/// one-byte prefixes.
pub open spec fn spec_operator_at(s: Seq<u8>, i: int) -> Option<(Operator, int)> {
    if i + 1 < s.len() && s[i] == 33 && s[i + 1] == 61 {
        Some((Operator::NotEq, i + 2))
    } else if i + 1 < s.len() && s[i] == 61 && s[i + 1] == 61 {
        Some((Operator::EqEq, i + 2))
    } else if i + 1 < s.len() && s[i] == 62 && s[i + 1] == 61 {
        Some((Operator::Gte, i + 2))
    } else if i + 1 < s.len() && s[i] == 60 && s[i + 1] == 61 {
        Some((Operator::Lte, i + 2))
    } else if i + 1 < s.len() && s[i] == 38 && s[i + 1] == 38 {
        Some((Operator::And, i + 2))
    } else if i + 1 < s.len() && s[i] == 124 && s[i + 1] == 124 {
        Some((Operator::Or, i + 2))
    } else if i < s.len() && s[i] == 33 {
        Some((Operator::Not, i + 1))
    } else if i < s.len() && s[i] == 61 {
        Some((Operator::Eq, i + 1))
    } else if i < s.len() && s[i] == 62 {
        Some((Operator::Gt, i + 1))
    } else if i < s.len() && s[i] == 60 {
        Some((Operator::Lt, i + 1))
    } else if i < s.len() && s[i] == 43 {
        Some((Operator::Add, i + 1))
    } else if i < s.len() && s[i] == 45 {
        Some((Operator::Sub, i + 1))
    } else if i < s.len() && s[i] == 42 {
        Some((Operator::Mul, i + 1))
    } else if i < s.len() && s[i] == 47 {
        Some((Operator::Div, i + 1))
    } else {
        None
    }
}

/// The underscore group separators dropped from a digit span.
pub open spec fn spec_strip_underscores(s: Seq<u8>) -> Seq<u8>
    decreases s.len(),
{
    if s.len() == 0 {
        Seq::empty()
    } else if s[0] == 95 {
        spec_strip_underscores(s.skip(1))
    } else {
        seq![s[0]] + spec_strip_underscores(s.skip(1))
    }
}

/// The end of the numeric span at `i`: an optional `-`, digit runs with `_`
/// separators, and an optional fraction introduced by `.` and a digit.
/// `None` where no digit follows the optional sign.
pub open spec fn spec_number_span(s: Seq<u8>, i: int) -> Option<int> {
    let start = if i < s.len() && s[i] == 45 {
        i + 1
    } else {
        i
    };
    if start < s.len() && is_digit(s[start]) {
        let int_end = spec_run_end(s, start);
        if int_end + 1 < s.len() && s[int_end] == 46 && is_digit(s[int_end + 1]) {
            Some(spec_run_end(s, int_end + 1))
        } else {
            Some(int_end)
        }
    } else {
        None
    }
}

/// The number literal recognised at position `i`: the span parsed as a
/// double after dropping `_` separators.
pub open spec fn spec_decimal_at(s: Seq<u8>, i: int) -> Option<(LiteralV, int)> {
    match spec_number_span(s, i) {
        Some(end) => match parsed_number(spec_strip_underscores(s.subrange(i, end))) {
            Some(bits) => Some((LiteralV::Num(bits), end)),
            None => None,
        },
        None => None,
    }
}

/// The string literal recognised at position `i`: a body enclosed in a pair
/// of single or double quotes, no escape processing.
pub open spec fn spec_string_at(s: Seq<u8>, i: int) -> Option<(LiteralV, int)> {
    if i < s.len() && (s[i] == 39 || s[i] == 34) {
        let k = spec_find_byte(s, i + 1, s[i]);
        if k >= 0 {
            Some((LiteralV::Str(s.subrange(i + 1, k)), k + 1))
        } else {
            None
        }
    } else {
        None
    }
}

pub open spec fn spec_true_bytes() -> Seq<u8> {
    seq![116u8, 114u8, 117u8, 101u8]
}

pub open spec fn spec_false_bytes() -> Seq<u8> {
    seq![102u8, 97u8, 108u8, 115u8, 101u8]
}

pub open spec fn spec_null_bytes() -> Seq<u8> {
    seq![110u8, 117u8, 108u8, 108u8]
}

/// The literal recognised at position `i`: a number, a quoted string, or a
/// whole-word `true`, `false` or `null`.
pub open spec fn spec_literal_at(s: Seq<u8>, i: int) -> Option<(LiteralV, int)> {
    if spec_decimal_at(s, i) is Some {
        spec_decimal_at(s, i)
    } else if spec_string_at(s, i) is Some {
        spec_string_at(s, i)
    } else if spec_word_at(s, i, spec_true_bytes()) && spec_word_boundary(s, i + 4) {
        Some((LiteralV::Bool(true), i + 4))
    } else if spec_word_at(s, i, spec_false_bytes()) && spec_word_boundary(s, i + 5) {
        Some((LiteralV::Bool(false), i + 5))
    } else if spec_word_at(s, i, spec_null_bytes()) && spec_word_boundary(s, i + 4) {
        Some((LiteralV::Null, i + 4))
    } else {
        None
    }
}

/// The end marker recognised at position `i`: end of file on empty input,
/// else a `\n` or `\r\n` line ending.
pub open spec fn spec_ends_at(s: Seq<u8>, i: int) -> Option<(TokenTypeV, int)> {
    if i >= s.len() {
        Some((TokenTypeV::EndOfFile, i))
    } else if s[i] == 10 {
        Some((TokenTypeV::EndOfLine, i + 1))
    } else if s[i] == 13 && i + 1 < s.len() && s[i + 1] == 10 {
        Some((TokenTypeV::EndOfLine, i + 2))
    } else {
        None
    }
}

/// The identifier recognised at position `i`.
pub open spec fn spec_identifier_at(s: Seq<u8>, i: int) -> Option<(Seq<u8>, int)> {
    if i < s.len() && is_ident_start(s[i]) {
        let end = spec_ident_end(s, i + 1);
        Some((s.subrange(i, end), end))
    } else {
        None
    }
}

/// The punctuation byte recognised at position `i`.
pub open spec fn spec_punctuation_at(s: Seq<u8>, i: int) -> Option<(Punctuation, int)> {
    if i < s.len() {
        let c = s[i];
        if c == 40 {
            Some((Punctuation::BracketOpen, i + 1))
        } else if c == 41 {
            Some((Punctuation::BracketClose, i + 1))
        } else if c == 123 {
            Some((Punctuation::BracketCurlyOpen, i + 1))
        } else if c == 125 {
            Some((Punctuation::BracketCurlyClose, i + 1))
        } else if c == 39 {
            Some((Punctuation::QuoteSingle, i + 1))
        } else if c == 34 {
            Some((Punctuation::QuoteDouble, i + 1))
        } else if c == 59 {
            Some((Punctuation::Semicolon, i + 1))
        } else if c == 58 {
            Some((Punctuation::Colon, i + 1))
        } else if c == 124 {
            Some((Punctuation::Pipe, i + 1))
        } else if c == 38 {
            Some((Punctuation::Ampersand, i + 1))
        } else if c == 46 {
            Some((Punctuation::Dot, i + 1))
        } else if c == 44 {
            Some((Punctuation::Comma, i + 1))
        } else if c == 32 {
            Some((Punctuation::Space, i + 1))
        } else if c == 9 {
            Some((Punctuation::Tab, i + 1))
        } else {
            None
        }
    } else {
        None
    }
}

/// The token recognised at position `i`, with the position after it: the
/// families in their fixed order, and last a generic run to the end of the
/// input.
pub open spec fn spec_detect(s: Seq<u8>, i: int) -> (TokenTypeV, int) {
    if let Some((k, j)) = spec_keyword_at(s, i) {
        (TokenTypeV::Keyword(k), j)
    } else if let Some((op, j)) = spec_operator_at(s, i) {
        (TokenTypeV::Operator(op), j)
    } else if let Some((l, j)) = spec_literal_at(s, i) {
        (TokenTypeV::Literal(l), j)
    } else if let Some((t, j)) = spec_ends_at(s, i) {
        (t, j)
    } else if let Some((name, j)) = spec_identifier_at(s, i) {
        (TokenTypeV::Identifier(name), j)
    } else if let Some((p, j)) = spec_punctuation_at(s, i) {
        (TokenTypeV::Punctuation(p), j)
    } else {
        (TokenTypeV::Generic(s.subrange(i, s.len() as int)), s.len() as int)
    }
}

/// Byte-for-byte copy of `s[a..b]`.
pub fn bytes_range(s: &[u8], a: usize, b: usize) -> (r: Vec<u8>)
    requires
        a <= b <= s@.len(),
    ensures
        r@ == s@.subrange(a as int, b as int),
{
    let mut r: Vec<u8> = Vec::new();
    let mut j: usize = a;
    while j < b
        invariant
            a <= j <= b <= s@.len(),
            r@ == s@.subrange(a as int, j as int),
        decreases b - j,
    {
        r.push(s[j]);
        j += 1;
        proof {
            assert(r@ =~= s@.subrange(a as int, j as int));
        }
    }
    r
}

fn digit(c: u8) -> (r: bool)
    ensures
        r == is_digit(c),
{
    48 <= c && c <= 57
}

fn ident_start(c: u8) -> (r: bool)
    ensures
        r == is_ident_start(c),
{
    (65 <= c && c <= 90) || (97 <= c && c <= 122) || c == 95 || c == 36
}

fn ident_cont(c: u8) -> (r: bool)
    ensures
        r == is_ident_cont(c),
{
    ident_start(c) || digit(c)
}

fn run_byte(c: u8) -> (r: bool)
    ensures
        r == is_run_byte(c),
{
    digit(c) || c == 95
}

fn boundary(s: &[u8], j: usize) -> (r: bool)
    ensures
        r == spec_word_boundary(s@, j as int),
{
    j >= s.len() || !ident_cont(s[j])
}

fn run_end(s: &[u8], i: usize) -> (r: usize)
    requires
        i <= s@.len(),
    ensures
        r == spec_run_end(s@, i as int),
        i <= r <= s@.len(),
{
    let mut j: usize = i;
    while j < s.len() && run_byte(s[j])
        invariant
            i <= j <= s@.len(),
            spec_run_end(s@, i as int) == spec_run_end(s@, j as int),
        decreases s@.len() - j,
    {
        j += 1;
    }
    j
}

fn ident_end(s: &[u8], i: usize) -> (r: usize)
    requires
        i <= s@.len(),
    ensures
        r == spec_ident_end(s@, i as int),
        i <= r <= s@.len(),
{
    let mut j: usize = i;
    while j < s.len() && ident_cont(s[j])
        invariant
            i <= j <= s@.len(),
            spec_ident_end(s@, i as int) == spec_ident_end(s@, j as int),
        decreases s@.len() - j,
    {
        j += 1;
    }
    j
}

fn find_byte(s: &[u8], i: usize, q: u8) -> (r: Option<usize>)
    requires
        i <= s@.len(),
    ensures
        match r {
            Some(k) => spec_find_byte(s@, i as int, q) == k as int && i <= k < s@.len(),
            None => spec_find_byte(s@, i as int, q) == -1,
        },
{
    let mut j: usize = i;
    while j < s.len() && s[j] != q
        invariant
            i <= j <= s@.len(),
            spec_find_byte(s@, i as int, q) == spec_find_byte(s@, j as int, q),
        decreases s@.len() - j,
    {
        j += 1;
    }
    if j < s.len() {
        Some(j)
    } else {
        None
    }
}

/// Underscore group separators dropped from the bytes.
fn strip_underscores(v: &Vec<u8>) -> (r: Vec<u8>)
    ensures
        r@ == spec_strip_underscores(v@),
{
    let mut r: Vec<u8> = Vec::new();
    let mut j: usize = 0;
    proof {
        assert(v@.skip(0) =~= v@);
        assert(r@ + spec_strip_underscores(v@) =~= spec_strip_underscores(v@));
    }
    while j < v.len()
        invariant
            j <= v@.len(),
            r@ + spec_strip_underscores(v@.skip(j as int)) == spec_strip_underscores(v@),
        decreases v@.len() - j,
    {
        proof {
            let t = v@.skip(j as int);
            assert(t[0] == v@[j as int]);
            assert(t.skip(1) =~= v@.skip(j as int + 1));
        }
        if v[j] != 95 {
            r.push(v[j]);
            proof {
                assert(r@ + spec_strip_underscores(v@.skip(j as int + 1)) =~= spec_strip_underscores(
                    v@,
                ));
            }
        }
        j += 1;
    }
    proof {
        assert(v@.skip(v@.len() as int) =~= Seq::<u8>::empty());
        assert(r@ =~= spec_strip_underscores(v@));
    }
    r
}

fn word2(s: &[u8], i: usize, a: u8, b: u8) -> (r: bool)
    requires
        i <= s@.len(),
    ensures
        r == spec_word_at(s@, i as int, seq![a, b]),
{
    let r = s.len() - i >= 2 && s[i] == a && s[i + 1] == b;
    proof {
        if r {
            assert forall|k: int| 0 <= k < 2 implies s@[i + k] == seq![a, b][k] by {
                if k == 0 {
                } else {
                    assert(k == 1);
                }
            }
        }
    }
    r
}

fn word3(s: &[u8], i: usize, a: u8, b: u8, c: u8) -> (r: bool)
    requires
        i <= s@.len(),
    ensures
        r == spec_word_at(s@, i as int, seq![a, b, c]),
{
    let r = s.len() - i >= 3 && s[i] == a && s[i + 1] == b && s[i + 2] == c;
    proof {
        if r {
            assert forall|k: int| 0 <= k < 3 implies s@[i + k] == seq![a, b, c][k] by {
                if k == 0 {
                } else if k == 1 {
                } else {
                    assert(k == 2);
                }
            }
        }
    }
    r
}

fn word4(s: &[u8], i: usize, a: u8, b: u8, c: u8, d: u8) -> (r: bool)
    requires
        i <= s@.len(),
    ensures
        r == spec_word_at(s@, i as int, seq![a, b, c, d]),
{
    let r = s.len() - i >= 4 && s[i] == a && s[i + 1] == b && s[i + 2] == c && s[i + 3] == d;
    proof {
        if r {
            assert forall|k: int| 0 <= k < 4 implies s@[i + k] == seq![a, b, c, d][k] by {
                if k == 0 {
                } else if k == 1 {
                } else if k == 2 {
                } else {
                    assert(k == 3);
                }
            }
        }
    }
    r
}

fn word5(s: &[u8], i: usize, a: u8, b: u8, c: u8, d: u8, e: u8) -> (r: bool)
    requires
        i <= s@.len(),
    ensures
        r == spec_word_at(s@, i as int, seq![a, b, c, d, e]),
{
    let r = s.len() - i >= 5 && s[i] == a && s[i + 1] == b && s[i + 2] == c && s[i + 3] == d && s[i
        + 4] == e;
    proof {
        if r {
            assert forall|k: int| 0 <= k < 5 implies s@[i + k] == seq![a, b, c, d, e][k] by {
                if k == 0 {
                } else if k == 1 {
                } else if k == 2 {
                } else if k == 3 {
                } else {
                    assert(k == 4);
                }
            }
        }
    }
    r
}

fn word6(s: &[u8], i: usize, a: u8, b: u8, c: u8, d: u8, e: u8, f: u8) -> (r: bool)
    requires
        i <= s@.len(),
    ensures
        r == spec_word_at(s@, i as int, seq![a, b, c, d, e, f]),
{
    let r = s.len() - i >= 6 && s[i] == a && s[i + 1] == b && s[i + 2] == c && s[i + 3] == d && s[i
        + 4] == e && s[i + 5] == f;
    proof {
        if r {
            assert forall|k: int| 0 <= k < 6 implies s@[i + k] == seq![a, b, c, d, e, f][k] by {
                if k == 0 {
                } else if k == 1 {
                } else if k == 2 {
                } else if k == 3 {
                } else if k == 4 {
                } else {
                    assert(k == 5);
                }
            }
        }
    }
    r
}

/// The keyword standing whole at position `i`.
pub fn detect_keyword(s: &[u8], i: usize) -> (r: Option<(Keyword, usize)>)
    requires
        i <= s@.len(),
    ensures
        match r {
            Some((k, j)) => spec_keyword_at(s@, i as int) == Some((k, j as int)),
            None => spec_keyword_at(s@, i as int) is None,
        },
{
    let n = s.len();
    if word5(s, i, 99, 108, 97, 115, 115) && boundary(s, i + 5) {
        Some((Keyword::Class, i + 5))
    } else if word2(s, i, 105, 102) && boundary(s, i + 2) {
        Some((Keyword::If, i + 2))
    } else if word4(s, i, 101, 108, 115, 101) && boundary(s, i + 4) {
        Some((Keyword::Else, i + 4))
    } else if word2(s, i, 102, 110) && boundary(s, i + 2) {
        Some((Keyword::Function, i + 2))
    } else if word3(s, i, 102, 111, 114) && boundary(s, i + 3) {
        Some((Keyword::For, i + 3))
    } else if word5(s, i, 119, 104, 105, 108, 101) && boundary(s, i + 5) {
        Some((Keyword::While, i + 5))
    } else if word5(s, i, 112, 114, 105, 110, 116) && boundary(s, i + 5) {
        Some((Keyword::Print, i + 5))
    } else if word6(s, i, 114, 101, 116, 117, 114, 110) && boundary(s, i + 6) {
        Some((Keyword::Return, i + 6))
    } else if word5(s, i, 115, 117, 112, 101, 114) && boundary(s, i + 5) {
        Some((Keyword::Super, i + 5))
    } else if word4(s, i, 116, 104, 105, 115) && boundary(s, i + 4) {
        Some((Keyword::This, i + 4))
    } else if word3(s, i, 118, 97, 114) && boundary(s, i + 3) {
        Some((Keyword::Var, i + 3))
    } else {
        None
    }
}

/// The operator at position `i`, longest spelling first.
pub fn detect_operator(s: &[u8], i: usize) -> (r: Option<(Operator, usize)>)
    requires
        i <= s@.len(),
    ensures
        match r {
            Some((op, j)) => spec_operator_at(s@, i as int) == Some((op, j as int)),
            None => spec_operator_at(s@, i as int) is None,
        },
{
    let n = s.len();
    if n - i >= 2 && s[i] == 33 && s[i + 1] == 61 {
        Some((Operator::NotEq, i + 2))
    } else if n - i >= 2 && s[i] == 61 && s[i + 1] == 61 {
        Some((Operator::EqEq, i + 2))
    } else if n - i >= 2 && s[i] == 62 && s[i + 1] == 61 {
        Some((Operator::Gte, i + 2))
    } else if n - i >= 2 && s[i] == 60 && s[i + 1] == 61 {
        Some((Operator::Lte, i + 2))
    } else if n - i >= 2 && s[i] == 38 && s[i + 1] == 38 {
        Some((Operator::And, i + 2))
    } else if n - i >= 2 && s[i] == 124 && s[i + 1] == 124 {
        Some((Operator::Or, i + 2))
    } else if i < n && s[i] == 33 {
        Some((Operator::Not, i + 1))
    } else if i < n && s[i] == 61 {
        Some((Operator::Eq, i + 1))
    } else if i < n && s[i] == 62 {
        Some((Operator::Gt, i + 1))
    } else if i < n && s[i] == 60 {
        Some((Operator::Lt, i + 1))
    } else if i < n && s[i] == 43 {
        Some((Operator::Add, i + 1))
    } else if i < n && s[i] == 45 {
        Some((Operator::Sub, i + 1))
    } else if i < n && s[i] == 42 {
        Some((Operator::Mul, i + 1))
    } else if i < n && s[i] == 47 {
        Some((Operator::Div, i + 1))
    } else {
        None
    }
}

/// The number literal at position `i`.
pub fn detect_decimal(s: &[u8], i: usize) -> (r: Option<(Literal, usize)>)
    requires
        i <= s@.len(),
    ensures
        match r {
            Some((l, j)) => spec_decimal_at(s@, i as int) == Some((l@, j as int)),
            None => spec_decimal_at(s@, i as int) is None,
        },
{
    let start: usize = if i < s.len() && s[i] == 45 {
        i + 1
    } else {
        i
    };
    if start < s.len() && digit(s[start]) {
        let int_end = run_end(s, start);
        let end: usize = if int_end < s.len() && s[int_end] == 46 && int_end + 1 < s.len() && digit(
            s[int_end + 1],
        ) {
            run_end(s, int_end + 1)
        } else {
            int_end
        };
        let span = bytes_range(s, i, end);
        let stripped = strip_underscores(&span);
        match parse_number_bits(stripped.as_slice()) {
            Some(bits) => Some((Literal::Number(bits), end)),
            None => None,
        }
    } else {
        None
    }
}

/// The quoted string body at position `i`.
pub fn detect_string(s: &[u8], i: usize) -> (r: Option<(Vec<u8>, usize)>)
    requires
        i <= s@.len(),
    ensures
        match r {
            Some((body, j)) => spec_string_at(s@, i as int) == Some((
                LiteralV::Str(body@),
                j as int,
            )),
            None => spec_string_at(s@, i as int) is None,
        },
{
    if i < s.len() && (s[i] == 39 || s[i] == 34) {
        match find_byte(s, i + 1, s[i]) {
            Some(k) => {
                let body = bytes_range(s, i + 1, k);
                Some((body, k + 1))
            },
            None => None,
        }
    } else {
        None
    }
}

/// The literal at position `i`: number, string, or word literal.
pub fn detect_literal(s: &[u8], i: usize) -> (r: Option<(Literal, usize)>)
    requires
        i <= s@.len(),
    ensures
        match r {
            Some((l, j)) => spec_literal_at(s@, i as int) == Some((l@, j as int)),
            None => spec_literal_at(s@, i as int) is None,
        },
{
    let n = s.len();
    if let Some((l, j)) = detect_decimal(s, i) {
        Some((l, j))
    } else if let Some((body, j)) = detect_string(s, i) {
        Some((Literal::String(body), j))
    } else if word4(s, i, 116, 114, 117, 101) && boundary(s, i + 4) {
        Some((Literal::Boolean(true), i + 4))
    } else if word5(s, i, 102, 97, 108, 115, 101) && boundary(s, i + 5) {
        Some((Literal::Boolean(false), i + 5))
    } else if word4(s, i, 110, 117, 108, 108) && boundary(s, i + 4) {
        Some((Literal::Null, i + 4))
    } else {
        None
    }
}

/// The end marker at position `i`.
pub fn detect_ends(s: &[u8], i: usize) -> (r: Option<(TokenType, usize)>)
    requires
        i <= s@.len(),
    ensures
        match r {
            Some((t, j)) => spec_ends_at(s@, i as int) == Some((t@, j as int)),
            None => spec_ends_at(s@, i as int) is None,
        },
{
    if i >= s.len() {
        Some((TokenType::EndOfFile, i))
    } else if s[i] == 10 {
        Some((TokenType::EndOfLine, i + 1))
    } else if s[i] == 13 && i + 1 < s.len() && s[i + 1] == 10 {
        Some((TokenType::EndOfLine, i + 2))
    } else {
        None
    }
}

/// The identifier at position `i`.
pub fn detect_identifier(s: &[u8], i: usize) -> (r: Option<(Vec<u8>, usize)>)
    requires
        i <= s@.len(),
    ensures
        match r {
            Some((name, j)) => spec_identifier_at(s@, i as int) == Some((name@, j as int)),
            None => spec_identifier_at(s@, i as int) is None,
        },
{
    if i < s.len() && ident_start(s[i]) {
        let end = ident_end(s, i + 1);
        let name = bytes_range(s, i, end);
        Some((name, end))
    } else {
        None
    }
}

/// The punctuation byte at position `i`.
pub fn detect_punctuation(s: &[u8], i: usize) -> (r: Option<(Punctuation, usize)>)
    requires
        i <= s@.len(),
    ensures
        match r {
            Some((p, j)) => spec_punctuation_at(s@, i as int) == Some((p, j as int)),
            None => spec_punctuation_at(s@, i as int) is None,
        },
{
    if i >= s.len() {
        return None;
    }
    let c = s[i];
    if c == 40 {
        Some((Punctuation::BracketOpen, i + 1))
    } else if c == 41 {
        Some((Punctuation::BracketClose, i + 1))
    } else if c == 123 {
        Some((Punctuation::BracketCurlyOpen, i + 1))
    } else if c == 125 {
        Some((Punctuation::BracketCurlyClose, i + 1))
    } else if c == 39 {
        Some((Punctuation::QuoteSingle, i + 1))
    } else if c == 34 {
        Some((Punctuation::QuoteDouble, i + 1))
    } else if c == 59 {
        Some((Punctuation::Semicolon, i + 1))
    } else if c == 58 {
        Some((Punctuation::Colon, i + 1))
    } else if c == 124 {
        Some((Punctuation::Pipe, i + 1))
    } else if c == 38 {
        Some((Punctuation::Ampersand, i + 1))
    } else if c == 46 {
        Some((Punctuation::Dot, i + 1))
    } else if c == 44 {
        Some((Punctuation::Comma, i + 1))
    } else if c == 32 {
        Some((Punctuation::Space, i + 1))
    } else if c == 9 {
        Some((Punctuation::Tab, i + 1))
    } else {
        None
    }
}

/// The token at position `i`, with the position after it.
pub fn detect(s: &[u8], i: usize) -> (r: (TokenType, usize))
    requires
        i <= s@.len(),
    ensures
        (r.0@, r.1 as int) == spec_detect(s@, i as int),
        i <= r.1 <= s@.len(),
{
    proof {
        lemma_detect_in_range(s@, i as int);
    }
    if let Some((k, j)) = detect_keyword(s, i) {
        (TokenType::Keyword(k), j)
    } else if let Some((op, j)) = detect_operator(s, i) {
        (TokenType::Operator(op), j)
    } else if let Some((l, j)) = detect_literal(s, i) {
        (TokenType::Literal(l), j)
    } else if let Some((t, j)) = detect_ends(s, i) {
        (t, j)
    } else if let Some((name, j)) = detect_identifier(s, i) {
        (TokenType::Identifier(name), j)
    } else if let Some((p, j)) = detect_punctuation(s, i) {
        (TokenType::Punctuation(p), j)
    } else {
        let rest = bytes_range(s, i, s.len());
        (TokenType::Generic(rest), s.len())
    }
}

proof fn lemma_run_end_range(s: Seq<u8>, i: int)
    requires
        0 <= i <= s.len(),
    ensures
        i <= spec_run_end(s, i) <= s.len(),
    decreases s.len() - i,
{
    if i < s.len() && is_run_byte(s[i]) {
        lemma_run_end_range(s, i + 1);
    }
}

proof fn lemma_ident_end_range(s: Seq<u8>, i: int)
    requires
        0 <= i <= s.len(),
    ensures
        i <= spec_ident_end(s, i) <= s.len(),
    decreases s.len() - i,
{
    if i < s.len() && is_ident_cont(s[i]) {
        lemma_ident_end_range(s, i + 1);
    }
}

proof fn lemma_find_byte_range(s: Seq<u8>, i: int, q: u8)
    requires
        0 <= i <= s.len(),
    ensures
        spec_find_byte(s, i, q) == -1 || i <= spec_find_byte(s, i, q) < s.len(),
    decreases s.len() - i,
{
    if i < s.len() && s[i] != q {
        lemma_find_byte_range(s, i + 1, q);
    }
}

/// Recognition always stands still only at the end of input: at any position
/// inside the input, the recognised token ends strictly later and within it.
pub proof fn lemma_detect_in_range(s: Seq<u8>, i: int)
    requires
        0 <= i <= s.len(),
    ensures
        i <= spec_detect(s, i).1 <= s.len(),
        i < s.len() ==> i < spec_detect(s, i).1,
        i == s.len() ==> spec_detect(s, i) == (TokenTypeV::EndOfFile, i),
{
    if spec_keyword_at(s, i) is Some {
    } else if spec_operator_at(s, i) is Some {
    } else if spec_literal_at(s, i) is Some {
        if spec_decimal_at(s, i) is Some {
            let start = if i < s.len() && s[i] == 45 {
                i + 1
            } else {
                i
            };
            lemma_run_end_range(s, start);
            assert(spec_run_end(s, start) == spec_run_end(s, start + 1));
            lemma_run_end_range(s, start + 1);
            let int_end = spec_run_end(s, start);
            if int_end + 1 < s.len() && s[int_end] == 46 && is_digit(s[int_end + 1]) {
                lemma_run_end_range(s, int_end + 1);
            }
        } else if spec_string_at(s, i) is Some {
            lemma_find_byte_range(s, i + 1, s[i]);
        }
    } else if spec_ends_at(s, i) is Some {
    } else if spec_identifier_at(s, i) is Some {
        lemma_ident_end_range(s, i + 1);
    } else if spec_punctuation_at(s, i) is Some {
    }
}


} // verus!
