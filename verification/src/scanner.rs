//! The lexer: source bytes to the flat token stream.
//!
//! Whitespace and line endings are recognised and then dropped; the stream
//! always ends with the end-of-file sentinel.
use vstd::prelude::*;

use crate::detector::detect;
use crate::detector::lemma_detect_in_range;
use crate::detector::spec_detect;
use crate::detector::spec_keyword_bytes;
use crate::detector::spec_word_at;
use crate::token::Token;
use crate::token_type::Keyword;
use crate::token_type::Operator;
use crate::token_type::Punctuation;
use crate::token_type::TokenType;
use crate::token_type::TokenTypeV;

verus! {

/// Token kinds that are dropped before delivery: spaces, tabs and line ends.
pub open spec fn spec_filtered(t: TokenTypeV) -> bool {
    ||| t == TokenTypeV::Punctuation(Punctuation::Space)
    ||| t == TokenTypeV::Punctuation(Punctuation::Tab)
    ||| t == TokenTypeV::EndOfLine
}

/// The token kinds delivered from position `i` on: recognition repeated
/// until the end of file, whitespace dropped, the end sentinel kept.
pub open spec fn spec_scan_from(s: Seq<u8>, i: int) -> Seq<TokenTypeV>
    decreases s.len() - i,
{
    if !(0 <= i <= s.len()) {
        seq![TokenTypeV::EndOfFile]
    } else {
        let (t, j) = spec_detect(s, i);
        if t == TokenTypeV::EndOfFile {
            seq![TokenTypeV::EndOfFile]
        } else {
            let jj = if j <= i {
                i + 1
            } else if j > s.len() {
                s.len() as int
            } else {
                j
            };
            if spec_filtered(t) {
                spec_scan_from(s, jj)
            } else {
                seq![t] + spec_scan_from(s, jj)
            }
        }
    }
}

/// The token kinds the lexer delivers for the whole input.
pub open spec fn spec_scan(s: Seq<u8>) -> Seq<TokenTypeV> {
    spec_scan_from(s, 0)
}

fn filtered(t: &TokenType) -> (r: bool)
    ensures
        r == spec_filtered(t@),
{
    match t {
        TokenType::Punctuation(Punctuation::Space) => true,
        TokenType::Punctuation(Punctuation::Tab) => true,
        TokenType::EndOfLine => true,
        _ => false,
    }
}

/// Lexes the whole input: every delivered token in order, ending with the
/// end-of-file sentinel. Source positions are not tracked and stay zero.
pub fn scan(input: &[u8]) -> (r: Vec<Token>)
    ensures
        r@.map_values(|t: Token| t@.token_type) == spec_scan(input@),
        forall|k: int| 0 <= k < r@.len() ==> r@[k]@.line == 0 && r@[k]@.column == 0,
{
    let mut out: Vec<Token> = Vec::new();
    let mut i: usize = 0;
    loop
        invariant
            i <= input@.len(),
            spec_scan(input@) == out@.map_values(|t: Token| t@.token_type) + spec_scan_from(
                input@,
                i as int,
            ),
            forall|k: int| 0 <= k < out@.len() ==> out@[k]@.line == 0 && out@[k]@.column == 0,
        decreases input@.len() - i,
    {
        proof {
            lemma_detect_in_range(input@, i as int);
        }
        let (t, j) = detect(input, i);
        let ghost prev = out@;
        if let TokenType::EndOfFile = t {
            out.push(Token::new(t, 0, 0));
            proof {
                assert(out@.map_values(|t: Token| t@.token_type) =~= prev.map_values(
                    |t: Token| t@.token_type,
                ) + seq![TokenTypeV::EndOfFile]);
            }
            return out;
        }
        if !filtered(&t) {
            out.push(Token::new(t, 0, 0));
            proof {
                assert(out@.map_values(|t: Token| t@.token_type) =~= prev.map_values(
                    |t: Token| t@.token_type,
                ) + seq![out@[out@.len() - 1]@.token_type]);
            }
        }
        i = j;
    }
}

/// A witness that the whole keyword `k` does not stand at the start of `s`:
/// the byte at `m` differs from its spelling.
proof fn lemma_not_kw(s: Seq<u8>, k: Keyword, m: int)
    requires
        0 <= m < spec_keyword_bytes(k).len(),
        m < s.len(),
        s[m] != spec_keyword_bytes(k)[m],
    ensures
        !spec_word_at(s, 0, spec_keyword_bytes(k)),
{
    if spec_word_at(s, 0, spec_keyword_bytes(k)) {
        assert(s[0 + m] == spec_keyword_bytes(k)[m]);
    }
}

/// Lexing the canonical spelling of any keyword yields exactly that keyword
/// token followed by the end-of-file sentinel.
#[verifier::rlimit(100)]
pub proof fn lemma_keyword_round_trip(k: Keyword)
    ensures
        spec_scan(spec_keyword_bytes(k)) == seq![
            TokenTypeV::Keyword(k),
            TokenTypeV::EndOfFile,
        ],
{
    let s = spec_keyword_bytes(k);
    reveal_with_fuel(spec_scan_from, 3);
    match k {
        Keyword::Class => {
            assert(spec_scan(s) =~= seq![TokenTypeV::Keyword(k), TokenTypeV::EndOfFile]);
        },
        Keyword::If => {
            assert(spec_scan(s) =~= seq![TokenTypeV::Keyword(k), TokenTypeV::EndOfFile]);
        },
        Keyword::Else => {
            lemma_not_kw(s, Keyword::If, 0);
            assert(spec_scan(s) =~= seq![TokenTypeV::Keyword(k), TokenTypeV::EndOfFile]);
        },
        Keyword::Function => {
            lemma_not_kw(s, Keyword::If, 0);
            assert(spec_scan(s) =~= seq![TokenTypeV::Keyword(k), TokenTypeV::EndOfFile]);
        },
        Keyword::For => {
            lemma_not_kw(s, Keyword::If, 0);
            lemma_not_kw(s, Keyword::Function, 1);
            assert(spec_scan(s) =~= seq![TokenTypeV::Keyword(k), TokenTypeV::EndOfFile]);
        },
        Keyword::While => {
            lemma_not_kw(s, Keyword::Class, 0);
            lemma_not_kw(s, Keyword::If, 0);
            lemma_not_kw(s, Keyword::Else, 0);
            lemma_not_kw(s, Keyword::Function, 0);
            lemma_not_kw(s, Keyword::For, 0);
            assert(spec_scan(s) =~= seq![TokenTypeV::Keyword(k), TokenTypeV::EndOfFile]);
        },
        Keyword::Print => {
            lemma_not_kw(s, Keyword::Class, 0);
            lemma_not_kw(s, Keyword::If, 0);
            lemma_not_kw(s, Keyword::Else, 0);
            lemma_not_kw(s, Keyword::Function, 0);
            lemma_not_kw(s, Keyword::For, 0);
            lemma_not_kw(s, Keyword::While, 0);
            assert(spec_scan(s) =~= seq![TokenTypeV::Keyword(k), TokenTypeV::EndOfFile]);
        },
        Keyword::Return => {
            lemma_not_kw(s, Keyword::Class, 0);
            lemma_not_kw(s, Keyword::If, 0);
            lemma_not_kw(s, Keyword::Else, 0);
            lemma_not_kw(s, Keyword::Function, 0);
            lemma_not_kw(s, Keyword::For, 0);
            lemma_not_kw(s, Keyword::While, 0);
            lemma_not_kw(s, Keyword::Print, 0);
            assert(spec_scan(s) =~= seq![TokenTypeV::Keyword(k), TokenTypeV::EndOfFile]);
        },
        Keyword::Super => {
            lemma_not_kw(s, Keyword::Class, 0);
            lemma_not_kw(s, Keyword::If, 0);
            lemma_not_kw(s, Keyword::Else, 0);
            lemma_not_kw(s, Keyword::Function, 0);
            lemma_not_kw(s, Keyword::For, 0);
            lemma_not_kw(s, Keyword::While, 0);
            lemma_not_kw(s, Keyword::Print, 0);
            lemma_not_kw(s, Keyword::Return, 0);
            assert(spec_scan(s) =~= seq![TokenTypeV::Keyword(k), TokenTypeV::EndOfFile]);
        },
        Keyword::This => {
            lemma_not_kw(s, Keyword::If, 0);
            lemma_not_kw(s, Keyword::Else, 0);
            lemma_not_kw(s, Keyword::Function, 0);
            lemma_not_kw(s, Keyword::For, 0);
            assert(spec_scan(s) =~= seq![TokenTypeV::Keyword(k), TokenTypeV::EndOfFile]);
        },
        Keyword::Var => {
            lemma_not_kw(s, Keyword::If, 0);
            lemma_not_kw(s, Keyword::Function, 0);
            lemma_not_kw(s, Keyword::For, 0);
            assert(spec_scan(s) =~= seq![TokenTypeV::Keyword(k), TokenTypeV::EndOfFile]);
        },
    }
    assert(spec_scan(s) =~= seq![TokenTypeV::Keyword(k), TokenTypeV::EndOfFile]);
}

/// Lexing `!=` yields the single two-byte operator, while `!` and `=`
/// separated by a space yield the two one-byte operators: the longest
/// spelling wins.
pub proof fn lemma_operator_longest_match()
    ensures
        spec_scan(seq![33u8, 61u8]) == seq![
            TokenTypeV::Operator(Operator::NotEq),
            TokenTypeV::EndOfFile,
        ],
        spec_scan(seq![33u8, 32u8, 61u8]) == seq![
            TokenTypeV::Operator(Operator::Not),
            TokenTypeV::Operator(Operator::Eq),
            TokenTypeV::EndOfFile,
        ],
{
    reveal_with_fuel(spec_scan_from, 5);
    let a = seq![33u8, 61u8];
    lemma_not_kw(a, Keyword::If, 0);
    lemma_not_kw(a, Keyword::Function, 0);
    assert(spec_scan(a) =~= seq![TokenTypeV::Operator(Operator::NotEq), TokenTypeV::EndOfFile]);
    let b = seq![33u8, 32u8, 61u8];
    lemma_not_kw(b, Keyword::If, 0);
    lemma_not_kw(b, Keyword::Function, 0);
    lemma_not_kw(b, Keyword::For, 0);
    lemma_not_kw(b, Keyword::Var, 0);
    assert(spec_scan(b) =~= seq![
        TokenTypeV::Operator(Operator::Not),
        TokenTypeV::Operator(Operator::Eq),
        TokenTypeV::EndOfFile,
    ]);
}

} // verus!
