//! The closed set of token kinds the lexer produces.
use vstd::prelude::*;

verus! {

#[derive(Clone, Copy, Debug, PartialEq, Eq, Structural)]
pub enum Punctuation {
    /// `(`
    BracketOpen,
    /// `)`
    BracketClose,
    /// `{`
    BracketCurlyOpen,
    /// `}`
    BracketCurlyClose,
    /// `'`
    QuoteSingle,
    /// `"`
    QuoteDouble,
    /// `;`
    Semicolon,
    /// `:`
    Colon,
    /// `|`
    Pipe,
    /// `&`
    Ampersand,
    /// `.`
    Dot,
    /// `,`
    Comma,
    /// ` `
    Space,
    /// `\t`
    Tab,
}

#[derive(Clone, Copy, Debug, PartialEq, Eq, Structural)]
pub enum Operator {
    /// `!`
    Not,
    /// `!=`
    NotEq,
    /// `=`
    Eq,
    /// `==`
    EqEq,
    /// `>`
    Gt,
    /// `>=`
    Gte,
    /// `<`
    Lt,
    /// `<=`
    Lte,
    /// `+`
    Add,
    /// `-`
    Sub,
    /// `*`
    Mul,
    /// `/`
    Div,
    /// `&&`
    And,
    /// `||`
    Or,
}

/// The spelling of an operator, as bytes.
pub open spec fn spec_operator_bytes(op: Operator) -> Seq<u8> {
    match op {
        Operator::Not => seq![33u8],
        Operator::NotEq => seq![33u8, 61u8],
        Operator::Eq => seq![61u8],
        Operator::EqEq => seq![61u8, 61u8],
        Operator::Gt => seq![62u8],
        Operator::Gte => seq![62u8, 61u8],
        Operator::Lt => seq![60u8],
        Operator::Lte => seq![60u8, 61u8],
        Operator::Add => seq![43u8],
        Operator::Sub => seq![45u8],
        Operator::Mul => seq![42u8],
        Operator::Div => seq![47u8],
        Operator::And => seq![38u8, 38u8],
        Operator::Or => seq![124u8, 124u8],
    }
}

impl Operator {
    /// The spelling of the operator.
    pub fn to_str(&self) -> (r: &'static str)
        ensures
            r@.map_values(|c: char| c as u8) == spec_operator_bytes(*self),
    {
        proof {
            reveal_strlit("!");
            reveal_strlit("!=");
            reveal_strlit("=");
            reveal_strlit("==");
            reveal_strlit(">");
            reveal_strlit(">=");
            reveal_strlit("<");
            reveal_strlit("<=");
            reveal_strlit("+");
            reveal_strlit("-");
            reveal_strlit("*");
            reveal_strlit("/");
            reveal_strlit("&&");
            reveal_strlit("||");
        }
        let r = match self {
            Operator::Not => "!",
            Operator::NotEq => "!=",
            Operator::Eq => "=",
            Operator::EqEq => "==",
            Operator::Gt => ">",
            Operator::Gte => ">=",
            Operator::Lt => "<",
            Operator::Lte => "<=",
            Operator::Add => "+",
            Operator::Sub => "-",
            Operator::Mul => "*",
            Operator::Div => "/",
            Operator::And => "&&",
            Operator::Or => "||",
        };
        proof {
            assert(r@.map_values(|c: char| c as u8) =~= spec_operator_bytes(*self));
        }
        r
    }

    /// The spelling of the operator, as bytes.
    pub fn to_bytes(&self) -> (r: Vec<u8>)
        ensures
            r@ == spec_operator_bytes(*self),
    {
        let mut r: Vec<u8> = Vec::new();
        match self {
            Operator::Not => r.push(33),
            Operator::NotEq => {
                r.push(33);
                r.push(61);
            },
            Operator::Eq => r.push(61),
            Operator::EqEq => {
                r.push(61);
                r.push(61);
            },
            Operator::Gt => r.push(62),
            Operator::Gte => {
                r.push(62);
                r.push(61);
            },
            Operator::Lt => r.push(60),
            Operator::Lte => {
                r.push(60);
                r.push(61);
            },
            Operator::Add => r.push(43),
            Operator::Sub => r.push(45),
            Operator::Mul => r.push(42),
            Operator::Div => r.push(47),
            Operator::And => {
                r.push(38);
                r.push(38);
            },
            Operator::Or => {
                r.push(124);
                r.push(124);
            },
        }
        proof {
            assert(r@ =~= spec_operator_bytes(*self));
        }
        r
    }
}

#[derive(Clone, Copy, Debug, PartialEq, Eq, Structural)]
pub enum Keyword {
    Class,
    If,
    Else,
    Function,
    For,
    While,
    Print,
    Return,
    Super,
    This,
    Var,
}

#[derive(Clone, Debug)]
pub enum Literal {
    String(Vec<u8>),
    Number(u64),
    Boolean(bool),
    Null,
}

/// The mathematical shape of a literal token: text as a byte sequence, a
/// number as its double encoding.
pub enum LiteralV {
    Str(Seq<u8>),
    Num(u64),
    Bool(bool),
    Null,
}

impl View for Literal {
    type V = LiteralV;

    open spec fn view(&self) -> LiteralV {
        match self {
            Literal::String(s) => LiteralV::Str(s@),
            Literal::Number(b) => LiteralV::Num(*b),
            Literal::Boolean(b) => LiteralV::Bool(*b),
            Literal::Null => LiteralV::Null,
        }
    }
}

#[derive(Clone, Debug)]
pub enum TokenType {
    Punctuation(Punctuation),
    Operator(Operator),
    Keyword(Keyword),
    Literal(Literal),
    Identifier(Vec<u8>),
    Generic(Vec<u8>),
    EndOfLine,
    EndOfFile,
}

/// The mathematical shape of a token kind.
pub enum TokenTypeV {
    Punctuation(Punctuation),
    Operator(Operator),
    Keyword(Keyword),
    Literal(LiteralV),
    Identifier(Seq<u8>),
    Generic(Seq<u8>),
    EndOfLine,
    EndOfFile,
}

impl View for TokenType {
    type V = TokenTypeV;

    open spec fn view(&self) -> TokenTypeV {
        match self {
            TokenType::Punctuation(p) => TokenTypeV::Punctuation(*p),
            TokenType::Operator(op) => TokenTypeV::Operator(*op),
            TokenType::Keyword(k) => TokenTypeV::Keyword(*k),
            TokenType::Literal(l) => TokenTypeV::Literal(l@),
            TokenType::Identifier(s) => TokenTypeV::Identifier(s@),
            TokenType::Generic(s) => TokenTypeV::Generic(s@),
            TokenType::EndOfLine => TokenTypeV::EndOfLine,
            TokenType::EndOfFile => TokenTypeV::EndOfFile,
        }
    }
}

/// Byte-for-byte equality of two byte vectors.
pub fn bytes_eq(a: &Vec<u8>, b: &Vec<u8>) -> (r: bool)
    ensures
        r == (a@ == b@),
{
    if a.len() != b.len() {
        proof {
            assert(a@ != b@);
        }
        return false;
    }
    let mut i: usize = 0;
    while i < a.len()
        invariant
            i <= a.len(),
            a.len() == b.len(),
            forall|j: int| 0 <= j < i ==> a@[j] == b@[j],
        decreases a.len() - i,
    {
        if a[i] != b[i] {
            return false;
        }
        i += 1;
    }
    proof {
        assert(a@ =~= b@);
    }
    true
}

impl PartialEq for Literal {
    fn eq(&self, other: &Literal) -> (r: bool) {
        match (self, other) {
            (Literal::String(a), Literal::String(b)) => bytes_eq(a, b),
            (Literal::Number(a), Literal::Number(b)) => a == b,
            (Literal::Boolean(a), Literal::Boolean(b)) => a == b,
            (Literal::Null, Literal::Null) => true,
            _ => false,
        }
    }
}

impl vstd::std_specs::cmp::PartialEqSpecImpl for Literal {
    open spec fn obeys_eq_spec() -> bool {
        true
    }

    open spec fn eq_spec(&self, other: &Literal) -> bool {
        self@ == other@
    }
}

impl PartialEq for TokenType {
    fn eq(&self, other: &TokenType) -> (r: bool) {
        match (self, other) {
            (TokenType::Punctuation(a), TokenType::Punctuation(b)) => a == b,
            (TokenType::Operator(a), TokenType::Operator(b)) => a == b,
            (TokenType::Keyword(a), TokenType::Keyword(b)) => a == b,
            (TokenType::Literal(a), TokenType::Literal(b)) => a == b,
            (TokenType::Identifier(a), TokenType::Identifier(b)) => bytes_eq(a, b),
            (TokenType::Generic(a), TokenType::Generic(b)) => bytes_eq(a, b),
            (TokenType::EndOfLine, TokenType::EndOfLine) => true,
            (TokenType::EndOfFile, TokenType::EndOfFile) => true,
            _ => false,
        }
    }
}

impl vstd::std_specs::cmp::PartialEqSpecImpl for TokenType {
    open spec fn obeys_eq_spec() -> bool {
        true
    }

    open spec fn eq_spec(&self, other: &TokenType) -> bool {
        self@ == other@
    }
}

/// A fresh copy of the bytes.
pub fn bytes_clone(v: &Vec<u8>) -> (r: Vec<u8>)
    ensures
        r@ == v@,
{
    let mut r: Vec<u8> = Vec::new();
    let mut i: usize = 0;
    while i < v.len()
        invariant
            i <= v@.len(),
            r@ == v@.subrange(0, i as int),
        decreases v@.len() - i,
    {
        r.push(v[i]);
        i += 1;
        proof {
            assert(r@ =~= v@.subrange(0, i as int));
        }
    }
    proof {
        assert(r@ =~= v@);
    }
    r
}

/// A copy of a literal with the same shape.
pub fn lit_clone(l: &Literal) -> (r: Literal)
    ensures
        r@ == l@,
{
    match l {
        Literal::String(s) => Literal::String(bytes_clone(s)),
        Literal::Number(b) => Literal::Number(*b),
        Literal::Boolean(b) => Literal::Boolean(*b),
        Literal::Null => Literal::Null,
    }
}

/// A copy of a token kind with the same shape.
pub fn tt_clone(t: &TokenType) -> (r: TokenType)
    ensures
        r@ == t@,
{
    match t {
        TokenType::Punctuation(p) => TokenType::Punctuation(*p),
        TokenType::Operator(op) => TokenType::Operator(*op),
        TokenType::Keyword(k) => TokenType::Keyword(*k),
        TokenType::Literal(l) => TokenType::Literal(lit_clone(l)),
        TokenType::Identifier(s) => TokenType::Identifier(bytes_clone(s)),
        TokenType::Generic(s) => TokenType::Generic(bytes_clone(s)),
        TokenType::EndOfLine => TokenType::EndOfLine,
        TokenType::EndOfFile => TokenType::EndOfFile,
    }
}

} // verus!
