//! The abstract syntax tree and the recursive-descent parser.
//!
//! A program is an ordered list of top-level statements. Every binary
//! precedence level of the grammar is a left-associative loop, so
//! `10 - 3 - 1` parses as `(10 - 3) - 1`. A parse failure discards tokens
//! up to a statement boundary (panic-mode recovery) and parsing resumes
//! from there.

use vstd::prelude::*;

use crate::token::{Token, TokenType};

verus! {

/// A node of the syntax tree: one variant per grammar production. The tree
/// is built once by the parser and never mutated afterwards.
#[derive(Debug, PartialEq)]
pub enum AstType {
    /// Variable declaration: name and initializer (`Nil` when absent).
    Var(String, Box<AstType>),
    /// Function declaration: name, parameter list, body block.
    Fun(String, Vec<AstType>, Box<AstType>),
    Print(Box<AstType>),
    Block(Vec<AstType>),
    /// Condition and body.
    While(Box<AstType>, Box<AstType>),
    /// Condition, then branch, else branch (`Nil` when absent).
    If(Box<AstType>, Box<AstType>, Box<AstType>),
    Return(Box<AstType>),
    /// Assignment: target name and value expression.
    Assign(String, Box<AstType>),
    BangEqual(Box<AstType>, Box<AstType>),
    EqualEqual(Box<AstType>, Box<AstType>),
    And(Box<AstType>, Box<AstType>),
    Or(Box<AstType>, Box<AstType>),
    Greater(Box<AstType>, Box<AstType>),
    GreaterEqual(Box<AstType>, Box<AstType>),
    Less(Box<AstType>, Box<AstType>),
    LessEqual(Box<AstType>, Box<AstType>),
    Minus(Box<AstType>, Box<AstType>),
    Plus(Box<AstType>, Box<AstType>),
    Div(Box<AstType>, Box<AstType>),
    Mul(Box<AstType>, Box<AstType>),
    Bang(Box<AstType>),
    UnaryMinus(Box<AstType>),
    /// Call: callee name and argument list.
    Call(String, Vec<AstType>),
    Grouping(Box<AstType>),
    Number(i64),
    String(String),
    True,
    False,
    Nil,
    Identifier(String),
}


/// The mathematical shape of a syntax tree: the same variants as
/// [`AstType`], with names and text as character sequences and statement
/// lists as sequences. Contracts speak of trees through this view, so two
/// trees that print the same are the same to every contract.
pub enum AstV {
    Var(Seq<char>, Box<AstV>),
    Fun(Seq<char>, Seq<AstV>, Box<AstV>),
    Print(Box<AstV>),
    Block(Seq<AstV>),
    While(Box<AstV>, Box<AstV>),
    If(Box<AstV>, Box<AstV>, Box<AstV>),
    Return(Box<AstV>),
    Assign(Seq<char>, Box<AstV>),
    BangEqual(Box<AstV>, Box<AstV>),
    EqualEqual(Box<AstV>, Box<AstV>),
    And(Box<AstV>, Box<AstV>),
    Or(Box<AstV>, Box<AstV>),
    Greater(Box<AstV>, Box<AstV>),
    GreaterEqual(Box<AstV>, Box<AstV>),
    Less(Box<AstV>, Box<AstV>),
    LessEqual(Box<AstV>, Box<AstV>),
    Minus(Box<AstV>, Box<AstV>),
    Plus(Box<AstV>, Box<AstV>),
    Div(Box<AstV>, Box<AstV>),
    Mul(Box<AstV>, Box<AstV>),
    Bang(Box<AstV>),
    UnaryMinus(Box<AstV>),
    Call(Seq<char>, Seq<AstV>),
    Grouping(Box<AstV>),
    Number(i64),
    String(Seq<char>),
    True,
    False,
    Nil,
    Identifier(Seq<char>),
}

/// The view of one syntax-tree node.
pub open spec fn ast_view(ast: AstType) -> AstV
    decreases ast,
{
    match ast {
        AstType::Var(n, e) => AstV::Var(n@, Box::new(ast_view(*e))),
        AstType::Fun(n, ps, b) => AstV::Fun(n@, asts_view(ps@), Box::new(ast_view(*b))),
        AstType::Print(e) => AstV::Print(Box::new(ast_view(*e))),
        AstType::Block(stmts) => AstV::Block(asts_view(stmts@)),
        AstType::While(c, b) => AstV::While(Box::new(ast_view(*c)), Box::new(ast_view(*b))),
        AstType::If(c, t, e) => AstV::If(
            Box::new(ast_view(*c)),
            Box::new(ast_view(*t)),
            Box::new(ast_view(*e)),
        ),
        AstType::Return(e) => AstV::Return(Box::new(ast_view(*e))),
        AstType::Assign(n, e) => AstV::Assign(n@, Box::new(ast_view(*e))),
        AstType::BangEqual(l, r) => AstV::BangEqual(
            Box::new(ast_view(*l)),
            Box::new(ast_view(*r)),
        ),
        AstType::EqualEqual(l, r) => AstV::EqualEqual(
            Box::new(ast_view(*l)),
            Box::new(ast_view(*r)),
        ),
        AstType::And(l, r) => AstV::And(Box::new(ast_view(*l)), Box::new(ast_view(*r))),
        AstType::Or(l, r) => AstV::Or(Box::new(ast_view(*l)), Box::new(ast_view(*r))),
        AstType::Greater(l, r) => AstV::Greater(Box::new(ast_view(*l)), Box::new(ast_view(*r))),
        AstType::GreaterEqual(l, r) => AstV::GreaterEqual(
            Box::new(ast_view(*l)),
            Box::new(ast_view(*r)),
        ),
        AstType::Less(l, r) => AstV::Less(Box::new(ast_view(*l)), Box::new(ast_view(*r))),
        AstType::LessEqual(l, r) => AstV::LessEqual(
            Box::new(ast_view(*l)),
            Box::new(ast_view(*r)),
        ),
        AstType::Minus(l, r) => AstV::Minus(Box::new(ast_view(*l)), Box::new(ast_view(*r))),
        AstType::Plus(l, r) => AstV::Plus(Box::new(ast_view(*l)), Box::new(ast_view(*r))),
        AstType::Div(l, r) => AstV::Div(Box::new(ast_view(*l)), Box::new(ast_view(*r))),
        AstType::Mul(l, r) => AstV::Mul(Box::new(ast_view(*l)), Box::new(ast_view(*r))),
        AstType::Bang(e) => AstV::Bang(Box::new(ast_view(*e))),
        AstType::UnaryMinus(e) => AstV::UnaryMinus(Box::new(ast_view(*e))),
        AstType::Call(n, args) => AstV::Call(n@, asts_view(args@)),
        AstType::Grouping(e) => AstV::Grouping(Box::new(ast_view(*e))),
        AstType::Number(n) => AstV::Number(n),
        AstType::String(s) => AstV::String(s@),
        AstType::True => AstV::True,
        AstType::False => AstV::False,
        AstType::Nil => AstV::Nil,
        AstType::Identifier(n) => AstV::Identifier(n@),
    }
}

/// The views of a list of nodes, in order.
pub open spec fn asts_view(s: Seq<AstType>) -> Seq<AstV>
    decreases s,
{
    Seq::new(
        s.len(),
        |i: int|
            if 0 <= i < s.len() {
                ast_view(s[i])
            } else {
                AstV::Nil
            },
    )
}

impl View for AstType {
    type V = AstV;

    open spec fn view(&self) -> AstV {
        ast_view(*self)
    }
}

/// Clones every element of a syntax-tree list, preserving the values.
pub(crate) fn clone_ast_vec(v: &Vec<AstType>) -> (r: Vec<AstType>)
    ensures
        asts_view(r@) == asts_view(v@),
    decreases v@,
{
    let mut r: Vec<AstType> = Vec::new();
    let mut i: usize = 0;
    while i < v.len()
        invariant
            i <= v.len(),
            r@.len() == i,
            forall|j: int| 0 <= j < i ==> ast_view(#[trigger] r@[j]) == ast_view(v@[j]),
        decreases v@.len() - i,
    {
        proof {
            assert(decreases_to!(v@ => v@[i as int]));
        }
        r.push(clone_ast(&v[i]));
        i += 1;
    }
    proof {
        assert(asts_view(r@) =~= asts_view(v@));
    }
    r
}

/// A deep copy of a syntax tree that is equal, as a value, to the original.
fn clone_ast(ast: &AstType) -> (r: AstType)
    ensures
        r@ == ast@,
    decreases ast,
{
    {
        let self_ = ast;
        match self_ {
            AstType::Var(n, e) => AstType::Var(n.clone(), Box::new(clone_ast(&**e))),
            AstType::Fun(n, ps, b) => AstType::Fun(
                n.clone(),
                clone_ast_vec(ps),
                Box::new(clone_ast(&**b)),
            ),
            AstType::Print(e) => AstType::Print(Box::new(clone_ast(&**e))),
            AstType::Block(stmts) => AstType::Block(clone_ast_vec(stmts)),
            AstType::While(c, b) => AstType::While(
                Box::new(clone_ast(&**c)),
                Box::new(clone_ast(&**b)),
            ),
            AstType::If(c, t, e) => AstType::If(
                Box::new(clone_ast(&**c)),
                Box::new(clone_ast(&**t)),
                Box::new(clone_ast(&**e)),
            ),
            AstType::Return(e) => AstType::Return(Box::new(clone_ast(&**e))),
            AstType::Assign(n, e) => AstType::Assign(n.clone(), Box::new(clone_ast(&**e))),
            AstType::BangEqual(l, r) => AstType::BangEqual(
                Box::new(clone_ast(&**l)),
                Box::new(clone_ast(&**r)),
            ),
            AstType::EqualEqual(l, r) => AstType::EqualEqual(
                Box::new(clone_ast(&**l)),
                Box::new(clone_ast(&**r)),
            ),
            AstType::And(l, r) => AstType::And(
                Box::new(clone_ast(&**l)),
                Box::new(clone_ast(&**r)),
            ),
            AstType::Or(l, r) => AstType::Or(
                Box::new(clone_ast(&**l)),
                Box::new(clone_ast(&**r)),
            ),
            AstType::Greater(l, r) => AstType::Greater(
                Box::new(clone_ast(&**l)),
                Box::new(clone_ast(&**r)),
            ),
            AstType::GreaterEqual(l, r) => AstType::GreaterEqual(
                Box::new(clone_ast(&**l)),
                Box::new(clone_ast(&**r)),
            ),
            AstType::Less(l, r) => AstType::Less(
                Box::new(clone_ast(&**l)),
                Box::new(clone_ast(&**r)),
            ),
            AstType::LessEqual(l, r) => AstType::LessEqual(
                Box::new(clone_ast(&**l)),
                Box::new(clone_ast(&**r)),
            ),
            AstType::Minus(l, r) => AstType::Minus(
                Box::new(clone_ast(&**l)),
                Box::new(clone_ast(&**r)),
            ),
            AstType::Plus(l, r) => AstType::Plus(
                Box::new(clone_ast(&**l)),
                Box::new(clone_ast(&**r)),
            ),
            AstType::Div(l, r) => AstType::Div(
                Box::new(clone_ast(&**l)),
                Box::new(clone_ast(&**r)),
            ),
            AstType::Mul(l, r) => AstType::Mul(
                Box::new(clone_ast(&**l)),
                Box::new(clone_ast(&**r)),
            ),
            AstType::Bang(e) => AstType::Bang(Box::new(clone_ast(&**e))),
            AstType::UnaryMinus(e) => AstType::UnaryMinus(Box::new(clone_ast(&**e))),
            AstType::Call(n, args) => AstType::Call(n.clone(), clone_ast_vec(args)),
            AstType::Grouping(e) => AstType::Grouping(Box::new(clone_ast(&**e))),
            AstType::Number(n) => AstType::Number(*n),
            AstType::String(s) => AstType::String(s.clone()),
            AstType::True => AstType::True,
            AstType::False => AstType::False,
            AstType::Nil => AstType::Nil,
            AstType::Identifier(n) => AstType::Identifier(n.clone()),
        }
    }
}

impl Clone for AstType {
    /// A deep copy that is equal, as a value, to the original tree.
    fn clone(&self) -> (r: Self)
        ensures
            r@ == self@,
    {
        clone_ast(self)
    }
}

} // verus!

verus! {

/// A parse-time error. `Exhausted` reports a spent parsing budget; the
/// other variants mirror the grammar's failure kinds.
#[derive(Debug, PartialEq)]
pub enum ParseError {
    /// A token was required where the input had ended.
    CouldNotReadToken,
    /// A required delimiter or keyword token was missing; the payload
    /// names the expected kind.
    NotFoundToken(String),
    /// An expression had the wrong syntactic shape for its context; the
    /// payload names the expected shape.
    NotFoundAstType(String),
    /// A token that cannot begin any primary expression; the payload
    /// names its kind.
    NotSupportToken(String),
    /// The parsing budget ran out.
    Exhausted,
}

/// The mathematical shape of a parse-time error.
pub enum ParseErrV {
    CouldNotReadToken,
    NotFoundToken(Seq<char>),
    NotFoundAstType(Seq<char>),
    NotSupportToken(Seq<char>),
    Exhausted,
}

impl View for ParseError {
    type V = ParseErrV;

    open spec fn view(&self) -> ParseErrV {
        match self {
            ParseError::CouldNotReadToken => ParseErrV::CouldNotReadToken,
            ParseError::NotFoundToken(s) => ParseErrV::NotFoundToken(s@),
            ParseError::NotFoundAstType(s) => ParseErrV::NotFoundAstType(s@),
            ParseError::NotSupportToken(s) => ParseErrV::NotSupportToken(s@),
            ParseError::Exhausted => ParseErrV::Exhausted,
        }
    }
}

/// The rendered description of a parse-time error.
pub open spec fn parse_err_render_v(e: ParseErrV) -> Seq<char> {
    match e {
        ParseErrV::CouldNotReadToken => "Could not read token"@,
        ParseErrV::NotFoundToken(s) => "Could not found \""@ + s + "\" token"@,
        ParseErrV::NotFoundAstType(s) => "Could not found \""@ + s + "\" ast type"@,
        ParseErrV::NotSupportToken(s) => "Could not support \""@ + s + "\" token"@,
        ParseErrV::Exhausted => "Parsing budget exhausted"@,
    }
}

impl ParseError {
    /// The rendered description of this error.
    pub fn print(&self) -> (r: String)
        ensures
            r@ == parse_err_render_v(self@),
    {
        match self {
            ParseError::CouldNotReadToken => String::from_str("Could not read token"),
            ParseError::NotFoundToken(s) => {
                let mut m = String::from_str("Could not found \"");
                m.append(s.as_str());
                m.append("\" token");
                m
            },
            ParseError::NotFoundAstType(s) => {
                let mut m = String::from_str("Could not found \"");
                m.append(s.as_str());
                m.append("\" ast type");
                m
            },
            ParseError::NotSupportToken(s) => {
                let mut m = String::from_str("Could not support \"");
                m.append(s.as_str());
                m.append("\" token");
                m
            },
            ParseError::Exhausted => String::from_str("Parsing budget exhausted"),
        }
    }
}

/// The name of a token's kind, as error payloads carry it.
#[verifier::opaque]
pub open spec fn tt_name_v(t: TokenType) -> Seq<char> {
    match t {
        TokenType::LeftParen => "LeftParen"@,
        TokenType::RightParen => "RightParen"@,
        TokenType::LeftBrace => "LeftBrace"@,
        TokenType::RightBrace => "RightBrace"@,
        TokenType::Comma => "Comma"@,
        TokenType::Dot => "Dot"@,
        TokenType::Minus => "Minus"@,
        TokenType::Plus => "Plus"@,
        TokenType::SemiColon => "SemiColon"@,
        TokenType::Slash => "Slash"@,
        TokenType::Star => "Star"@,
        TokenType::Bang => "Bang"@,
        TokenType::BangEqual => "BangEqual"@,
        TokenType::Equal => "Equal"@,
        TokenType::EqualEqual => "EqualEqual"@,
        TokenType::Greater => "Greater"@,
        TokenType::GreaterEqual => "GreaterEqual"@,
        TokenType::Less => "Less"@,
        TokenType::LessEqual => "LessEqual"@,
        TokenType::Identifier(_) => "Identifier"@,
        TokenType::String(_) => "String"@,
        TokenType::Number(_) => "Number"@,
        TokenType::And => "And"@,
        TokenType::Class => "Class"@,
        TokenType::Else => "Else"@,
        TokenType::False => "False"@,
        TokenType::Fun => "Fun"@,
        TokenType::For => "For"@,
        TokenType::If => "If"@,
        TokenType::Nil => "Nil"@,
        TokenType::Or => "Or"@,
        TokenType::Print => "Print"@,
        TokenType::Return => "Return"@,
        TokenType::Super => "Super"@,
        TokenType::This => "This"@,
        TokenType::True => "True"@,
        TokenType::Var => "Var"@,
        TokenType::While => "While"@,
        TokenType::Eof => "Eof"@,
    }
}

/// The name of a token's kind, as error payloads carry it.
fn tt_name(t: &TokenType) -> (r: String)
    ensures
        r@ == tt_name_v(*t),
{
    proof {
        reveal(tt_name_v);
    }
    match t {
        TokenType::LeftParen => String::from_str("LeftParen"),
        TokenType::RightParen => String::from_str("RightParen"),
        TokenType::LeftBrace => String::from_str("LeftBrace"),
        TokenType::RightBrace => String::from_str("RightBrace"),
        TokenType::Comma => String::from_str("Comma"),
        TokenType::Dot => String::from_str("Dot"),
        TokenType::Minus => String::from_str("Minus"),
        TokenType::Plus => String::from_str("Plus"),
        TokenType::SemiColon => String::from_str("SemiColon"),
        TokenType::Slash => String::from_str("Slash"),
        TokenType::Star => String::from_str("Star"),
        TokenType::Bang => String::from_str("Bang"),
        TokenType::BangEqual => String::from_str("BangEqual"),
        TokenType::Equal => String::from_str("Equal"),
        TokenType::EqualEqual => String::from_str("EqualEqual"),
        TokenType::Greater => String::from_str("Greater"),
        TokenType::GreaterEqual => String::from_str("GreaterEqual"),
        TokenType::Less => String::from_str("Less"),
        TokenType::LessEqual => String::from_str("LessEqual"),
        TokenType::Identifier(_) => String::from_str("Identifier"),
        TokenType::String(_) => String::from_str("String"),
        TokenType::Number(_) => String::from_str("Number"),
        TokenType::And => String::from_str("And"),
        TokenType::Class => String::from_str("Class"),
        TokenType::Else => String::from_str("Else"),
        TokenType::False => String::from_str("False"),
        TokenType::Fun => String::from_str("Fun"),
        TokenType::For => String::from_str("For"),
        TokenType::If => String::from_str("If"),
        TokenType::Nil => String::from_str("Nil"),
        TokenType::Or => String::from_str("Or"),
        TokenType::Print => String::from_str("Print"),
        TokenType::Return => String::from_str("Return"),
        TokenType::Super => String::from_str("Super"),
        TokenType::This => String::from_str("This"),
        TokenType::True => String::from_str("True"),
        TokenType::Var => String::from_str("Var"),
        TokenType::While => String::from_str("While"),
        TokenType::Eof => String::from_str("Eof"),
    }
}

} // verus!

verus! {

// ---------------------------------------------------------------------
// The grammar, as spec functions over the token sequence and a reading
// position. Each one mirrors one production; the parsing budget (`fuel`)
// bounds the descent and the parsing loops, and a spent budget surfaces
// as `ParseErrV::Exhausted`.

/// What parsing one production yields: a node or an error, and the
/// position after it.
pub struct PStep {
    pub res: Result<AstV, ParseErrV>,
    pub pos: int,
}

/// What parsing a node list yields.
pub struct PListStep {
    pub res: Result<Seq<AstV>, ParseErrV>,
    pub pos: int,
}

/// What consuming one expected token yields.
pub struct PConsume {
    pub res: Result<(), ParseErrV>,
    pub pos: int,
}

/// What parsing a whole program yields: the statements parsed and the
/// position reached.
pub struct ProgStep {
    pub stmts: Seq<AstV>,
    pub pos: int,
}

/// Whether reading is over: past the last token, or at the explicit
/// end-of-input token.
pub open spec fn end_s(toks: Seq<Token>, pos: int) -> bool {
    pos >= toks.len() || toks[pos].token is Eof
}

/// A distinct code for each token kind, payloads aside.
pub open spec fn tt_code(t: TokenType) -> int {
    match t {
        TokenType::Identifier(_) => 0,
        TokenType::String(_) => 1,
        TokenType::Number(_) => 2,
        TokenType::LeftParen => 3,
        TokenType::RightParen => 4,
        TokenType::LeftBrace => 5,
        TokenType::RightBrace => 6,
        TokenType::Comma => 7,
        TokenType::Dot => 8,
        TokenType::Minus => 9,
        TokenType::Plus => 10,
        TokenType::SemiColon => 11,
        TokenType::Slash => 12,
        TokenType::Star => 13,
        TokenType::Bang => 14,
        TokenType::BangEqual => 15,
        TokenType::Equal => 16,
        TokenType::EqualEqual => 17,
        TokenType::Greater => 18,
        TokenType::GreaterEqual => 19,
        TokenType::Less => 20,
        TokenType::LessEqual => 21,
        TokenType::And => 22,
        TokenType::Class => 23,
        TokenType::Else => 24,
        TokenType::False => 25,
        TokenType::Fun => 26,
        TokenType::For => 27,
        TokenType::If => 28,
        TokenType::Nil => 29,
        TokenType::Or => 30,
        TokenType::Print => 31,
        TokenType::Return => 32,
        TokenType::Super => 33,
        TokenType::This => 34,
        TokenType::True => 35,
        TokenType::Var => 36,
        TokenType::While => 37,
        TokenType::Eof => 38,
    }
}

/// Whether two token kinds match, payloads included.
#[verifier::opaque]
pub open spec fn tt_matches(a: TokenType, b: TokenType) -> bool {
    match a {
        TokenType::Identifier(x) => b matches TokenType::Identifier(y) && x@ == y@,
        TokenType::String(x) => b matches TokenType::String(y) && x@ == y@,
        TokenType::Number(x) => b matches TokenType::Number(y) && x == y,
        _ => tt_code(a) == tt_code(b),
    }
}

/// Consuming one token of the expected kind; whatever stood there is
/// consumed either way, and a mismatch names the expected kind.
pub open spec fn consume_s(toks: Seq<Token>, pos: int, expected: TokenType) -> PConsume {
    if end_s(toks, pos) {
        PConsume { res: Err(ParseErrV::CouldNotReadToken), pos }
    } else if tt_matches(toks[pos].token, expected) {
        PConsume { res: Ok(()), pos: pos + 1 }
    } else {
        PConsume { res: Err(ParseErrV::NotFoundToken(tt_name_v(expected))), pos: pos + 1 }
    }
}

pub open spec fn declaration_s(toks: Seq<Token>, pos: int, fuel: nat) -> PStep
    decreases fuel,
{
    if fuel == 0 {
        PStep { res: Err(ParseErrV::Exhausted), pos }
    } else if end_s(toks, pos) {
        PStep { res: Err(ParseErrV::CouldNotReadToken), pos }
    } else {
        let f = (fuel - 1) as nat;
        match toks[pos].token {
            TokenType::Var => var_declaration_s(toks, pos + 1, f),
            TokenType::Fun => fun_declaration_s(toks, pos + 1, f),
            _ => statement_s(toks, pos, f),
        }
    }
}

pub open spec fn var_declaration_s(toks: Seq<Token>, pos: int, fuel: nat) -> PStep
    decreases fuel,
{
    if fuel == 0 {
        PStep { res: Err(ParseErrV::Exhausted), pos }
    } else if end_s(toks, pos) {
        PStep { res: Err(ParseErrV::CouldNotReadToken), pos }
    } else {
        match toks[pos].token {
            TokenType::Identifier(i) => declaration_identifier_s(
                toks,
                i@,
                pos + 1,
                (fuel - 1) as nat,
            ),
            _ => PStep { res: Err(ParseErrV::NotFoundToken("Identifier"@)), pos: pos + 1 },
        }
    }
}

pub open spec fn declaration_identifier_s(
    toks: Seq<Token>,
    name: Seq<char>,
    pos: int,
    fuel: nat,
) -> PStep
    decreases fuel,
{
    if fuel == 0 {
        PStep { res: Err(ParseErrV::Exhausted), pos }
    } else if end_s(toks, pos) {
        PStep { res: Err(ParseErrV::NotFoundToken("Identifier"@)), pos }
    } else {
        match toks[pos].token {
            TokenType::Equal => {
                let e = expression_s(toks, pos + 1, (fuel - 1) as nat);
                match e.res {
                    Ok(init) => {
                        let c = consume_s(toks, e.pos, TokenType::SemiColon);
                        match c.res {
                            Ok(_) => PStep {
                                res: Ok(AstV::Var(name, Box::new(init))),
                                pos: c.pos,
                            },
                            Err(er) => PStep { res: Err(er), pos: c.pos },
                        }
                    },
                    Err(_) => e,
                }
            },
            TokenType::SemiColon => PStep {
                res: Ok(AstV::Var(name, Box::new(AstV::Nil))),
                pos: pos + 1,
            },
            _ => PStep { res: Err(ParseErrV::NotFoundToken("SemiColon"@)), pos: pos + 1 },
        }
    }
}

pub open spec fn fun_declaration_s(toks: Seq<Token>, pos: int, fuel: nat) -> PStep
    decreases fuel,
{
    if fuel == 0 {
        PStep { res: Err(ParseErrV::Exhausted), pos }
    } else if end_s(toks, pos) {
        PStep { res: Err(ParseErrV::CouldNotReadToken), pos }
    } else {
        let f = (fuel - 1) as nat;
        match toks[pos].token {
            TokenType::Identifier(i) => {
                let c1 = consume_s(toks, pos + 1, TokenType::LeftParen);
                match c1.res {
                    Ok(_) => {
                        let ps = fun_parameters_s(toks, Seq::empty(), c1.pos, f);
                        match ps.res {
                            Ok(params) => {
                                let c2 = consume_s(toks, ps.pos, TokenType::RightParen);
                                match c2.res {
                                    Ok(_) => {
                                        let c3 = consume_s(toks, c2.pos, TokenType::LeftBrace);
                                        match c3.res {
                                            Ok(_) => {
                                                let b = block_statement_s(toks, c3.pos, f);
                                                match b.res {
                                                    Ok(body) => PStep {
                                                        res: Ok(
                                                            AstV::Fun(
                                                                i@,
                                                                params,
                                                                Box::new(body),
                                                            ),
                                                        ),
                                                        pos: b.pos,
                                                    },
                                                    Err(_) => b,
                                                }
                                            },
                                            Err(er) => PStep { res: Err(er), pos: c3.pos },
                                        }
                                    },
                                    Err(er) => PStep { res: Err(er), pos: c2.pos },
                                }
                            },
                            Err(er) => PStep { res: Err(er), pos: ps.pos },
                        }
                    },
                    Err(er) => PStep { res: Err(er), pos: c1.pos },
                }
            },
            _ => PStep { res: Err(ParseErrV::NotFoundToken("Identifier"@)), pos: pos + 1 },
        }
    }
}

/// The parameter list of a function declaration; the entry cap stops the
/// list at 255 names.
pub open spec fn fun_parameters_s(
    toks: Seq<Token>,
    acc: Seq<AstV>,
    pos: int,
    fuel: nat,
) -> PListStep
    decreases fuel,
{
    if fuel == 0 {
        PListStep { res: Err(ParseErrV::Exhausted), pos }
    } else if end_s(toks, pos) {
        PListStep { res: Err(ParseErrV::CouldNotReadToken), pos }
    } else {
        let f = (fuel - 1) as nat;
        match toks[pos].token {
            TokenType::RightParen => PListStep { res: Ok(acc), pos },
            TokenType::Comma => fun_parameters_s(toks, acc, pos + 1, f),
            _ => {
                let p = fun_one_parameter_s(toks, pos, f);
                match p.res {
                    Ok(param) => {
                        let acc2 = acc.push(param);
                        if acc2.len() >= 255 {
                            PListStep { res: Ok(acc2), pos: p.pos }
                        } else {
                            fun_parameters_s(toks, acc2, p.pos, f)
                        }
                    },
                    Err(er) => PListStep { res: Err(er), pos: p.pos },
                }
            },
        }
    }
}

pub open spec fn fun_one_parameter_s(toks: Seq<Token>, pos: int, fuel: nat) -> PStep
    decreases fuel,
{
    if fuel == 0 {
        PStep { res: Err(ParseErrV::Exhausted), pos }
    } else if end_s(toks, pos) {
        PStep { res: Err(ParseErrV::CouldNotReadToken), pos }
    } else {
        match toks[pos].token {
            TokenType::Identifier(_) => primary_s(toks, pos, (fuel - 1) as nat),
            _ => PStep { res: Err(ParseErrV::NotFoundToken("Identifier"@)), pos: pos + 1 },
        }
    }
}

pub open spec fn statement_s(toks: Seq<Token>, pos: int, fuel: nat) -> PStep
    decreases fuel,
{
    if fuel == 0 {
        PStep { res: Err(ParseErrV::Exhausted), pos }
    } else if end_s(toks, pos) {
        PStep { res: Err(ParseErrV::CouldNotReadToken), pos }
    } else {
        let f = (fuel - 1) as nat;
        match toks[pos].token {
            TokenType::Print => print_statement_s(toks, pos + 1, f),
            TokenType::If => if_statement_s(toks, pos + 1, f),
            TokenType::While => while_statement_s(toks, pos + 1, f),
            TokenType::For => for_statement_s(toks, pos + 1, f),
            TokenType::Return => return_statement_s(toks, pos + 1, f),
            TokenType::LeftBrace => block_statement_s(toks, pos + 1, f),
            _ => expression_stmt_s(toks, pos, f),
        }
    }
}

pub open spec fn print_statement_s(toks: Seq<Token>, pos: int, fuel: nat) -> PStep
    decreases fuel,
{
    if fuel == 0 {
        PStep { res: Err(ParseErrV::Exhausted), pos }
    } else {
        let e = expression_s(toks, pos, (fuel - 1) as nat);
        match e.res {
            Ok(operand) => {
                let c = consume_s(toks, e.pos, TokenType::SemiColon);
                match c.res {
                    Ok(_) => PStep { res: Ok(AstV::Print(Box::new(operand))), pos: c.pos },
                    Err(er) => PStep { res: Err(er), pos: c.pos },
                }
            },
            Err(_) => e,
        }
    }
}

pub open spec fn return_statement_s(toks: Seq<Token>, pos: int, fuel: nat) -> PStep
    decreases fuel,
{
    if fuel == 0 {
        PStep { res: Err(ParseErrV::Exhausted), pos }
    } else if end_s(toks, pos) {
        PStep { res: Err(ParseErrV::CouldNotReadToken), pos }
    } else {
        let f = (fuel - 1) as nat;
        let e = if toks[pos].token is SemiColon {
            PStep { res: Ok(AstV::Nil), pos }
        } else {
            expression_s(toks, pos, f)
        };
        match e.res {
            Ok(operand) => {
                let c = consume_s(toks, e.pos, TokenType::SemiColon);
                match c.res {
                    Ok(_) => PStep { res: Ok(AstV::Return(Box::new(operand))), pos: c.pos },
                    Err(er) => PStep { res: Err(er), pos: c.pos },
                }
            },
            Err(_) => e,
        }
    }
}

pub open spec fn while_statement_s(toks: Seq<Token>, pos: int, fuel: nat) -> PStep
    decreases fuel,
{
    if fuel == 0 {
        PStep { res: Err(ParseErrV::Exhausted), pos }
    } else {
        let f = (fuel - 1) as nat;
        let c1 = consume_s(toks, pos, TokenType::LeftParen);
        match c1.res {
            Ok(_) => {
                let cond = expression_s(toks, c1.pos, f);
                match cond.res {
                    Ok(condition) => {
                        let c2 = consume_s(toks, cond.pos, TokenType::RightParen);
                        match c2.res {
                            Ok(_) => {
                                let b = statement_s(toks, c2.pos, f);
                                match b.res {
                                    Ok(body) => PStep {
                                        res: Ok(
                                            AstV::While(Box::new(condition), Box::new(body)),
                                        ),
                                        pos: b.pos,
                                    },
                                    Err(_) => b,
                                }
                            },
                            Err(er) => PStep { res: Err(er), pos: c2.pos },
                        }
                    },
                    Err(_) => cond,
                }
            },
            Err(er) => PStep { res: Err(er), pos: c1.pos },
        }
    }
}

pub open spec fn for_statement_s(toks: Seq<Token>, pos: int, fuel: nat) -> PStep
    decreases fuel,
{
    if fuel == 0 {
        PStep { res: Err(ParseErrV::Exhausted), pos }
    } else {
        let f = (fuel - 1) as nat;
        let c1 = consume_s(toks, pos, TokenType::LeftParen);
        match c1.res {
            Ok(_) => {
                let init = for_initialize_s(toks, c1.pos, f);
                match init.res {
                    Ok(initialize) => {
                        let cond = for_condition_s(toks, init.pos, f);
                        match cond.res {
                            Ok(condition) => {
                                let c2 = consume_s(toks, cond.pos, TokenType::SemiColon);
                                match c2.res {
                                    Ok(_) => {
                                        let incr = for_increment_s(toks, c2.pos, f);
                                        match incr.res {
                                            Ok(increment) => {
                                                let c3 = consume_s(
                                                    toks,
                                                    incr.pos,
                                                    TokenType::RightParen,
                                                );
                                                match c3.res {
                                                    Ok(_) => {
                                                        let b = statement_s(toks, c3.pos, f);
                                                        match b.res {
                                                            Ok(body) => PStep {
                                                                res: Ok(
                                                                    AstV::Block(
                                                                        seq![
                                                                            initialize,
                                                                            AstV::While(
                                                                                Box::new(
                                                                                    condition,
                                                                                ),
                                                                                Box::new(
                                                                                    AstV::Block(
                                                                                        seq![
                                                                                            body,
                                                                                            increment,
                                                                                        ],
                                                                                    ),
                                                                                ),
                                                                            ),
                                                                        ],
                                                                    ),
                                                                ),
                                                                pos: b.pos,
                                                            },
                                                            Err(_) => b,
                                                        }
                                                    },
                                                    Err(er) => PStep {
                                                        res: Err(er),
                                                        pos: c3.pos,
                                                    },
                                                }
                                            },
                                            Err(_) => incr,
                                        }
                                    },
                                    Err(er) => PStep { res: Err(er), pos: c2.pos },
                                }
                            },
                            Err(_) => cond,
                        }
                    },
                    Err(_) => init,
                }
            },
            Err(er) => PStep { res: Err(er), pos: c1.pos },
        }
    }
}

pub open spec fn for_initialize_s(toks: Seq<Token>, pos: int, fuel: nat) -> PStep
    decreases fuel,
{
    if fuel == 0 {
        PStep { res: Err(ParseErrV::Exhausted), pos }
    } else if end_s(toks, pos) {
        PStep { res: Err(ParseErrV::CouldNotReadToken), pos }
    } else {
        let f = (fuel - 1) as nat;
        match toks[pos].token {
            TokenType::SemiColon => PStep { res: Ok(AstV::Nil), pos: pos + 1 },
            TokenType::Var => var_declaration_s(toks, pos + 1, f),
            _ => expression_stmt_s(toks, pos, f),
        }
    }
}

pub open spec fn for_condition_s(toks: Seq<Token>, pos: int, fuel: nat) -> PStep
    decreases fuel,
{
    if fuel == 0 {
        PStep { res: Err(ParseErrV::Exhausted), pos }
    } else if end_s(toks, pos) {
        PStep { res: Err(ParseErrV::CouldNotReadToken), pos }
    } else {
        match toks[pos].token {
            TokenType::SemiColon => PStep { res: Ok(AstV::True), pos },
            _ => expression_s(toks, pos, (fuel - 1) as nat),
        }
    }
}

pub open spec fn for_increment_s(toks: Seq<Token>, pos: int, fuel: nat) -> PStep
    decreases fuel,
{
    if fuel == 0 {
        PStep { res: Err(ParseErrV::Exhausted), pos }
    } else if end_s(toks, pos) {
        PStep { res: Err(ParseErrV::CouldNotReadToken), pos }
    } else {
        match toks[pos].token {
            TokenType::RightParen => PStep { res: Ok(AstV::Nil), pos },
            _ => expression_s(toks, pos, (fuel - 1) as nat),
        }
    }
}

pub open spec fn if_statement_s(toks: Seq<Token>, pos: int, fuel: nat) -> PStep
    decreases fuel,
{
    if fuel == 0 {
        PStep { res: Err(ParseErrV::Exhausted), pos }
    } else {
        let f = (fuel - 1) as nat;
        let c1 = consume_s(toks, pos, TokenType::LeftParen);
        match c1.res {
            Ok(_) => {
                let cond = expression_s(toks, c1.pos, f);
                match cond.res {
                    Ok(condition) => {
                        let c2 = consume_s(toks, cond.pos, TokenType::RightParen);
                        match c2.res {
                            Ok(_) => {
                                let t = statement_s(toks, c2.pos, f);
                                match t.res {
                                    Ok(then_stmt) => {
                                        if end_s(toks, t.pos) {
                                            PStep {
                                                res: Ok(
                                                    AstV::If(
                                                        Box::new(condition),
                                                        Box::new(then_stmt),
                                                        Box::new(AstV::Nil),
                                                    ),
                                                ),
                                                pos: t.pos,
                                            }
                                        } else if toks[t.pos].token is Else {
                                            let e = statement_s(toks, t.pos + 1, f);
                                            match e.res {
                                                Ok(else_stmt) => PStep {
                                                    res: Ok(
                                                        AstV::If(
                                                            Box::new(condition),
                                                            Box::new(then_stmt),
                                                            Box::new(else_stmt),
                                                        ),
                                                    ),
                                                    pos: e.pos,
                                                },
                                                Err(_) => e,
                                            }
                                        } else {
                                            PStep {
                                                res: Ok(
                                                    AstV::If(
                                                        Box::new(condition),
                                                        Box::new(then_stmt),
                                                        Box::new(AstV::Nil),
                                                    ),
                                                ),
                                                pos: t.pos,
                                            }
                                        }
                                    },
                                    Err(_) => t,
                                }
                            },
                            Err(er) => PStep { res: Err(er), pos: c2.pos },
                        }
                    },
                    Err(_) => cond,
                }
            },
            Err(er) => PStep { res: Err(er), pos: c1.pos },
        }
    }
}

/// The statements of a brace-delimited block, up to its closing brace.
pub open spec fn block_more_s(toks: Seq<Token>, acc: Seq<AstV>, pos: int, fuel: nat) -> PListStep
    decreases fuel,
{
    if fuel == 0 {
        PListStep { res: Err(ParseErrV::Exhausted), pos }
    } else if end_s(toks, pos) {
        PListStep { res: Err(ParseErrV::CouldNotReadToken), pos }
    } else {
        let f = (fuel - 1) as nat;
        match toks[pos].token {
            TokenType::RightBrace => PListStep { res: Ok(acc), pos },
            _ => {
                let d = declaration_s(toks, pos, f);
                match d.res {
                    Ok(stmt) => block_more_s(toks, acc.push(stmt), d.pos, f),
                    Err(er) => PListStep { res: Err(er), pos: d.pos },
                }
            },
        }
    }
}

pub open spec fn block_statement_s(toks: Seq<Token>, pos: int, fuel: nat) -> PStep
    decreases fuel,
{
    if fuel == 0 {
        PStep { res: Err(ParseErrV::Exhausted), pos }
    } else {
        let b = block_more_s(toks, Seq::empty(), pos, (fuel - 1) as nat);
        match b.res {
            Ok(stmts) => {
                let c = consume_s(toks, b.pos, TokenType::RightBrace);
                match c.res {
                    Ok(_) => PStep { res: Ok(AstV::Block(stmts)), pos: c.pos },
                    Err(er) => PStep { res: Err(er), pos: c.pos },
                }
            },
            Err(er) => PStep { res: Err(er), pos: b.pos },
        }
    }
}

pub open spec fn expression_stmt_s(toks: Seq<Token>, pos: int, fuel: nat) -> PStep
    decreases fuel,
{
    if fuel == 0 {
        PStep { res: Err(ParseErrV::Exhausted), pos }
    } else {
        let e = expression_s(toks, pos, (fuel - 1) as nat);
        match e.res {
            Ok(operand) => {
                let c = consume_s(toks, e.pos, TokenType::SemiColon);
                match c.res {
                    Ok(_) => PStep { res: Ok(operand), pos: c.pos },
                    Err(er) => PStep { res: Err(er), pos: c.pos },
                }
            },
            Err(_) => e,
        }
    }
}

#[verifier::opaque]
pub open spec fn expression_s(toks: Seq<Token>, pos: int, fuel: nat) -> PStep
    decreases fuel,
{
    if fuel == 0 {
        PStep { res: Err(ParseErrV::Exhausted), pos }
    } else {
        assignment_s(toks, pos, (fuel - 1) as nat)
    }
}

/// Assignment is right-associative and legal only when the left side
/// parsed as a bare name.
pub open spec fn assignment_s(toks: Seq<Token>, pos: int, fuel: nat) -> PStep
    decreases fuel,
{
    if fuel == 0 {
        PStep { res: Err(ParseErrV::Exhausted), pos }
    } else {
        let f = (fuel - 1) as nat;
        let l = or_parse_s(toks, pos, f);
        match l.res {
            Ok(target) => {
                if end_s(toks, l.pos) {
                    PStep { res: Err(ParseErrV::CouldNotReadToken), pos: l.pos }
                } else if toks[l.pos].token is Equal {
                    match target {
                        AstV::Identifier(name) => {
                            let r = assignment_s(toks, l.pos + 1, f);
                            match r.res {
                                Ok(value) => PStep {
                                    res: Ok(AstV::Assign(name, Box::new(value))),
                                    pos: r.pos,
                                },
                                Err(_) => r,
                            }
                        },
                        _ => PStep {
                            res: Err(ParseErrV::NotFoundAstType("Identifier"@)),
                            pos: l.pos + 1,
                        },
                    }
                } else {
                    PStep { res: Ok(target), pos: l.pos }
                }
            },
            Err(_) => l,
        }
    }
}

/// One left-associative `or` fold step.
pub open spec fn or_more_s(toks: Seq<Token>, acc: AstV, pos: int, fuel: nat) -> PStep
    decreases fuel,
{
    if fuel == 0 {
        PStep { res: Err(ParseErrV::Exhausted), pos }
    } else if end_s(toks, pos) {
        PStep { res: Err(ParseErrV::CouldNotReadToken), pos }
    } else {
        let f = (fuel - 1) as nat;
        match toks[pos].token {
            TokenType::Or => {
                let r = and_parse_s(toks, pos + 1, f);
                match r.res {
                    Ok(right) => or_more_s(
                        toks,
                        AstV::Or(Box::new(acc), Box::new(right)),
                        r.pos,
                        f,
                    ),
                    Err(_) => r,
                }
            },
            _ => PStep { res: Ok(acc), pos },
        }
    }
}

pub open spec fn or_parse_s(toks: Seq<Token>, pos: int, fuel: nat) -> PStep
    decreases fuel,
{
    if fuel == 0 {
        PStep { res: Err(ParseErrV::Exhausted), pos }
    } else {
        let f = (fuel - 1) as nat;
        let l = and_parse_s(toks, pos, f);
        match l.res {
            Ok(left) => or_more_s(toks, left, l.pos, f),
            Err(_) => l,
        }
    }
}

/// One left-associative `and` fold step.
pub open spec fn and_more_s(toks: Seq<Token>, acc: AstV, pos: int, fuel: nat) -> PStep
    decreases fuel,
{
    if fuel == 0 {
        PStep { res: Err(ParseErrV::Exhausted), pos }
    } else if end_s(toks, pos) {
        PStep { res: Err(ParseErrV::CouldNotReadToken), pos }
    } else {
        let f = (fuel - 1) as nat;
        match toks[pos].token {
            TokenType::And => {
                let r = equality_s(toks, pos + 1, f);
                match r.res {
                    Ok(right) => and_more_s(
                        toks,
                        AstV::And(Box::new(acc), Box::new(right)),
                        r.pos,
                        f,
                    ),
                    Err(_) => r,
                }
            },
            _ => PStep { res: Ok(acc), pos },
        }
    }
}

pub open spec fn and_parse_s(toks: Seq<Token>, pos: int, fuel: nat) -> PStep
    decreases fuel,
{
    if fuel == 0 {
        PStep { res: Err(ParseErrV::Exhausted), pos }
    } else {
        let f = (fuel - 1) as nat;
        let l = equality_s(toks, pos, f);
        match l.res {
            Ok(left) => and_more_s(toks, left, l.pos, f),
            Err(_) => l,
        }
    }
}

/// One left-associative equality fold step; reading may stop here.
pub open spec fn equality_more_s(toks: Seq<Token>, acc: AstV, pos: int, fuel: nat) -> PStep
    decreases fuel,
{
    if fuel == 0 {
        PStep { res: Err(ParseErrV::Exhausted), pos }
    } else if end_s(toks, pos) {
        PStep { res: Ok(acc), pos }
    } else {
        let f = (fuel - 1) as nat;
        match toks[pos].token {
            TokenType::BangEqual => {
                let r = comparison_s(toks, pos + 1, f);
                match r.res {
                    Ok(right) => equality_more_s(
                        toks,
                        AstV::BangEqual(Box::new(acc), Box::new(right)),
                        r.pos,
                        f,
                    ),
                    Err(_) => r,
                }
            },
            TokenType::EqualEqual => {
                let r = comparison_s(toks, pos + 1, f);
                match r.res {
                    Ok(right) => equality_more_s(
                        toks,
                        AstV::EqualEqual(Box::new(acc), Box::new(right)),
                        r.pos,
                        f,
                    ),
                    Err(_) => r,
                }
            },
            _ => PStep { res: Ok(acc), pos },
        }
    }
}

pub open spec fn equality_s(toks: Seq<Token>, pos: int, fuel: nat) -> PStep
    decreases fuel,
{
    if fuel == 0 {
        PStep { res: Err(ParseErrV::Exhausted), pos }
    } else {
        let f = (fuel - 1) as nat;
        let l = comparison_s(toks, pos, f);
        match l.res {
            Ok(left) => equality_more_s(toks, left, l.pos, f),
            Err(_) => l,
        }
    }
}

/// One left-associative comparison fold step; reading may stop here.
pub open spec fn comparison_more_s(toks: Seq<Token>, acc: AstV, pos: int, fuel: nat) -> PStep
    decreases fuel,
{
    if fuel == 0 {
        PStep { res: Err(ParseErrV::Exhausted), pos }
    } else if end_s(toks, pos) {
        PStep { res: Ok(acc), pos }
    } else {
        let f = (fuel - 1) as nat;
        match toks[pos].token {
            TokenType::Greater => {
                let r = term_s(toks, pos + 1, f);
                match r.res {
                    Ok(right) => comparison_more_s(
                        toks,
                        AstV::Greater(Box::new(acc), Box::new(right)),
                        r.pos,
                        f,
                    ),
                    Err(_) => r,
                }
            },
            TokenType::GreaterEqual => {
                let r = term_s(toks, pos + 1, f);
                match r.res {
                    Ok(right) => comparison_more_s(
                        toks,
                        AstV::GreaterEqual(Box::new(acc), Box::new(right)),
                        r.pos,
                        f,
                    ),
                    Err(_) => r,
                }
            },
            TokenType::Less => {
                let r = term_s(toks, pos + 1, f);
                match r.res {
                    Ok(right) => comparison_more_s(
                        toks,
                        AstV::Less(Box::new(acc), Box::new(right)),
                        r.pos,
                        f,
                    ),
                    Err(_) => r,
                }
            },
            TokenType::LessEqual => {
                let r = term_s(toks, pos + 1, f);
                match r.res {
                    Ok(right) => comparison_more_s(
                        toks,
                        AstV::LessEqual(Box::new(acc), Box::new(right)),
                        r.pos,
                        f,
                    ),
                    Err(_) => r,
                }
            },
            _ => PStep { res: Ok(acc), pos },
        }
    }
}

pub open spec fn comparison_s(toks: Seq<Token>, pos: int, fuel: nat) -> PStep
    decreases fuel,
{
    if fuel == 0 {
        PStep { res: Err(ParseErrV::Exhausted), pos }
    } else {
        let f = (fuel - 1) as nat;
        let l = term_s(toks, pos, f);
        match l.res {
            Ok(left) => comparison_more_s(toks, left, l.pos, f),
            Err(_) => l,
        }
    }
}

/// One left-associative additive fold step; reading may stop here.
pub open spec fn term_more_s(toks: Seq<Token>, acc: AstV, pos: int, fuel: nat) -> PStep
    decreases fuel,
{
    if fuel == 0 {
        PStep { res: Err(ParseErrV::Exhausted), pos }
    } else if end_s(toks, pos) {
        PStep { res: Ok(acc), pos }
    } else {
        let f = (fuel - 1) as nat;
        match toks[pos].token {
            TokenType::Minus => {
                let r = factor_s(toks, pos + 1, f);
                match r.res {
                    Ok(right) => term_more_s(
                        toks,
                        AstV::Minus(Box::new(acc), Box::new(right)),
                        r.pos,
                        f,
                    ),
                    Err(_) => r,
                }
            },
            TokenType::Plus => {
                let r = factor_s(toks, pos + 1, f);
                match r.res {
                    Ok(right) => term_more_s(
                        toks,
                        AstV::Plus(Box::new(acc), Box::new(right)),
                        r.pos,
                        f,
                    ),
                    Err(_) => r,
                }
            },
            _ => PStep { res: Ok(acc), pos },
        }
    }
}

pub open spec fn term_s(toks: Seq<Token>, pos: int, fuel: nat) -> PStep
    decreases fuel,
{
    if fuel == 0 {
        PStep { res: Err(ParseErrV::Exhausted), pos }
    } else {
        let f = (fuel - 1) as nat;
        let l = factor_s(toks, pos, f);
        match l.res {
            Ok(left) => term_more_s(toks, left, l.pos, f),
            Err(_) => l,
        }
    }
}

/// One left-associative multiplicative fold step; reading may stop here.
pub open spec fn factor_more_s(toks: Seq<Token>, acc: AstV, pos: int, fuel: nat) -> PStep
    decreases fuel,
{
    if fuel == 0 {
        PStep { res: Err(ParseErrV::Exhausted), pos }
    } else if end_s(toks, pos) {
        PStep { res: Ok(acc), pos }
    } else {
        let f = (fuel - 1) as nat;
        match toks[pos].token {
            TokenType::Slash => {
                let r = unary_s(toks, pos + 1, f);
                match r.res {
                    Ok(right) => factor_more_s(
                        toks,
                        AstV::Div(Box::new(acc), Box::new(right)),
                        r.pos,
                        f,
                    ),
                    Err(_) => r,
                }
            },
            TokenType::Star => {
                let r = unary_s(toks, pos + 1, f);
                match r.res {
                    Ok(right) => factor_more_s(
                        toks,
                        AstV::Mul(Box::new(acc), Box::new(right)),
                        r.pos,
                        f,
                    ),
                    Err(_) => r,
                }
            },
            _ => PStep { res: Ok(acc), pos },
        }
    }
}

pub open spec fn factor_s(toks: Seq<Token>, pos: int, fuel: nat) -> PStep
    decreases fuel,
{
    if fuel == 0 {
        PStep { res: Err(ParseErrV::Exhausted), pos }
    } else {
        let f = (fuel - 1) as nat;
        let l = unary_s(toks, pos, f);
        match l.res {
            Ok(left) => factor_more_s(toks, left, l.pos, f),
            Err(_) => l,
        }
    }
}

pub open spec fn unary_s(toks: Seq<Token>, pos: int, fuel: nat) -> PStep
    decreases fuel,
{
    if fuel == 0 {
        PStep { res: Err(ParseErrV::Exhausted), pos }
    } else if end_s(toks, pos) {
        PStep { res: Err(ParseErrV::CouldNotReadToken), pos }
    } else {
        let f = (fuel - 1) as nat;
        match toks[pos].token {
            TokenType::Bang => {
                let e = unary_s(toks, pos + 1, f);
                match e.res {
                    Ok(operand) => PStep { res: Ok(AstV::Bang(Box::new(operand))), pos: e.pos },
                    Err(_) => e,
                }
            },
            TokenType::Minus => {
                let e = unary_s(toks, pos + 1, f);
                match e.res {
                    Ok(operand) => PStep {
                        res: Ok(AstV::UnaryMinus(Box::new(operand))),
                        pos: e.pos,
                    },
                    Err(_) => e,
                }
            },
            _ => call_s(toks, pos, f),
        }
    }
}

/// The argument list of a call; a failed argument is skipped, and the
/// entry cap stops the list at 255 values.
pub open spec fn arguments_more_s(
    toks: Seq<Token>,
    acc: Seq<AstV>,
    pos: int,
    fuel: nat,
) -> PListStep
    decreases fuel,
{
    if fuel == 0 {
        PListStep { res: Err(ParseErrV::Exhausted), pos }
    } else if end_s(toks, pos) {
        PListStep { res: Err(ParseErrV::CouldNotReadToken), pos }
    } else {
        let f = (fuel - 1) as nat;
        match toks[pos].token {
            TokenType::RightParen => PListStep { res: Ok(acc), pos },
            TokenType::Comma => arguments_more_s(toks, acc, pos + 1, f),
            _ => {
                let e = expression_s(toks, pos, f);
                let acc2 = match e.res {
                    Ok(arg) => acc.push(arg),
                    Err(_) => acc,
                };
                if acc2.len() >= 255 {
                    PListStep { res: Ok(acc2), pos: e.pos }
                } else {
                    arguments_more_s(toks, acc2, e.pos, f)
                }
            },
        }
    }
}

pub open spec fn arguments_s(toks: Seq<Token>, pos: int, fuel: nat) -> PListStep
    decreases fuel,
{
    if fuel == 0 {
        PListStep { res: Err(ParseErrV::Exhausted), pos }
    } else {
        let a = arguments_more_s(toks, Seq::empty(), pos, (fuel - 1) as nat);
        match a.res {
            Ok(args) => {
                let c = consume_s(toks, a.pos, TokenType::RightParen);
                match c.res {
                    Ok(_) => PListStep { res: Ok(args), pos: c.pos },
                    Err(er) => PListStep { res: Err(er), pos: c.pos },
                }
            },
            Err(er) => PListStep { res: Err(er), pos: a.pos },
        }
    }
}

/// A call is legal only when the callee parsed as a bare name.
pub open spec fn call_s(toks: Seq<Token>, pos: int, fuel: nat) -> PStep
    decreases fuel,
{
    if fuel == 0 {
        PStep { res: Err(ParseErrV::Exhausted), pos }
    } else {
        let f = (fuel - 1) as nat;
        let p = primary_s(toks, pos, f);
        match p.res {
            Ok(callee) => {
                if end_s(toks, p.pos) {
                    PStep { res: Err(ParseErrV::CouldNotReadToken), pos: p.pos }
                } else if toks[p.pos].token is LeftParen {
                    let a = arguments_s(toks, p.pos + 1, f);
                    match a.res {
                        Ok(args) => match callee {
                            AstV::Identifier(name) => PStep {
                                res: Ok(AstV::Call(name, args)),
                                pos: a.pos,
                            },
                            _ => PStep {
                                res: Err(ParseErrV::NotFoundAstType("Identifier"@)),
                                pos: a.pos,
                            },
                        },
                        Err(er) => PStep { res: Err(er), pos: a.pos },
                    }
                } else {
                    PStep { res: Ok(callee), pos: p.pos }
                }
            },
            Err(_) => p,
        }
    }
}

pub open spec fn primary_s(toks: Seq<Token>, pos: int, fuel: nat) -> PStep
    decreases fuel,
{
    if fuel == 0 {
        PStep { res: Err(ParseErrV::Exhausted), pos }
    } else if end_s(toks, pos) {
        PStep { res: Err(ParseErrV::CouldNotReadToken), pos }
    } else {
        match toks[pos].token {
            TokenType::Number(n) => PStep { res: Ok(AstV::Number(n)), pos: pos + 1 },
            TokenType::String(s) => PStep { res: Ok(AstV::String(s@)), pos: pos + 1 },
            TokenType::True => PStep { res: Ok(AstV::True), pos: pos + 1 },
            TokenType::False => PStep { res: Ok(AstV::False), pos: pos + 1 },
            TokenType::Nil => PStep { res: Ok(AstV::Nil), pos: pos + 1 },
            TokenType::LeftParen => {
                let e = expression_s(toks, pos + 1, (fuel - 1) as nat);
                match e.res {
                    Ok(inner) => {
                        let c = consume_s(toks, e.pos, TokenType::RightParen);
                        match c.res {
                            Ok(_) => PStep {
                                res: Ok(AstV::Grouping(Box::new(inner))),
                                pos: c.pos,
                            },
                            Err(er) => PStep { res: Err(er), pos: c.pos },
                        }
                    },
                    Err(_) => e,
                }
            },
            TokenType::Identifier(i) => PStep { res: Ok(AstV::Identifier(i@)), pos: pos + 1 },
            _ => PStep {
                res: Err(ParseErrV::NotSupportToken(tt_name_v(toks[pos].token))),
                pos: pos + 1,
            },
        }
    }
}

/// Whether a token can begin a new statement, for panic-mode recovery.
pub open spec fn is_boundary(t: TokenType) -> bool {
    t is Class || t is For || t is Fun || t is If || t is Print || t is Var || t is Return
        || t is While
}

/// Discards tokens up to a statement boundary: past a statement
/// terminator, or up to (not past) a token that can begin a statement.
pub open spec fn synchronize_s(toks: Seq<Token>, pos: int) -> int
    decreases toks.len() - pos,
{
    if end_s(toks, pos) || pos < 0 {
        pos
    } else if toks[pos].token is SemiColon {
        pos + 1
    } else if is_boundary(toks[pos].token) {
        pos
    } else {
        synchronize_s(toks, pos + 1)
    }
}

/// Parses a whole program: statements accumulate, and a failed statement
/// is skipped by backing up one token and synchronizing.
pub open spec fn program_s(toks: Seq<Token>, acc: Seq<AstV>, pos: int, fuel: nat) -> ProgStep
    decreases fuel,
{
    if fuel == 0 {
        ProgStep { stmts: acc, pos }
    } else {
        let f = (fuel - 1) as nat;
        let d = declaration_s(toks, pos, f);
        let acc2 = match d.res {
            Ok(stmt) => acc.push(stmt),
            Err(_) => acc,
        };
        let pos2 = match d.res {
            Ok(_) => d.pos,
            Err(_) => synchronize_s(toks, if d.pos > 0 { d.pos - 1 } else { 0 }),
        };
        if end_s(toks, pos2) {
            ProgStep { stmts: acc2, pos: pos2 }
        } else {
            program_s(toks, acc2, pos2, f)
        }
    }
}

/// The parsing budget for a token sequence of the given length: ample
/// for any descent the grammar can make over it.
pub open spec fn parse_fuel_s(n: nat) -> nat {
    let m = if n > 0x4000_0000 {
        0x4000_0000 as nat
    } else {
        n
    };
    (m + 2) * (m + 2) * 8
}

} // verus!

verus! {

/// The views of a parsed statement list (same as [`asts_view`], provided
/// as a lemma target for accumulation).
proof fn lemma_asts_view_push(s: Seq<AstType>, a: AstType)
    ensures
        asts_view(s.push(a)) == asts_view(s).push(ast_view(a)),
{
    assert(asts_view(s.push(a)) =~= asts_view(s).push(ast_view(a)));
}

/// The recursive-descent parser: a reading position over a borrowed
/// token sequence. [`Parser::program`] is proved to agree exactly with
/// the grammar's spec functions.
pub struct Parser<'a> {
    read_pos: usize,
    tokens: &'a Vec<Token>,
}

impl<'a> Parser<'a> {
    /// The token sequence being read.
    pub closed spec fn spec_tokens(&self) -> Seq<Token> {
        self.tokens@
    }

    /// The current reading position.
    pub closed spec fn spec_pos(&self) -> int {
        self.read_pos as int
    }

    /// The reading position never runs past the token sequence.
    pub open spec fn wf_p(&self) -> bool {
        0 <= self.spec_pos() <= self.spec_tokens().len()
    }

    /// A parser at the start of the token sequence.
    pub fn new(tokens: &'a Vec<Token>) -> (r: Self)
        ensures
            r.wf_p(),
            r.spec_tokens() == tokens@,
            r.spec_pos() == 0,
    {
        Parser { read_pos: 0, tokens }
    }

    /// Whether reading is over: past the last token, or at the explicit
    /// end-of-input token.
    fn end(&self) -> (r: bool)
        requires
            self.wf_p(),
        ensures
            r == end_s(self.spec_tokens(), self.spec_pos()),
    {
        self.read_pos >= self.tokens.len() || matches!(
            &self.tokens[self.read_pos].token,
            TokenType::Eof
        )
    }

    /// Steps back one token (parsing peeks by reading and backing up).
    fn back(&mut self)
        requires
            old(self).wf_p(),
        ensures
            final(self).wf_p(),
            final(self).spec_tokens() == old(self).spec_tokens(),
            final(self).spec_pos() == if old(self).spec_pos() > 0 {
                old(self).spec_pos() - 1
            } else {
                0
            },
    {
        if self.read_pos > 0 {
            self.read_pos -= 1;
        }
    }

    /// Steps past the token just read.
    fn advance(&mut self)
        requires
            old(self).wf_p(),
            !end_s(old(self).spec_tokens(), old(self).spec_pos()),
        ensures
            final(self).wf_p(),
            final(self).spec_tokens() == old(self).spec_tokens(),
            final(self).spec_pos() == old(self).spec_pos() + 1,
    {
        let n = self.tokens.len();
        self.read_pos += 1;
    }

    /// Consumes one token of the expected kind; whatever stood there is
    /// consumed either way, and a mismatch names the expected kind.
    fn consume(&mut self, expected: TokenType) -> (r: Result<(), ParseError>)
        requires
            old(self).wf_p(),
        ensures
            final(self).wf_p(),
            final(self).spec_tokens() == old(self).spec_tokens(),
            ({
                let s = consume_s(old(self).spec_tokens(), old(self).spec_pos(), expected);
                &&& final(self).spec_pos() == s.pos
                &&& match r {
                    Ok(_) => s.res == Ok::<(), ParseErrV>(()),
                    Err(e) => s.res == Err::<(), ParseErrV>(e@),
                }
            }),
    {
        if self.end() {
            return Err(ParseError::CouldNotReadToken);
        }
        let matched = tt_eq(&self.tokens[self.read_pos].token, &expected);
        self.advance();
        if matched {
            Ok(())
        } else {
            Err(ParseError::NotFoundToken(tt_name(&expected)))
        }
    }

    /// Discards tokens up to a statement boundary: past a statement
    /// terminator, or up to a token that can begin a statement.
    fn synchronize(&mut self)
        requires
            old(self).wf_p(),
        ensures
            final(self).wf_p(),
            final(self).spec_tokens() == old(self).spec_tokens(),
            final(self).spec_pos() == synchronize_s(
                old(self).spec_tokens(),
                old(self).spec_pos(),
            ),
    {
        loop
            invariant
                self.wf_p(),
                self.spec_tokens() == old(self).spec_tokens(),
                synchronize_s(self.spec_tokens(), self.spec_pos()) == synchronize_s(
                    old(self).spec_tokens(),
                    old(self).spec_pos(),
                ),
            decreases self.spec_tokens().len() - self.spec_pos(),
        {
            if self.end() {
                return;
            }
            match &self.tokens[self.read_pos].token {
                TokenType::SemiColon => {
                    self.advance();
                    return;
                },
                TokenType::Class
                | TokenType::For
                | TokenType::Fun
                | TokenType::If
                | TokenType::Print
                | TokenType::Var
                | TokenType::Return
                | TokenType::While => {
                    return;
                },
                _ => {
                    self.advance();
                },
            }
        }
    }

    /// Parses a whole program: an ordered list of top-level statements.
    /// A failed statement is skipped by panic-mode recovery and parsing
    /// resumes at the next statement boundary. Agrees exactly with
    /// [`program_s`] under the budget [`parse_fuel_s`].
    pub fn program(&mut self) -> (r: Vec<AstType>)
        requires
            old(self).wf_p(),
        ensures
            final(self).wf_p(),
            final(self).spec_tokens() == old(self).spec_tokens(),
            ({
                let p = program_s(
                    old(self).spec_tokens(),
                    Seq::empty(),
                    old(self).spec_pos(),
                    parse_fuel_s(old(self).spec_tokens().len() as nat),
                );
                &&& asts_view(r@) == p.stmts
                &&& final(self).spec_pos() == p.pos
            }),
    {
        let n = self.tokens.len();
        let m: u64 = if n > 0x4000_0000 {
            0x4000_0000
        } else {
            n as u64
        };
        proof {
            assert((m + 2) * (m + 2) * 8 <= u64::MAX) by (nonlinear_arith)
                requires
                    m <= 0x4000_0000,
            ;
        }
        let mut fuel: u64 = (m + 2) * (m + 2) * 8;
        proof {
            assert(fuel as nat == parse_fuel_s(self.spec_tokens().len() as nat));
        }
        let ghost target = program_s(
            self.spec_tokens(),
            Seq::empty(),
            self.spec_pos(),
            fuel as nat,
        );
        let mut acc: Vec<AstType> = Vec::new();
        proof {
            assert(asts_view(acc@) =~= Seq::<AstV>::empty());
        }
        loop
            invariant
                self.wf_p(),
                self.spec_tokens() == old(self).spec_tokens(),
                program_s(
                    self.spec_tokens(),
                    asts_view(acc@),
                    self.spec_pos(),
                    fuel as nat,
                ) == target,
            decreases fuel,
        {
            if fuel == 0 {
                return acc;
            }
            match self.declaration(fuel - 1) {
                Ok(stmt) => {
                    let ghost accv = acc@;
                    acc.push(stmt);
                    proof {
                        lemma_asts_view_push(accv, acc@.last());
                    }
                },
                Err(_) => {
                    self.back();
                    self.synchronize();
                },
            }
            if self.end() {
                return acc;
            }
            fuel = fuel - 1;
        }
    }

    fn declaration(&mut self, fuel: u64) -> (r: Result<AstType, ParseError>)
        requires
            old(self).wf_p(),
        ensures
            final(self).wf_p(),
            final(self).spec_tokens() == old(self).spec_tokens(),
            ({
                let s = declaration_s(old(self).spec_tokens(), old(self).spec_pos(), fuel as nat);
                &&& final(self).spec_pos() == s.pos
                &&& match r {
                    Ok(a) => s.res == Ok::<AstV, ParseErrV>(a@),
                    Err(e) => s.res == Err::<AstV, ParseErrV>(e@),
                }
            }),
        decreases fuel,
    {
        if fuel == 0 {
            return Err(ParseError::Exhausted);
        }
        if self.end() {
            return Err(ParseError::CouldNotReadToken);
        }
        match &self.tokens[self.read_pos].token {
            TokenType::Var => {
                self.advance();
                self.var_declaration(fuel - 1)
            },
            TokenType::Fun => {
                self.advance();
                self.fun_declaration(fuel - 1)
            },
            _ => self.statement(fuel - 1),
        }
    }

    fn var_declaration(&mut self, fuel: u64) -> (r: Result<AstType, ParseError>)
        requires
            old(self).wf_p(),
        ensures
            final(self).wf_p(),
            final(self).spec_tokens() == old(self).spec_tokens(),
            ({
                let s = var_declaration_s(old(self).spec_tokens(), old(self).spec_pos(), fuel as nat);
                &&& final(self).spec_pos() == s.pos
                &&& match r {
                    Ok(a) => s.res == Ok::<AstV, ParseErrV>(a@),
                    Err(e) => s.res == Err::<AstV, ParseErrV>(e@),
                }
            }),
        decreases fuel,
    {
        if fuel == 0 {
            return Err(ParseError::Exhausted);
        }
        if self.end() {
            return Err(ParseError::CouldNotReadToken);
        }
        match &self.tokens[self.read_pos].token {
            TokenType::Identifier(i) => {
                let name = i.clone();
                self.advance();
                self.declaration_identifier(name, fuel - 1)
            },
            _ => {
                self.advance();
                Err(ParseError::NotFoundToken(String::from_str("Identifier")))
            },
        }
    }

    #[verifier::rlimit(60)]
    fn declaration_identifier(&mut self, identifier: String, fuel: u64) -> (r: Result<
        AstType,
        ParseError,
    >)
        requires
            old(self).wf_p(),
        ensures
            final(self).wf_p(),
            final(self).spec_tokens() == old(self).spec_tokens(),
            ({
                let s = declaration_identifier_s(
                    old(self).spec_tokens(),
                    identifier@,
                    old(self).spec_pos(),
                    fuel as nat,
                );
                &&& final(self).spec_pos() == s.pos
                &&& match r {
                    Ok(a) => s.res == Ok::<AstV, ParseErrV>(a@),
                    Err(e) => s.res == Err::<AstV, ParseErrV>(e@),
                }
            }),
        decreases fuel,
    {
        if fuel == 0 {
            return Err(ParseError::Exhausted);
        }
        if self.end() {
            return Err(ParseError::NotFoundToken(String::from_str("Identifier")));
        }
        match &self.tokens[self.read_pos].token {
            TokenType::Equal => {
                self.advance();
                let e = match self.expression(fuel - 1) {
                    Ok(a) => a,
                    Err(er) => {
                        return Err(er);
                    },
                };
                match self.consume(TokenType::SemiColon) {
                    Ok(_) => {
                        let ghost name0 = identifier@;
                        let ghost ev = e@;
                        let r2 = AstType::Var(identifier, Box::new(e));
                        proof {
                            assert(r2@ == AstV::Var(name0, Box::new(ev)));
                        }
                        Ok(r2)
                    },
                    Err(er) => Err(er),
                }
            },
            TokenType::SemiColon => {
                self.advance();
                let ghost name0 = identifier@;
                let r2 = AstType::Var(identifier, Box::new(AstType::Nil));
                proof {
                    assert(ast_view(AstType::Nil) == AstV::Nil);
                    assert(r2@ == AstV::Var(name0, Box::new(AstV::Nil)));
                }
                Ok(r2)
            },
            _ => {
                self.advance();
                Err(ParseError::NotFoundToken(String::from_str("SemiColon")))
            },
        }
    }

    fn fun_declaration(&mut self, fuel: u64) -> (r: Result<AstType, ParseError>)
        requires
            old(self).wf_p(),
        ensures
            final(self).wf_p(),
            final(self).spec_tokens() == old(self).spec_tokens(),
            ({
                let s = fun_declaration_s(old(self).spec_tokens(), old(self).spec_pos(), fuel as nat);
                &&& final(self).spec_pos() == s.pos
                &&& match r {
                    Ok(a) => s.res == Ok::<AstV, ParseErrV>(a@),
                    Err(e) => s.res == Err::<AstV, ParseErrV>(e@),
                }
            }),
        decreases fuel,
    {
        if fuel == 0 {
            return Err(ParseError::Exhausted);
        }
        if self.end() {
            return Err(ParseError::CouldNotReadToken);
        }
        match &self.tokens[self.read_pos].token {
            TokenType::Identifier(i) => {
                let name = i.clone();
                self.advance();
                if let Err(er) = self.consume(TokenType::LeftParen) {
                    return Err(er);
                }
                let params = match self.fun_parameters(fuel - 1) {
                    Ok(ps) => ps,
                    Err(er) => {
                        return Err(er);
                    },
                };
                if let Err(er) = self.consume(TokenType::RightParen) {
                    return Err(er);
                }
                if let Err(er) = self.consume(TokenType::LeftBrace) {
                    return Err(er);
                }
                match self.block_statement(fuel - 1) {
                    Ok(body) => Ok(AstType::Fun(name, params, Box::new(body))),
                    Err(er) => Err(er),
                }
            },
            _ => {
                self.advance();
                Err(ParseError::NotFoundToken(String::from_str("Identifier")))
            },
        }
    }

    /// The parameter list of a function declaration; the entry cap stops
    /// the list at 255 names.
    fn fun_parameters(&mut self, fuel: u64) -> (r: Result<Vec<AstType>, ParseError>)
        requires
            old(self).wf_p(),
        ensures
            final(self).wf_p(),
            final(self).spec_tokens() == old(self).spec_tokens(),
            ({
                let s = fun_parameters_s(
                    old(self).spec_tokens(),
                    Seq::empty(),
                    old(self).spec_pos(),
                    fuel as nat,
                );
                &&& final(self).spec_pos() == s.pos
                &&& match r {
                    Ok(ps) => s.res == Ok::<Seq<AstV>, ParseErrV>(asts_view(ps@)),
                    Err(e) => s.res == Err::<Seq<AstV>, ParseErrV>(e@),
                }
            }),
        decreases fuel,
    {
        let mut acc: Vec<AstType> = Vec::new();
        proof {
            assert(asts_view(acc@) =~= Seq::<AstV>::empty());
        }
        let ghost target = fun_parameters_s(
            self.spec_tokens(),
            Seq::empty(),
            self.spec_pos(),
            fuel as nat,
        );
        let mut fuel_left = fuel;
        loop
            invariant
                self.wf_p(),
                self.spec_tokens() == old(self).spec_tokens(),
                fuel_left <= fuel,
                fun_parameters_s(
                    self.spec_tokens(),
                    asts_view(acc@),
                    self.spec_pos(),
                    fuel_left as nat,
                ) == target,
            decreases fuel_left,
        {
            if fuel_left == 0 {
                return Err(ParseError::Exhausted);
            }
            if self.end() {
                return Err(ParseError::CouldNotReadToken);
            }
            match &self.tokens[self.read_pos].token {
                TokenType::RightParen => {
                    return Ok(acc);
                },
                TokenType::Comma => {
                    self.advance();
                    fuel_left = fuel_left - 1;
                },
                _ => {
                    match self.fun_one_parameter(fuel_left - 1) {
                        Ok(param) => {
                            let ghost accv = acc@;
                            acc.push(param);
                            proof {
                                lemma_asts_view_push(accv, acc@.last());
                            }
                            if acc.len() >= 255 {
                                return Ok(acc);
                            }
                            fuel_left = fuel_left - 1;
                        },
                        Err(er) => {
                            return Err(er);
                        },
                    }
                },
            }
        }
    }

    fn fun_one_parameter(&mut self, fuel: u64) -> (r: Result<AstType, ParseError>)
        requires
            old(self).wf_p(),
        ensures
            final(self).wf_p(),
            final(self).spec_tokens() == old(self).spec_tokens(),
            ({
                let s = fun_one_parameter_s(old(self).spec_tokens(), old(self).spec_pos(), fuel as nat);
                &&& final(self).spec_pos() == s.pos
                &&& match r {
                    Ok(a) => s.res == Ok::<AstV, ParseErrV>(a@),
                    Err(e) => s.res == Err::<AstV, ParseErrV>(e@),
                }
            }),
        decreases fuel,
    {
        if fuel == 0 {
            return Err(ParseError::Exhausted);
        }
        if self.end() {
            return Err(ParseError::CouldNotReadToken);
        }
        match &self.tokens[self.read_pos].token {
            TokenType::Identifier(_) => self.primary(fuel - 1),
            _ => {
                self.advance();
                Err(ParseError::NotFoundToken(String::from_str("Identifier")))
            },
        }
    }

    fn statement(&mut self, fuel: u64) -> (r: Result<AstType, ParseError>)
        requires
            old(self).wf_p(),
        ensures
            final(self).wf_p(),
            final(self).spec_tokens() == old(self).spec_tokens(),
            ({
                let s = statement_s(old(self).spec_tokens(), old(self).spec_pos(), fuel as nat);
                &&& final(self).spec_pos() == s.pos
                &&& match r {
                    Ok(a) => s.res == Ok::<AstV, ParseErrV>(a@),
                    Err(e) => s.res == Err::<AstV, ParseErrV>(e@),
                }
            }),
        decreases fuel,
    {
        if fuel == 0 {
            return Err(ParseError::Exhausted);
        }
        if self.end() {
            return Err(ParseError::CouldNotReadToken);
        }
        match &self.tokens[self.read_pos].token {
            TokenType::Print => {
                self.advance();
                self.print_statement(fuel - 1)
            },
            TokenType::If => {
                self.advance();
                self.if_statement(fuel - 1)
            },
            TokenType::While => {
                self.advance();
                self.while_statement(fuel - 1)
            },
            TokenType::For => {
                self.advance();
                self.for_statement(fuel - 1)
            },
            TokenType::Return => {
                self.advance();
                self.return_statement(fuel - 1)
            },
            TokenType::LeftBrace => {
                self.advance();
                self.block_statement(fuel - 1)
            },
            _ => self.expression_stmt(fuel - 1),
        }
    }

    fn print_statement(&mut self, fuel: u64) -> (r: Result<AstType, ParseError>)
        requires
            old(self).wf_p(),
        ensures
            final(self).wf_p(),
            final(self).spec_tokens() == old(self).spec_tokens(),
            ({
                let s = print_statement_s(old(self).spec_tokens(), old(self).spec_pos(), fuel as nat);
                &&& final(self).spec_pos() == s.pos
                &&& match r {
                    Ok(a) => s.res == Ok::<AstV, ParseErrV>(a@),
                    Err(e) => s.res == Err::<AstV, ParseErrV>(e@),
                }
            }),
        decreases fuel,
    {
        if fuel == 0 {
            return Err(ParseError::Exhausted);
        }
        let e = match self.expression(fuel - 1) {
            Ok(a) => a,
            Err(er) => {
                return Err(er);
            },
        };
        match self.consume(TokenType::SemiColon) {
            Ok(_) => Ok(AstType::Print(Box::new(e))),
            Err(er) => Err(er),
        }
    }

    #[verifier::rlimit(60)]
    fn return_statement(&mut self, fuel: u64) -> (r: Result<AstType, ParseError>)
        requires
            old(self).wf_p(),
        ensures
            final(self).wf_p(),
            final(self).spec_tokens() == old(self).spec_tokens(),
            ({
                let s = return_statement_s(old(self).spec_tokens(), old(self).spec_pos(), fuel as nat);
                &&& final(self).spec_pos() == s.pos
                &&& match r {
                    Ok(a) => s.res == Ok::<AstV, ParseErrV>(a@),
                    Err(e) => s.res == Err::<AstV, ParseErrV>(e@),
                }
            }),
        decreases fuel,
    {
        if fuel == 0 {
            return Err(ParseError::Exhausted);
        }
        if self.end() {
            return Err(ParseError::CouldNotReadToken);
        }
        let e: AstType;
        if matches!(&self.tokens[self.read_pos].token, TokenType::SemiColon) {
            e = AstType::Nil;
        } else {
            e = match self.expression(fuel - 1) {
                Ok(a) => a,
                Err(er) => {
                    return Err(er);
                },
            };
        }
        match self.consume(TokenType::SemiColon) {
            Ok(_) => {
                let ghost ev = e@;
                let r2 = AstType::Return(Box::new(e));
                proof {
                    assert(r2@ == AstV::Return(Box::new(ev)));
                }
                Ok(r2)
            },
            Err(er) => Err(er),
        }
    }

    fn while_statement(&mut self, fuel: u64) -> (r: Result<AstType, ParseError>)
        requires
            old(self).wf_p(),
        ensures
            final(self).wf_p(),
            final(self).spec_tokens() == old(self).spec_tokens(),
            ({
                let s = while_statement_s(old(self).spec_tokens(), old(self).spec_pos(), fuel as nat);
                &&& final(self).spec_pos() == s.pos
                &&& match r {
                    Ok(a) => s.res == Ok::<AstV, ParseErrV>(a@),
                    Err(e) => s.res == Err::<AstV, ParseErrV>(e@),
                }
            }),
        decreases fuel,
    {
        if fuel == 0 {
            return Err(ParseError::Exhausted);
        }
        if let Err(er) = self.consume(TokenType::LeftParen) {
            return Err(er);
        }
        let cond = match self.expression(fuel - 1) {
            Ok(a) => a,
            Err(er) => {
                return Err(er);
            },
        };
        if let Err(er) = self.consume(TokenType::RightParen) {
            return Err(er);
        }
        match self.statement(fuel - 1) {
            Ok(body) => {
                let ghost cv = cond@;
                let ghost bv = body@;
                let r2 = AstType::While(Box::new(cond), Box::new(body));
                proof {
                    assert(r2@ == AstV::While(Box::new(cv), Box::new(bv)));
                }
                Ok(r2)
            },
            Err(er) => Err(er),
        }
    }

    #[verifier::rlimit(60)]
    fn for_statement(&mut self, fuel: u64) -> (r: Result<AstType, ParseError>)
        requires
            old(self).wf_p(),
        ensures
            final(self).wf_p(),
            final(self).spec_tokens() == old(self).spec_tokens(),
            ({
                let s = for_statement_s(old(self).spec_tokens(), old(self).spec_pos(), fuel as nat);
                &&& final(self).spec_pos() == s.pos
                &&& match r {
                    Ok(a) => s.res == Ok::<AstV, ParseErrV>(a@),
                    Err(e) => s.res == Err::<AstV, ParseErrV>(e@),
                }
            }),
        decreases fuel,
    {
        if fuel == 0 {
            return Err(ParseError::Exhausted);
        }
        if let Err(er) = self.consume(TokenType::LeftParen) {
            return Err(er);
        }
        let init = match self.for_initialize(fuel - 1) {
            Ok(a) => a,
            Err(er) => {
                return Err(er);
            },
        };
        let cond = match self.for_condition(fuel - 1) {
            Ok(a) => a,
            Err(er) => {
                return Err(er);
            },
        };
        if let Err(er) = self.consume(TokenType::SemiColon) {
            return Err(er);
        }
        let incr = match self.for_increment(fuel - 1) {
            Ok(a) => a,
            Err(er) => {
                return Err(er);
            },
        };
        if let Err(er) = self.consume(TokenType::RightParen) {
            return Err(er);
        }
        let body = match self.statement(fuel - 1) {
            Ok(a) => a,
            Err(er) => {
                return Err(er);
            },
        };
        let mut while_block: Vec<AstType> = Vec::new();
        while_block.push(body);
        while_block.push(incr);
        let ghost wbv = while_block@;
        proof {
            assert(asts_view(wbv) =~= seq![ast_view(wbv[0]), ast_view(wbv[1])]);
        }
        let wb = AstType::Block(while_block);
        proof {
            assert(wb@ == AstV::Block(asts_view(wbv)));
        }
        let ghost cv = cond@;
        let wh = AstType::While(Box::new(cond), Box::new(wb));
        proof {
            assert(wh@ == AstV::While(Box::new(cv), Box::new(AstV::Block(asts_view(wbv)))));
        }
        let ghost iv = init@;
        let ghost whv = wh@;
        let mut outer: Vec<AstType> = Vec::new();
        outer.push(init);
        outer.push(wh);
        let ghost ov = outer@;
        let r = AstType::Block(outer);
        proof {
            assert(asts_view(ov) =~= seq![iv, whv]);
            assert(r@ == AstV::Block(asts_view(ov)));
        }
        Ok(r)
    }

    fn for_initialize(&mut self, fuel: u64) -> (r: Result<AstType, ParseError>)
        requires
            old(self).wf_p(),
        ensures
            final(self).wf_p(),
            final(self).spec_tokens() == old(self).spec_tokens(),
            ({
                let s = for_initialize_s(old(self).spec_tokens(), old(self).spec_pos(), fuel as nat);
                &&& final(self).spec_pos() == s.pos
                &&& match r {
                    Ok(a) => s.res == Ok::<AstV, ParseErrV>(a@),
                    Err(e) => s.res == Err::<AstV, ParseErrV>(e@),
                }
            }),
        decreases fuel,
    {
        if fuel == 0 {
            return Err(ParseError::Exhausted);
        }
        if self.end() {
            return Err(ParseError::CouldNotReadToken);
        }
        match &self.tokens[self.read_pos].token {
            TokenType::SemiColon => {
                self.advance();
                Ok(AstType::Nil)
            },
            TokenType::Var => {
                self.advance();
                self.var_declaration(fuel - 1)
            },
            _ => self.expression_stmt(fuel - 1),
        }
    }

    fn for_condition(&mut self, fuel: u64) -> (r: Result<AstType, ParseError>)
        requires
            old(self).wf_p(),
        ensures
            final(self).wf_p(),
            final(self).spec_tokens() == old(self).spec_tokens(),
            ({
                let s = for_condition_s(old(self).spec_tokens(), old(self).spec_pos(), fuel as nat);
                &&& final(self).spec_pos() == s.pos
                &&& match r {
                    Ok(a) => s.res == Ok::<AstV, ParseErrV>(a@),
                    Err(e) => s.res == Err::<AstV, ParseErrV>(e@),
                }
            }),
        decreases fuel,
    {
        if fuel == 0 {
            return Err(ParseError::Exhausted);
        }
        if self.end() {
            return Err(ParseError::CouldNotReadToken);
        }
        if matches!(&self.tokens[self.read_pos].token, TokenType::SemiColon) {
            Ok(AstType::True)
        } else {
            self.expression(fuel - 1)
        }
    }

    fn for_increment(&mut self, fuel: u64) -> (r: Result<AstType, ParseError>)
        requires
            old(self).wf_p(),
        ensures
            final(self).wf_p(),
            final(self).spec_tokens() == old(self).spec_tokens(),
            ({
                let s = for_increment_s(old(self).spec_tokens(), old(self).spec_pos(), fuel as nat);
                &&& final(self).spec_pos() == s.pos
                &&& match r {
                    Ok(a) => s.res == Ok::<AstV, ParseErrV>(a@),
                    Err(e) => s.res == Err::<AstV, ParseErrV>(e@),
                }
            }),
        decreases fuel,
    {
        if fuel == 0 {
            return Err(ParseError::Exhausted);
        }
        if self.end() {
            return Err(ParseError::CouldNotReadToken);
        }
        if matches!(&self.tokens[self.read_pos].token, TokenType::RightParen) {
            Ok(AstType::Nil)
        } else {
            self.expression(fuel - 1)
        }
    }

    #[verifier::rlimit(60)]
    fn if_statement(&mut self, fuel: u64) -> (r: Result<AstType, ParseError>)
        requires
            old(self).wf_p(),
        ensures
            final(self).wf_p(),
            final(self).spec_tokens() == old(self).spec_tokens(),
            ({
                let s = if_statement_s(old(self).spec_tokens(), old(self).spec_pos(), fuel as nat);
                &&& final(self).spec_pos() == s.pos
                &&& match r {
                    Ok(a) => s.res == Ok::<AstV, ParseErrV>(a@),
                    Err(e) => s.res == Err::<AstV, ParseErrV>(e@),
                }
            }),
        decreases fuel,
    {
        if fuel == 0 {
            return Err(ParseError::Exhausted);
        }
        if let Err(er) = self.consume(TokenType::LeftParen) {
            return Err(er);
        }
        let cond = match self.expression(fuel - 1) {
            Ok(a) => a,
            Err(er) => {
                return Err(er);
            },
        };
        if let Err(er) = self.consume(TokenType::RightParen) {
            return Err(er);
        }
        let then_stmt = match self.statement(fuel - 1) {
            Ok(a) => a,
            Err(er) => {
                return Err(er);
            },
        };
        let ghost cv = cond@;
        let ghost tv = then_stmt@;
        if self.end() {
            let r2 = AstType::If(Box::new(cond), Box::new(then_stmt), Box::new(AstType::Nil));
            proof {
                assert(ast_view(AstType::Nil) == AstV::Nil);
                assert(r2@ == AstV::If(Box::new(cv), Box::new(tv), Box::new(AstV::Nil)));
            }
            return Ok(r2);
        }
        if matches!(&self.tokens[self.read_pos].token, TokenType::Else) {
            self.advance();
            match self.statement(fuel - 1) {
                Ok(else_stmt) => {
                    let ghost ev = else_stmt@;
                    let r2 = AstType::If(
                        Box::new(cond),
                        Box::new(then_stmt),
                        Box::new(else_stmt),
                    );
                    proof {
                        assert(r2@ == AstV::If(Box::new(cv), Box::new(tv), Box::new(ev)));
                    }
                    Ok(r2)
                },
                Err(er) => Err(er),
            }
        } else {
            let r2 = AstType::If(Box::new(cond), Box::new(then_stmt), Box::new(AstType::Nil));
            proof {
                assert(ast_view(AstType::Nil) == AstV::Nil);
                assert(r2@ == AstV::If(Box::new(cv), Box::new(tv), Box::new(AstV::Nil)));
            }
            Ok(r2)
        }
    }

    fn block_statement(&mut self, fuel: u64) -> (r: Result<AstType, ParseError>)
        requires
            old(self).wf_p(),
        ensures
            final(self).wf_p(),
            final(self).spec_tokens() == old(self).spec_tokens(),
            ({
                let s = block_statement_s(old(self).spec_tokens(), old(self).spec_pos(), fuel as nat);
                &&& final(self).spec_pos() == s.pos
                &&& match r {
                    Ok(a) => s.res == Ok::<AstV, ParseErrV>(a@),
                    Err(e) => s.res == Err::<AstV, ParseErrV>(e@),
                }
            }),
        decreases fuel,
    {
        if fuel == 0 {
            return Err(ParseError::Exhausted);
        }
        let mut acc: Vec<AstType> = Vec::new();
        proof {
            assert(asts_view(acc@) =~= Seq::<AstV>::empty());
        }
        let ghost target = block_more_s(
            self.spec_tokens(),
            Seq::empty(),
            self.spec_pos(),
            (fuel - 1) as nat,
        );
        let mut fuel_left = fuel - 1;
        loop
            invariant
                self.wf_p(),
                self.spec_tokens() == old(self).spec_tokens(),
                fuel_left <= fuel - 1,
                block_more_s(
                    self.spec_tokens(),
                    asts_view(acc@),
                    self.spec_pos(),
                    fuel_left as nat,
                ) == target,
            decreases fuel_left,
        {
            if fuel_left == 0 {
                return Err(ParseError::Exhausted);
            }
            if self.end() {
                return Err(ParseError::CouldNotReadToken);
            }
            if matches!(&self.tokens[self.read_pos].token, TokenType::RightBrace) {
                match self.consume(TokenType::RightBrace) {
                    Ok(_) => {
                        return Ok(AstType::Block(acc));
                    },
                    Err(er) => {
                        return Err(er);
                    },
                }
            }
            match self.declaration(fuel_left - 1) {
                Ok(stmt) => {
                    let ghost accv = acc@;
                    acc.push(stmt);
                    proof {
                        lemma_asts_view_push(accv, acc@.last());
                    }
                    fuel_left = fuel_left - 1;
                },
                Err(er) => {
                    return Err(er);
                },
            }
        }
    }

    fn expression_stmt(&mut self, fuel: u64) -> (r: Result<AstType, ParseError>)
        requires
            old(self).wf_p(),
        ensures
            final(self).wf_p(),
            final(self).spec_tokens() == old(self).spec_tokens(),
            ({
                let s = expression_stmt_s(old(self).spec_tokens(), old(self).spec_pos(), fuel as nat);
                &&& final(self).spec_pos() == s.pos
                &&& match r {
                    Ok(a) => s.res == Ok::<AstV, ParseErrV>(a@),
                    Err(e) => s.res == Err::<AstV, ParseErrV>(e@),
                }
            }),
        decreases fuel,
    {
        if fuel == 0 {
            return Err(ParseError::Exhausted);
        }
        let e = match self.expression(fuel - 1) {
            Ok(a) => a,
            Err(er) => {
                return Err(er);
            },
        };
        match self.consume(TokenType::SemiColon) {
            Ok(_) => Ok(e),
            Err(er) => Err(er),
        }
    }

    fn expression(&mut self, fuel: u64) -> (r: Result<AstType, ParseError>)
        requires
            old(self).wf_p(),
        ensures
            final(self).wf_p(),
            final(self).spec_tokens() == old(self).spec_tokens(),
            ({
                let s = expression_s(old(self).spec_tokens(), old(self).spec_pos(), fuel as nat);
                &&& final(self).spec_pos() == s.pos
                &&& match r {
                    Ok(a) => s.res == Ok::<AstV, ParseErrV>(a@),
                    Err(e) => s.res == Err::<AstV, ParseErrV>(e@),
                }
            }),
        decreases fuel,
    {
        proof {
            reveal(expression_s);
        }
        if fuel == 0 {
            return Err(ParseError::Exhausted);
        }
        self.assignment(fuel - 1)
    }

    /// Assignment is right-associative and legal only when its left side
    /// parsed as a bare name.
    fn assignment(&mut self, fuel: u64) -> (r: Result<AstType, ParseError>)
        requires
            old(self).wf_p(),
        ensures
            final(self).wf_p(),
            final(self).spec_tokens() == old(self).spec_tokens(),
            ({
                let s = assignment_s(old(self).spec_tokens(), old(self).spec_pos(), fuel as nat);
                &&& final(self).spec_pos() == s.pos
                &&& match r {
                    Ok(a) => s.res == Ok::<AstV, ParseErrV>(a@),
                    Err(e) => s.res == Err::<AstV, ParseErrV>(e@),
                }
            }),
        decreases fuel,
    {
        if fuel == 0 {
            return Err(ParseError::Exhausted);
        }
        let target = match self.or_parse(fuel - 1) {
            Ok(a) => a,
            Err(er) => {
                return Err(er);
            },
        };
        if self.end() {
            return Err(ParseError::CouldNotReadToken);
        }
        if matches!(&self.tokens[self.read_pos].token, TokenType::Equal) {
            match target {
                AstType::Identifier(name) => {
                    self.advance();
                    match self.assignment(fuel - 1) {
                        Ok(value) => Ok(AstType::Assign(name, Box::new(value))),
                        Err(er) => Err(er),
                    }
                },
                _ => {
                    self.advance();
                    Err(ParseError::NotFoundAstType(String::from_str("Identifier")))
                },
            }
        } else {
            Ok(target)
        }
    }

    fn unary(&mut self, fuel: u64) -> (r: Result<AstType, ParseError>)
        requires
            old(self).wf_p(),
        ensures
            final(self).wf_p(),
            final(self).spec_tokens() == old(self).spec_tokens(),
            ({
                let s = unary_s(old(self).spec_tokens(), old(self).spec_pos(), fuel as nat);
                &&& final(self).spec_pos() == s.pos
                &&& match r {
                    Ok(a) => s.res == Ok::<AstV, ParseErrV>(a@),
                    Err(e) => s.res == Err::<AstV, ParseErrV>(e@),
                }
            }),
        decreases fuel,
    {
        if fuel == 0 {
            return Err(ParseError::Exhausted);
        }
        if self.end() {
            return Err(ParseError::CouldNotReadToken);
        }
        match &self.tokens[self.read_pos].token {
            TokenType::Bang => {
                self.advance();
                match self.unary(fuel - 1) {
                    Ok(operand) => Ok(AstType::Bang(Box::new(operand))),
                    Err(er) => Err(er),
                }
            },
            TokenType::Minus => {
                self.advance();
                match self.unary(fuel - 1) {
                    Ok(operand) => Ok(AstType::UnaryMinus(Box::new(operand))),
                    Err(er) => Err(er),
                }
            },
            _ => self.call(fuel - 1),
        }
    }

    /// A call is legal only when the callee parsed as a bare name.
    fn call(&mut self, fuel: u64) -> (r: Result<AstType, ParseError>)
        requires
            old(self).wf_p(),
        ensures
            final(self).wf_p(),
            final(self).spec_tokens() == old(self).spec_tokens(),
            ({
                let s = call_s(old(self).spec_tokens(), old(self).spec_pos(), fuel as nat);
                &&& final(self).spec_pos() == s.pos
                &&& match r {
                    Ok(a) => s.res == Ok::<AstV, ParseErrV>(a@),
                    Err(e) => s.res == Err::<AstV, ParseErrV>(e@),
                }
            }),
        decreases fuel,
    {
        if fuel == 0 {
            return Err(ParseError::Exhausted);
        }
        let callee = match self.primary(fuel - 1) {
            Ok(a) => a,
            Err(er) => {
                return Err(er);
            },
        };
        if self.end() {
            return Err(ParseError::CouldNotReadToken);
        }
        if matches!(&self.tokens[self.read_pos].token, TokenType::LeftParen) {
            self.advance();
            let args = match self.arguments(fuel - 1) {
                Ok(a) => a,
                Err(er) => {
                    return Err(er);
                },
            };
            match callee {
                AstType::Identifier(name) => Ok(AstType::Call(name, args)),
                _ => Err(ParseError::NotFoundAstType(String::from_str("Identifier"))),
            }
        } else {
            Ok(callee)
        }
    }

    /// The argument list of a call, including its closing parenthesis; a
    /// failed argument is skipped, and the entry cap stops the list at
    /// 255 values.
    fn arguments(&mut self, fuel: u64) -> (r: Result<Vec<AstType>, ParseError>)
        requires
            old(self).wf_p(),
        ensures
            final(self).wf_p(),
            final(self).spec_tokens() == old(self).spec_tokens(),
            ({
                let s = arguments_s(old(self).spec_tokens(), old(self).spec_pos(), fuel as nat);
                &&& final(self).spec_pos() == s.pos
                &&& match r {
                    Ok(a) => s.res == Ok::<Seq<AstV>, ParseErrV>(asts_view(a@)),
                    Err(e) => s.res == Err::<Seq<AstV>, ParseErrV>(e@),
                }
            }),
        decreases fuel,
    {
        proof {
            reveal(expression_s);
        }
        if fuel == 0 {
            return Err(ParseError::Exhausted);
        }
        let mut acc: Vec<AstType> = Vec::new();
        proof {
            assert(asts_view(acc@) =~= Seq::<AstV>::empty());
        }
        let ghost target = arguments_more_s(
            self.spec_tokens(),
            Seq::empty(),
            self.spec_pos(),
            (fuel - 1) as nat,
        );
        let mut fuel_left = fuel - 1;
        loop
            invariant
                self.wf_p(),
                self.spec_tokens() == old(self).spec_tokens(),
                fuel_left <= fuel - 1,
                arguments_more_s(
                    self.spec_tokens(),
                    asts_view(acc@),
                    self.spec_pos(),
                    fuel_left as nat,
                ) == target,
            decreases fuel_left,
        {
            proof {
                reveal(expression_s);
            }
            if fuel_left == 0 {
                return Err(ParseError::Exhausted);
            }
            if self.end() {
                return Err(ParseError::CouldNotReadToken);
            }
            match &self.tokens[self.read_pos].token {
                TokenType::RightParen => {
                    match self.consume(TokenType::RightParen) {
                        Ok(_) => {
                            return Ok(acc);
                        },
                        Err(er) => {
                            return Err(er);
                        },
                    }
                },
                TokenType::Comma => {
                    self.advance();
                    fuel_left = fuel_left - 1;
                },
                _ => {
                    match self.expression(fuel_left - 1) {
                        Ok(arg) => {
                            let ghost accv = acc@;
                            acc.push(arg);
                            proof {
                                lemma_asts_view_push(accv, acc@.last());
                            }
                        },
                        Err(_) => {},
                    }
                    if acc.len() >= 255 {
                        match self.consume(TokenType::RightParen) {
                            Ok(_) => {
                                return Ok(acc);
                            },
                            Err(er) => {
                                return Err(er);
                            },
                        }
                    }
                    fuel_left = fuel_left - 1;
                },
            }
        }
    }

    fn primary(&mut self, fuel: u64) -> (r: Result<AstType, ParseError>)
        requires
            old(self).wf_p(),
        ensures
            final(self).wf_p(),
            final(self).spec_tokens() == old(self).spec_tokens(),
            ({
                let s = primary_s(old(self).spec_tokens(), old(self).spec_pos(), fuel as nat);
                &&& final(self).spec_pos() == s.pos
                &&& match r {
                    Ok(a) => s.res == Ok::<AstV, ParseErrV>(a@),
                    Err(e) => s.res == Err::<AstV, ParseErrV>(e@),
                }
            }),
        decreases fuel,
    {
        proof {
            reveal(expression_s);
        }
        if fuel == 0 {
            return Err(ParseError::Exhausted);
        }
        if self.end() {
            return Err(ParseError::CouldNotReadToken);
        }
        match &self.tokens[self.read_pos].token {
            TokenType::Number(n) => {
                let v = *n;
                self.advance();
                Ok(AstType::Number(v))
            },
            TokenType::String(s) => {
                let v = s.clone();
                self.advance();
                Ok(AstType::String(v))
            },
            TokenType::True => {
                self.advance();
                Ok(AstType::True)
            },
            TokenType::False => {
                self.advance();
                Ok(AstType::False)
            },
            TokenType::Nil => {
                self.advance();
                Ok(AstType::Nil)
            },
            TokenType::LeftParen => {
                self.advance();
                let e = match self.expression(fuel - 1) {
                    Ok(a) => a,
                    Err(er) => {
                        return Err(er);
                    },
                };
                match self.consume(TokenType::RightParen) {
                    Ok(_) => Ok(AstType::Grouping(Box::new(e))),
                    Err(er) => Err(er),
                }
            },
            TokenType::Identifier(i) => {
                let v = i.clone();
                self.advance();
                Ok(AstType::Identifier(v))
            },
            _ => {
                let name = tt_name(&self.tokens[self.read_pos].token);
                self.advance();
                Err(ParseError::NotSupportToken(name))
            },
        }
    }

    fn or_parse(&mut self, fuel: u64) -> (r: Result<AstType, ParseError>)
        requires
            old(self).wf_p(),
        ensures
            final(self).wf_p(),
            final(self).spec_tokens() == old(self).spec_tokens(),
            ({
                let s = or_parse_s(old(self).spec_tokens(), old(self).spec_pos(), fuel as nat);
                &&& final(self).spec_pos() == s.pos
                &&& match r {
                    Ok(a) => s.res == Ok::<AstV, ParseErrV>(a@),
                    Err(e) => s.res == Err::<AstV, ParseErrV>(e@),
                }
            }),
        decreases fuel,
    {
        if fuel == 0 {
            return Err(ParseError::Exhausted);
        }
        let f = fuel - 1;
        let mut acc = match self.and_parse(f) {
            Ok(a) => a,
            Err(e) => {
                return Err(e);
            },
        };
        let ghost target = or_more_s(self.spec_tokens(), acc@, self.spec_pos(), f as nat);
        let mut fuel_left = f;
        loop
            invariant
                self.wf_p(),
                self.spec_tokens() == old(self).spec_tokens(),
                fuel_left <= f,
                or_more_s(self.spec_tokens(), acc@, self.spec_pos(), fuel_left as nat) == target,
            decreases fuel_left,
        {
            if fuel_left == 0 {
                return Err(ParseError::Exhausted);
            }
            if self.end() {
                return Err(ParseError::CouldNotReadToken);
            }
            match &self.tokens[self.read_pos].token {
                TokenType::Or => {
                    self.advance();
                    match self.and_parse(fuel_left - 1) {
                        Ok(right) => {
                            acc = AstType::Or(Box::new(acc), Box::new(right));
                            fuel_left = fuel_left - 1;
                        },
                        Err(e) => {
                            return Err(e);
                        },
                    }
                },
                _ => {
                    return Ok(acc);
                },
            }
        }
    }

    fn and_parse(&mut self, fuel: u64) -> (r: Result<AstType, ParseError>)
        requires
            old(self).wf_p(),
        ensures
            final(self).wf_p(),
            final(self).spec_tokens() == old(self).spec_tokens(),
            ({
                let s = and_parse_s(old(self).spec_tokens(), old(self).spec_pos(), fuel as nat);
                &&& final(self).spec_pos() == s.pos
                &&& match r {
                    Ok(a) => s.res == Ok::<AstV, ParseErrV>(a@),
                    Err(e) => s.res == Err::<AstV, ParseErrV>(e@),
                }
            }),
        decreases fuel,
    {
        if fuel == 0 {
            return Err(ParseError::Exhausted);
        }
        let f = fuel - 1;
        let mut acc = match self.equality(f) {
            Ok(a) => a,
            Err(e) => {
                return Err(e);
            },
        };
        let ghost target = and_more_s(self.spec_tokens(), acc@, self.spec_pos(), f as nat);
        let mut fuel_left = f;
        loop
            invariant
                self.wf_p(),
                self.spec_tokens() == old(self).spec_tokens(),
                fuel_left <= f,
                and_more_s(self.spec_tokens(), acc@, self.spec_pos(), fuel_left as nat) == target,
            decreases fuel_left,
        {
            if fuel_left == 0 {
                return Err(ParseError::Exhausted);
            }
            if self.end() {
                return Err(ParseError::CouldNotReadToken);
            }
            match &self.tokens[self.read_pos].token {
                TokenType::And => {
                    self.advance();
                    match self.equality(fuel_left - 1) {
                        Ok(right) => {
                            acc = AstType::And(Box::new(acc), Box::new(right));
                            fuel_left = fuel_left - 1;
                        },
                        Err(e) => {
                            return Err(e);
                        },
                    }
                },
                _ => {
                    return Ok(acc);
                },
            }
        }
    }

    fn equality(&mut self, fuel: u64) -> (r: Result<AstType, ParseError>)
        requires
            old(self).wf_p(),
        ensures
            final(self).wf_p(),
            final(self).spec_tokens() == old(self).spec_tokens(),
            ({
                let s = equality_s(old(self).spec_tokens(), old(self).spec_pos(), fuel as nat);
                &&& final(self).spec_pos() == s.pos
                &&& match r {
                    Ok(a) => s.res == Ok::<AstV, ParseErrV>(a@),
                    Err(e) => s.res == Err::<AstV, ParseErrV>(e@),
                }
            }),
        decreases fuel,
    {
        if fuel == 0 {
            return Err(ParseError::Exhausted);
        }
        let f = fuel - 1;
        let mut acc = match self.comparison(f) {
            Ok(a) => a,
            Err(e) => {
                return Err(e);
            },
        };
        let ghost target = equality_more_s(self.spec_tokens(), acc@, self.spec_pos(), f as nat);
        let mut fuel_left = f;
        loop
            invariant
                self.wf_p(),
                self.spec_tokens() == old(self).spec_tokens(),
                fuel_left <= f,
                equality_more_s(self.spec_tokens(), acc@, self.spec_pos(), fuel_left as nat) == target,
            decreases fuel_left,
        {
            if fuel_left == 0 {
                return Err(ParseError::Exhausted);
            }
            if self.end() {
                return Ok(acc);
            }
            match &self.tokens[self.read_pos].token {
                TokenType::BangEqual => {
                    self.advance();
                    match self.comparison(fuel_left - 1) {
                        Ok(right) => {
                            acc = AstType::BangEqual(Box::new(acc), Box::new(right));
                            fuel_left = fuel_left - 1;
                        },
                        Err(e) => {
                            return Err(e);
                        },
                    }
                },
                TokenType::EqualEqual => {
                    self.advance();
                    match self.comparison(fuel_left - 1) {
                        Ok(right) => {
                            acc = AstType::EqualEqual(Box::new(acc), Box::new(right));
                            fuel_left = fuel_left - 1;
                        },
                        Err(e) => {
                            return Err(e);
                        },
                    }
                },
                _ => {
                    return Ok(acc);
                },
            }
        }
    }

    fn comparison(&mut self, fuel: u64) -> (r: Result<AstType, ParseError>)
        requires
            old(self).wf_p(),
        ensures
            final(self).wf_p(),
            final(self).spec_tokens() == old(self).spec_tokens(),
            ({
                let s = comparison_s(old(self).spec_tokens(), old(self).spec_pos(), fuel as nat);
                &&& final(self).spec_pos() == s.pos
                &&& match r {
                    Ok(a) => s.res == Ok::<AstV, ParseErrV>(a@),
                    Err(e) => s.res == Err::<AstV, ParseErrV>(e@),
                }
            }),
        decreases fuel,
    {
        if fuel == 0 {
            return Err(ParseError::Exhausted);
        }
        let f = fuel - 1;
        let mut acc = match self.term(f) {
            Ok(a) => a,
            Err(e) => {
                return Err(e);
            },
        };
        let ghost target = comparison_more_s(self.spec_tokens(), acc@, self.spec_pos(), f as nat);
        let mut fuel_left = f;
        loop
            invariant
                self.wf_p(),
                self.spec_tokens() == old(self).spec_tokens(),
                fuel_left <= f,
                comparison_more_s(self.spec_tokens(), acc@, self.spec_pos(), fuel_left as nat) == target,
            decreases fuel_left,
        {
            if fuel_left == 0 {
                return Err(ParseError::Exhausted);
            }
            if self.end() {
                return Ok(acc);
            }
            match &self.tokens[self.read_pos].token {
                TokenType::Greater => {
                    self.advance();
                    match self.term(fuel_left - 1) {
                        Ok(right) => {
                            acc = AstType::Greater(Box::new(acc), Box::new(right));
                            fuel_left = fuel_left - 1;
                        },
                        Err(e) => {
                            return Err(e);
                        },
                    }
                },
                TokenType::GreaterEqual => {
                    self.advance();
                    match self.term(fuel_left - 1) {
                        Ok(right) => {
                            acc = AstType::GreaterEqual(Box::new(acc), Box::new(right));
                            fuel_left = fuel_left - 1;
                        },
                        Err(e) => {
                            return Err(e);
                        },
                    }
                },
                TokenType::Less => {
                    self.advance();
                    match self.term(fuel_left - 1) {
                        Ok(right) => {
                            acc = AstType::Less(Box::new(acc), Box::new(right));
                            fuel_left = fuel_left - 1;
                        },
                        Err(e) => {
                            return Err(e);
                        },
                    }
                },
                TokenType::LessEqual => {
                    self.advance();
                    match self.term(fuel_left - 1) {
                        Ok(right) => {
                            acc = AstType::LessEqual(Box::new(acc), Box::new(right));
                            fuel_left = fuel_left - 1;
                        },
                        Err(e) => {
                            return Err(e);
                        },
                    }
                },
                _ => {
                    return Ok(acc);
                },
            }
        }
    }

    fn term(&mut self, fuel: u64) -> (r: Result<AstType, ParseError>)
        requires
            old(self).wf_p(),
        ensures
            final(self).wf_p(),
            final(self).spec_tokens() == old(self).spec_tokens(),
            ({
                let s = term_s(old(self).spec_tokens(), old(self).spec_pos(), fuel as nat);
                &&& final(self).spec_pos() == s.pos
                &&& match r {
                    Ok(a) => s.res == Ok::<AstV, ParseErrV>(a@),
                    Err(e) => s.res == Err::<AstV, ParseErrV>(e@),
                }
            }),
        decreases fuel,
    {
        if fuel == 0 {
            return Err(ParseError::Exhausted);
        }
        let f = fuel - 1;
        let mut acc = match self.factor(f) {
            Ok(a) => a,
            Err(e) => {
                return Err(e);
            },
        };
        let ghost target = term_more_s(self.spec_tokens(), acc@, self.spec_pos(), f as nat);
        let mut fuel_left = f;
        loop
            invariant
                self.wf_p(),
                self.spec_tokens() == old(self).spec_tokens(),
                fuel_left <= f,
                term_more_s(self.spec_tokens(), acc@, self.spec_pos(), fuel_left as nat) == target,
            decreases fuel_left,
        {
            if fuel_left == 0 {
                return Err(ParseError::Exhausted);
            }
            if self.end() {
                return Ok(acc);
            }
            match &self.tokens[self.read_pos].token {
                TokenType::Minus => {
                    self.advance();
                    match self.factor(fuel_left - 1) {
                        Ok(right) => {
                            acc = AstType::Minus(Box::new(acc), Box::new(right));
                            fuel_left = fuel_left - 1;
                        },
                        Err(e) => {
                            return Err(e);
                        },
                    }
                },
                TokenType::Plus => {
                    self.advance();
                    match self.factor(fuel_left - 1) {
                        Ok(right) => {
                            acc = AstType::Plus(Box::new(acc), Box::new(right));
                            fuel_left = fuel_left - 1;
                        },
                        Err(e) => {
                            return Err(e);
                        },
                    }
                },
                _ => {
                    return Ok(acc);
                },
            }
        }
    }

    fn factor(&mut self, fuel: u64) -> (r: Result<AstType, ParseError>)
        requires
            old(self).wf_p(),
        ensures
            final(self).wf_p(),
            final(self).spec_tokens() == old(self).spec_tokens(),
            ({
                let s = factor_s(old(self).spec_tokens(), old(self).spec_pos(), fuel as nat);
                &&& final(self).spec_pos() == s.pos
                &&& match r {
                    Ok(a) => s.res == Ok::<AstV, ParseErrV>(a@),
                    Err(e) => s.res == Err::<AstV, ParseErrV>(e@),
                }
            }),
        decreases fuel,
    {
        if fuel == 0 {
            return Err(ParseError::Exhausted);
        }
        let f = fuel - 1;
        let mut acc = match self.unary(f) {
            Ok(a) => a,
            Err(e) => {
                return Err(e);
            },
        };
        let ghost target = factor_more_s(self.spec_tokens(), acc@, self.spec_pos(), f as nat);
        let mut fuel_left = f;
        loop
            invariant
                self.wf_p(),
                self.spec_tokens() == old(self).spec_tokens(),
                fuel_left <= f,
                factor_more_s(self.spec_tokens(), acc@, self.spec_pos(), fuel_left as nat) == target,
            decreases fuel_left,
        {
            if fuel_left == 0 {
                return Err(ParseError::Exhausted);
            }
            if self.end() {
                return Ok(acc);
            }
            match &self.tokens[self.read_pos].token {
                TokenType::Slash => {
                    self.advance();
                    match self.unary(fuel_left - 1) {
                        Ok(right) => {
                            acc = AstType::Div(Box::new(acc), Box::new(right));
                            fuel_left = fuel_left - 1;
                        },
                        Err(e) => {
                            return Err(e);
                        },
                    }
                },
                TokenType::Star => {
                    self.advance();
                    match self.unary(fuel_left - 1) {
                        Ok(right) => {
                            acc = AstType::Mul(Box::new(acc), Box::new(right));
                            fuel_left = fuel_left - 1;
                        },
                        Err(e) => {
                            return Err(e);
                        },
                    }
                },
                _ => {
                    return Ok(acc);
                },
            }
        }
    }
}


/// Whether two token kinds match, payloads included.
/// A distinct code for each token kind, payloads aside.
fn tt_code_of(t: &TokenType) -> (r: u32)
    ensures
        r as int == tt_code(*t),
{
    match t {
        TokenType::Identifier(_) => 0,
        TokenType::String(_) => 1,
        TokenType::Number(_) => 2,
        TokenType::LeftParen => 3,
        TokenType::RightParen => 4,
        TokenType::LeftBrace => 5,
        TokenType::RightBrace => 6,
        TokenType::Comma => 7,
        TokenType::Dot => 8,
        TokenType::Minus => 9,
        TokenType::Plus => 10,
        TokenType::SemiColon => 11,
        TokenType::Slash => 12,
        TokenType::Star => 13,
        TokenType::Bang => 14,
        TokenType::BangEqual => 15,
        TokenType::Equal => 16,
        TokenType::EqualEqual => 17,
        TokenType::Greater => 18,
        TokenType::GreaterEqual => 19,
        TokenType::Less => 20,
        TokenType::LessEqual => 21,
        TokenType::And => 22,
        TokenType::Class => 23,
        TokenType::Else => 24,
        TokenType::False => 25,
        TokenType::Fun => 26,
        TokenType::For => 27,
        TokenType::If => 28,
        TokenType::Nil => 29,
        TokenType::Or => 30,
        TokenType::Print => 31,
        TokenType::Return => 32,
        TokenType::Super => 33,
        TokenType::This => 34,
        TokenType::True => 35,
        TokenType::Var => 36,
        TokenType::While => 37,
        TokenType::Eof => 38,
    }
}

/// Whether two token kinds match, payloads included.
fn tt_eq(a: &TokenType, b: &TokenType) -> (r: bool)
    ensures
        r == tt_matches(*a, *b),
{
    proof {
        reveal(tt_matches);
    }
    match a {
        TokenType::Identifier(x) => match b {
            TokenType::Identifier(y) => *x == *y,
            _ => false,
        },
        TokenType::String(x) => match b {
            TokenType::String(y) => *x == *y,
            _ => false,
        },
        TokenType::Number(x) => match b {
            TokenType::Number(y) => *x == *y,
            _ => false,
        },
        _ => tt_code_of(a) == tt_code_of(b),
    }
}

} // verus!
