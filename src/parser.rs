use vstd::prelude::*;
use crate::chunk::{inst_refs_ok, Inst, KMethod};
use crate::compiler::{code_grows, compiler_wf, pool_grows, progress, Compiler};
use crate::number::{literal_num, Num};
use crate::scanner::{lemma_scan_step, next_token, tok_view, tokens_from, Lexed, TokV, Token, TokenType};
use crate::vm::strings_view;
use crate::span::Span;
use crate::text::{nat_text, push_nat, push_str};
use crate::value::{SValue, Value};

verus! {

/// The parser's two token slots and its error flags. `panic_mode` is set by
/// the first error and stays set, so later errors are not reported.
pub struct ParserState {
    pub current: Token,
    pub previous: Token,
    pub had_error: bool,
    pub panic_mode: bool,
    pub parsing_table: Vec<ParseRule>,
}

/// Binding strength of operators, weakest first; `Lowest` binds nothing.
#[derive(Clone, Copy, Debug, PartialEq, Eq, Structural)]
pub enum Precedence {
    Lowest,
    Assignment,
    Or,
    And,
    Equality,
    Comparison,
    Term,
    Factor,
    Unary,
    Call,
    Primary,
}

/// What to do on a token that starts an expression.
#[derive(Clone, Copy, Debug, PartialEq, Eq, Structural)]
pub enum PrefixAction {
    Grouping,
    Unary,
    Number,
    Variable,
    Str,
    Literal,
}

/// What to do on a token that continues an expression.
#[derive(Clone, Copy, Debug, PartialEq, Eq, Structural)]
pub enum InfixAction {
    Binary,
}

/// A row of the parsing table.
#[derive(Clone, Copy, Debug, PartialEq, Eq, Structural)]
pub struct ParseRule {
    pub prefix: Option<PrefixAction>,
    pub infix: Option<InfixAction>,
    pub prec: Precedence,
}

impl Precedence {
    pub open spec fn spec_level(self) -> u8 {
        match self {
            Precedence::Lowest => 0,
            Precedence::Assignment => 1,
            Precedence::Or => 2,
            Precedence::And => 3,
            Precedence::Equality => 4,
            Precedence::Comparison => 5,
            Precedence::Term => 6,
            Precedence::Factor => 7,
            Precedence::Unary => 8,
            Precedence::Call => 9,
            Precedence::Primary => 10,
        }
    }

    /// The position on the ladder, `None` being 0.
    #[verifier::when_used_as_spec(spec_level)]
    pub fn level(self) -> (r: u8)
        ensures
            r == self.spec_level(),
    {
        match self {
            Precedence::Lowest => 0,
            Precedence::Assignment => 1,
            Precedence::Or => 2,
            Precedence::And => 3,
            Precedence::Equality => 4,
            Precedence::Comparison => 5,
            Precedence::Term => 6,
            Precedence::Factor => 7,
            Precedence::Unary => 8,
            Precedence::Call => 9,
            Precedence::Primary => 10,
        }
    }

    pub open spec fn succ_spec(self) -> Self {
        match self {
            Precedence::Lowest => Precedence::Assignment,
            Precedence::Assignment => Precedence::Or,
            Precedence::Or => Precedence::And,
            Precedence::And => Precedence::Equality,
            Precedence::Equality => Precedence::Comparison,
            Precedence::Comparison => Precedence::Term,
            Precedence::Term => Precedence::Factor,
            Precedence::Factor => Precedence::Unary,
            Precedence::Unary => Precedence::Call,
            Precedence::Call => Precedence::Primary,
            Precedence::Primary => Precedence::Primary,
        }
    }

    /// The next stronger level; `Primary` stays.
    pub fn succ(self) -> (r: Self)
        ensures
            r == self.succ_spec(),
            r.level() == if self.level() < 10 { self.level() + 1 } else { 10 },
    {
        match self {
            Precedence::Lowest => Precedence::Assignment,
            Precedence::Assignment => Precedence::Or,
            Precedence::Or => Precedence::And,
            Precedence::And => Precedence::Equality,
            Precedence::Equality => Precedence::Comparison,
            Precedence::Comparison => Precedence::Term,
            Precedence::Term => Precedence::Factor,
            Precedence::Factor => Precedence::Unary,
            Precedence::Unary => Precedence::Call,
            Precedence::Call => Precedence::Primary,
            Precedence::Primary => Precedence::Primary,
        }
    }
}

pub open spec fn rule(prefix: Option<PrefixAction>, infix: Option<InfixAction>, prec: Precedence) -> ParseRule {
    ParseRule { prefix, infix, prec }
}

/// The parsing table: for each token kind, its prefix action, its infix
/// action and the precedence of the infix action.
pub open spec fn rule_of(tp: TokenType) -> ParseRule {
    match tp {
        TokenType::LeftParen => rule(Some(PrefixAction::Grouping), None, Precedence::Lowest),
        TokenType::Minus => rule(Some(PrefixAction::Unary), Some(InfixAction::Binary), Precedence::Term),
        TokenType::Plus => rule(None, Some(InfixAction::Binary), Precedence::Term),
        TokenType::Slash => rule(None, Some(InfixAction::Binary), Precedence::Factor),
        TokenType::Star => rule(None, Some(InfixAction::Binary), Precedence::Factor),
        TokenType::EqualEqual => rule(None, Some(InfixAction::Binary), Precedence::Equality),
        TokenType::Greater => rule(None, Some(InfixAction::Binary), Precedence::Comparison),
        TokenType::Less => rule(None, Some(InfixAction::Binary), Precedence::Comparison),
        TokenType::Number => rule(Some(PrefixAction::Number), None, Precedence::Lowest),
        TokenType::Identifier => rule(Some(PrefixAction::Variable), None, Precedence::Lowest),
        TokenType::String => rule(Some(PrefixAction::Str), None, Precedence::Lowest),
        TokenType::False => rule(Some(PrefixAction::Literal), None, Precedence::Lowest),
        TokenType::True => rule(Some(PrefixAction::Literal), None, Precedence::Lowest),
        TokenType::Nil => rule(Some(PrefixAction::Literal), None, Precedence::Lowest),
        TokenType::Bang => rule(Some(PrefixAction::Unary), None, Precedence::Lowest),
        _ => rule(None, None, Precedence::Lowest),
    }
}


/// The row of each token kind in the parsing table.
pub open spec fn spec_token_index(tp: TokenType) -> usize {
    match tp {
        TokenType::LeftParen => 0,
        TokenType::RightParen => 1,
        TokenType::LeftBrace => 2,
        TokenType::RightBrace => 3,
        TokenType::Comma => 4,
        TokenType::Dot => 5,
        TokenType::Minus => 6,
        TokenType::Plus => 7,
        TokenType::SemiColon => 8,
        TokenType::Slash => 9,
        TokenType::Star => 10,
        TokenType::Bang => 11,
        TokenType::BangEqual => 12,
        TokenType::Equal => 13,
        TokenType::EqualEqual => 14,
        TokenType::Greater => 15,
        TokenType::GreaterEqual => 16,
        TokenType::Less => 17,
        TokenType::LessEqual => 18,
        TokenType::Identifier => 19,
        TokenType::String => 20,
        TokenType::Number => 21,
        TokenType::And => 22,
        TokenType::Class => 23,
        TokenType::Else => 24,
        TokenType::False => 25,
        TokenType::For => 26,
        TokenType::Fun => 27,
        TokenType::If => 28,
        TokenType::Nil => 29,
        TokenType::Or => 30,
        TokenType::Print => 31,
        TokenType::Return => 32,
        TokenType::Super => 33,
        TokenType::This => 34,
        TokenType::True => 35,
        TokenType::Var => 36,
        TokenType::While => 37,
        TokenType::Error => 38,
        TokenType::EOF => 39,
    }
}

/// The row of `tp` in the parsing table.
#[verifier::when_used_as_spec(spec_token_index)]
pub fn token_index(tp: TokenType) -> (r: usize)
    ensures
        r == spec_token_index(tp),
{
    match tp {
        TokenType::LeftParen => 0,
        TokenType::RightParen => 1,
        TokenType::LeftBrace => 2,
        TokenType::RightBrace => 3,
        TokenType::Comma => 4,
        TokenType::Dot => 5,
        TokenType::Minus => 6,
        TokenType::Plus => 7,
        TokenType::SemiColon => 8,
        TokenType::Slash => 9,
        TokenType::Star => 10,
        TokenType::Bang => 11,
        TokenType::BangEqual => 12,
        TokenType::Equal => 13,
        TokenType::EqualEqual => 14,
        TokenType::Greater => 15,
        TokenType::GreaterEqual => 16,
        TokenType::Less => 17,
        TokenType::LessEqual => 18,
        TokenType::Identifier => 19,
        TokenType::String => 20,
        TokenType::Number => 21,
        TokenType::And => 22,
        TokenType::Class => 23,
        TokenType::Else => 24,
        TokenType::False => 25,
        TokenType::For => 26,
        TokenType::Fun => 27,
        TokenType::If => 28,
        TokenType::Nil => 29,
        TokenType::Or => 30,
        TokenType::Print => 31,
        TokenType::Return => 32,
        TokenType::Super => 33,
        TokenType::This => 34,
        TokenType::True => 35,
        TokenType::Var => 36,
        TokenType::While => 37,
        TokenType::Error => 38,
        TokenType::EOF => 39,
    }
}

/// The table holds the row of `rule_of` for every token kind.
pub open spec fn table_wf(t: Seq<ParseRule>) -> bool {
    &&& t.len() == 40
    &&& forall|tp: TokenType| #[trigger] t[token_index(tp) as int] == rule_of(tp)
}

impl ParseRule {
    pub fn new(prefix: Option<PrefixAction>, infix: Option<InfixAction>, prec: Precedence) -> (r: ParseRule)
        ensures
            r == rule(prefix, infix, prec),
    {
        ParseRule { prefix, infix, prec }
    }

    /// The parsing table, one row per token kind in the order of `token_index`.
    pub fn make_rules() -> (r: Vec<ParseRule>)
        ensures
            table_wf(r@),
    {
        let r = vec![
            rule_for(TokenType::LeftParen),
            rule_for(TokenType::RightParen),
            rule_for(TokenType::LeftBrace),
            rule_for(TokenType::RightBrace),
            rule_for(TokenType::Comma),
            rule_for(TokenType::Dot),
            rule_for(TokenType::Minus),
            rule_for(TokenType::Plus),
            rule_for(TokenType::SemiColon),
            rule_for(TokenType::Slash),
            rule_for(TokenType::Star),
            rule_for(TokenType::Bang),
            rule_for(TokenType::BangEqual),
            rule_for(TokenType::Equal),
            rule_for(TokenType::EqualEqual),
            rule_for(TokenType::Greater),
            rule_for(TokenType::GreaterEqual),
            rule_for(TokenType::Less),
            rule_for(TokenType::LessEqual),
            rule_for(TokenType::Identifier),
            rule_for(TokenType::String),
            rule_for(TokenType::Number),
            rule_for(TokenType::And),
            rule_for(TokenType::Class),
            rule_for(TokenType::Else),
            rule_for(TokenType::False),
            rule_for(TokenType::For),
            rule_for(TokenType::Fun),
            rule_for(TokenType::If),
            rule_for(TokenType::Nil),
            rule_for(TokenType::Or),
            rule_for(TokenType::Print),
            rule_for(TokenType::Return),
            rule_for(TokenType::Super),
            rule_for(TokenType::This),
            rule_for(TokenType::True),
            rule_for(TokenType::Var),
            rule_for(TokenType::While),
            rule_for(TokenType::Error),
            rule_for(TokenType::EOF),
        ];
        assert forall|tp: TokenType| #[trigger] r@[token_index(tp) as int] == rule_of(tp) by {
            match tp {
                TokenType::LeftParen => {},
                TokenType::RightParen => {},
                TokenType::LeftBrace => {},
                TokenType::RightBrace => {},
                TokenType::Comma => {},
                TokenType::Dot => {},
                TokenType::Minus => {},
                TokenType::Plus => {},
                TokenType::SemiColon => {},
                TokenType::Slash => {},
                TokenType::Star => {},
                TokenType::Bang => {},
                TokenType::BangEqual => {},
                TokenType::Equal => {},
                TokenType::EqualEqual => {},
                TokenType::Greater => {},
                TokenType::GreaterEqual => {},
                TokenType::Less => {},
                TokenType::LessEqual => {},
                TokenType::Identifier => {},
                TokenType::String => {},
                TokenType::Number => {},
                TokenType::And => {},
                TokenType::Class => {},
                TokenType::Else => {},
                TokenType::False => {},
                TokenType::For => {},
                TokenType::Fun => {},
                TokenType::If => {},
                TokenType::Nil => {},
                TokenType::Or => {},
                TokenType::Print => {},
                TokenType::Return => {},
                TokenType::Super => {},
                TokenType::This => {},
                TokenType::True => {},
                TokenType::Var => {},
                TokenType::While => {},
                TokenType::Error => {},
                TokenType::EOF => {},
            }
        }
        r
    }
}

/// The table row of `tp`.
fn rule_for(tp: TokenType) -> (r: ParseRule)
    ensures
        r == rule_of(tp),
{
    match tp {
        TokenType::LeftParen => ParseRule::new(Some(PrefixAction::Grouping), None, Precedence::Lowest),
        TokenType::Minus => ParseRule::new(Some(PrefixAction::Unary), Some(InfixAction::Binary), Precedence::Term),
        TokenType::Plus => ParseRule::new(None, Some(InfixAction::Binary), Precedence::Term),
        TokenType::Slash => ParseRule::new(None, Some(InfixAction::Binary), Precedence::Factor),
        TokenType::Star => ParseRule::new(None, Some(InfixAction::Binary), Precedence::Factor),
        TokenType::EqualEqual => ParseRule::new(None, Some(InfixAction::Binary), Precedence::Equality),
        TokenType::Greater => ParseRule::new(None, Some(InfixAction::Binary), Precedence::Comparison),
        TokenType::Less => ParseRule::new(None, Some(InfixAction::Binary), Precedence::Comparison),
        TokenType::Number => ParseRule::new(Some(PrefixAction::Number), None, Precedence::Lowest),
        TokenType::Identifier => ParseRule::new(Some(PrefixAction::Variable), None, Precedence::Lowest),
        TokenType::String => ParseRule::new(Some(PrefixAction::Str), None, Precedence::Lowest),
        TokenType::False => ParseRule::new(Some(PrefixAction::Literal), None, Precedence::Lowest),
        TokenType::True => ParseRule::new(Some(PrefixAction::Literal), None, Precedence::Lowest),
        TokenType::Nil => ParseRule::new(Some(PrefixAction::Literal), None, Precedence::Lowest),
        TokenType::Bang => ParseRule::new(Some(PrefixAction::Unary), None, Precedence::Lowest),
        _ => ParseRule::new(None, None, Precedence::Lowest),
    }
}

/// The text of a compile error report on `tok`.
pub open spec fn error_report(tp: TokenType, line: usize, content: Seq<char>, msg: Seq<char>) -> Seq<char> {
    let place = if tp == TokenType::EOF {
        " at End"@
    } else if tp == TokenType::Error {
        Seq::empty()
    } else {
        " at "@ + content
    };
    "[line "@ + nat_text(line as nat) + "] Error"@ + place + ": "@ + msg
}

/// The token that the parser's slots hold before the first one is read.
pub fn empty_token() -> (r: Token)
    ensures
        r.tp == TokenType::Error,
        r.line == 0,
        r.content@ == "EMPTY TOKEN"@,
{
    Token { tp: TokenType::Error, span: Span::new(0, 0), content: String::from_str("EMPTY TOKEN"), line: 0 }
}

impl ParserState {
    pub fn new() -> (r: ParserState)
        ensures
            !r.had_error,
            !r.panic_mode,
            r.current.tp == TokenType::Error,
            r.previous.tp == TokenType::Error,
            tok_view(&r.current) == (TokV { tp: TokenType::Error, line: 0, content: "EMPTY TOKEN"@ }),
            tok_view(&r.previous) == (TokV { tp: TokenType::Error, line: 0, content: "EMPTY TOKEN"@ }),
            table_wf(r.parsing_table@),
    {
        ParserState {
            current: empty_token(),
            previous: empty_token(),
            had_error: false,
            panic_mode: false,
            parsing_table: ParseRule::make_rules(),
        }
    }

    /// The table row of `tp`.
    pub fn get_rule(&self, tp: TokenType) -> (r: ParseRule)
        requires
            table_wf(self.parsing_table@),
        ensures
            r == rule_of(tp),
    {
        self.parsing_table[token_index(tp)]
    }
}

/// The parser's state as a value: the scanner position, the tokens still to
/// read, the two token slots, the code and constants written so far, and the
/// error reports.
pub struct PS {
    pub pos: int,
    pub len: int,
    pub rest: Seq<Lexed>,
    pub cur: TokV,
    pub prev: TokV,
    pub code: Seq<Inst>,
    pub lines: Seq<usize>,
    pub pool: Seq<SValue>,
    pub diags: Seq<Seq<char>>,
}

pub open spec fn pview(c: Compiler) -> PS {
    PS {
        pos: c.scanner.current as int,
        len: c.chars@.len() as int,
        rest: tokens_from(c.chars@, c.scanner.current as int, c.scanner.line as int),
        cur: tok_view(&c.parser.current),
        prev: tok_view(&c.parser.previous),
        code: c.current_chunk.data@,
        lines: c.current_chunk.lines@,
        pool: c.current_chunk.value_array@,
        diags: strings_view(c.diagnostics@),
    }
}

/// What is left to read: characters after the scanner, and the current token
/// unless it is the end.
pub open spec fn measure(st: PS) -> int {
    (st.len - st.pos) + if st.cur.tp != TokenType::EOF { 1int } else { 0 }
}

pub open spec fn smaller(a: PS, b: PS) -> bool {
    0 <= measure(a) < measure(b)
}

/// An error report at `tok`, unless one was made before.
pub open spec fn s_report(st: PS, tok: TokV, msg: Seq<char>) -> PS {
    if st.diags.len() > 0 {
        st
    } else {
        PS { diags: st.diags.push(error_report(tok.tp, tok.line, tok.content, msg)), ..st }
    }
}

/// Reads tokens until one is not an error, reporting each error token.
pub open spec fn s_skip(st: PS) -> PS
    decreases st.rest.len(),
{
    if st.rest.len() == 0 {
        st
    } else {
        let x = st.rest[0];
        let r2 = if x.tok.tp == TokenType::EOF { st.rest } else { st.rest.drop_first() };
        let moved = PS { pos: x.end, rest: r2, ..st };
        if x.tok.tp != TokenType::Error {
            PS { cur: x.tok, ..moved }
        } else if r2.len() < st.rest.len() {
            s_skip(s_report(moved, x.tok, x.tok.content))
        } else {
            moved
        }
    }
}

pub open spec fn s_advance(st: PS) -> PS {
    s_skip(PS { prev: st.cur, ..st })
}

pub open spec fn s_consume(st: PS, tp: TokenType, msg: Seq<char>) -> PS {
    if st.cur.tp == tp { s_advance(st) } else { s_report(st, st.cur, msg) }
}

pub open spec fn s_try_consume(st: PS, tp: TokenType) -> (bool, PS) {
    if st.cur.tp == tp { (true, s_advance(st)) } else { (false, st) }
}

pub open spec fn s_emit(st: PS, inst: Inst) -> PS {
    PS { code: st.code.push(inst), lines: st.lines.push(st.prev.line), ..st }
}

pub open spec fn s_add_const(st: PS, v: SValue) -> (int, PS) {
    (st.pool.len() as int, PS { pool: st.pool.push(v), ..st })
}

pub open spec fn s_emit_const(st: PS, v: SValue) -> PS {
    let (i, s1) = s_add_const(st, v);
    s_emit(s1, Inst::CONSTANT { idx: i as usize })
}

pub open spec fn s_number(st: PS) -> PS {
    match literal_num(st.prev.content) {
        Some(n) => s_emit_const(st, SValue::Number(n)),
        None => s_report(st, st.prev, "Number literal out of range."@),
    }
}

pub open spec fn s_variable(st: PS) -> PS {
    let (i, s1) = s_add_const(st, SValue::Str(st.prev.content));
    s_emit(s1, Inst::OP_GET_GLOBAL { name_idx: i as usize })
}

pub open spec fn s_string(st: PS) -> PS {
    let t = st.prev.content;
    s_emit_const(st, SValue::Str(if t.len() >= 2 { t.subrange(1, t.len() - 1) } else { Seq::empty() }))
}

pub open spec fn s_literal(st: PS) -> PS {
    if st.prev.tp == TokenType::False {
        s_emit_const(st, SValue::Bool(false))
    } else if st.prev.tp == TokenType::True {
        s_emit_const(st, SValue::Bool(true))
    } else if st.prev.tp == TokenType::Nil {
        s_emit_const(st, SValue::Nil)
    } else {
        st
    }
}

/// An expression.
pub open spec fn p_expression(st: PS) -> PS
    decreases measure(st), 2int,
{
    p_prec(st, Precedence::Assignment)
}

/// An expression whose operators bind at least as strongly as `prec`: a
/// prefix form, then infix operators while they bind strongly enough.
pub open spec fn p_prec(st: PS, prec: Precedence) -> PS
    decreases measure(st), 1int,
{
    let s1 = s_advance(st);
    match rule_of(s1.prev.tp).prefix {
        None => s_report(s1, s1.prev, "Expect expression."@),
        Some(a) => if smaller(s1, st) {
            let s2 = p_prefix(s1, a);
            if smaller(s2, st) { p_loop(s2, prec) } else { s2 }
        } else {
            s1
        },
    }
}

/// The infix operators that follow a left operand.
pub open spec fn p_loop(st: PS, prec: Precedence) -> PS
    decreases measure(st), 0int,
{
    let r = rule_of(st.cur.tp);
    if prec.spec_level() > r.prec.spec_level() {
        st
    } else {
        let s1 = s_advance(st);
        if smaller(s1, st) {
            let s2 = match r.infix {
                None => s_report(s1, s1.prev, "Expecting valid infix operator."@),
                Some(a) => p_infix(s1, a),
            };
            if smaller(s2, st) { p_loop(s2, prec) } else { s2 }
        } else {
            s1
        }
    }
}

pub open spec fn p_prefix(st: PS, a: PrefixAction) -> PS
    decreases measure(st), 4int,
{
    match a {
        PrefixAction::Grouping => p_grouping(st),
        PrefixAction::Unary => p_unary(st),
        PrefixAction::Number => s_number(st),
        PrefixAction::Variable => s_variable(st),
        PrefixAction::Str => s_string(st),
        PrefixAction::Literal => s_literal(st),
    }
}

pub open spec fn p_infix(st: PS, a: InfixAction) -> PS
    decreases measure(st), 4int,
{
    match a {
        InfixAction::Binary => p_binary(st),
    }
}

/// `( expression )`, the `(` read.
pub open spec fn p_grouping(st: PS) -> PS
    decreases measure(st), 3int,
{
    s_consume(p_expression(st), TokenType::RightParen, "Expecting ')' after expression."@)
}

/// The operand of `-` or `!` (a whole expression), then the operator's
/// instruction.
pub open spec fn p_unary(st: PS) -> PS
    decreases measure(st), 3int,
{
    let s1 = p_expression(st);
    if st.prev.tp == TokenType::Minus {
        s_emit(s1, Inst::OP_NEGATE)
    } else if st.prev.tp == TokenType::Bang {
        s_emit(s1, Inst::OP_NOT)
    } else {
        s1
    }
}

/// The right operand, parsed one level above the operator's precedence so
/// that operators of one level group to the left, then the operator's
/// instruction.
pub open spec fn p_binary(st: PS) -> PS
    decreases measure(st), 3int,
{
    let s1 = p_prec(st, rule_of(st.prev.tp).prec.succ_spec());
    match binary_inst(st.prev.tp) {
        Some(i) => s_emit(s1, i),
        None => s1,
    }
}

pub open spec fn p_var(st: PS, msg: Seq<char>) -> (int, PS) {
    let s1 = s_consume(st, TokenType::Identifier, msg);
    s_add_const(s1, SValue::Str(s1.prev.content))
}

pub open spec fn p_var_decl(st: PS) -> PS {
    let (i, s1) = p_var(st, "Expecting variable name after `var`"@);
    let (b, s2) = s_try_consume(s1, TokenType::Equal);
    let s3 = if b { p_expression(s2) } else { s_emit_const(s2, SValue::Nil) };
    let s4 = s_consume(s3, TokenType::SemiColon, "Expecting ';' after variable decl"@);
    s_emit(s4, Inst::OP_DEFINE_GLOBAL { name_idx: i as usize })
}

pub open spec fn p_print_stmt(st: PS) -> PS {
    let s1 = s_consume(p_expression(st), TokenType::SemiColon, "Expect ';' at end of statement."@);
    s_emit(s1, Inst::OP_KCALL { tp: KMethod::Print })
}

pub open spec fn p_expr_stmt(st: PS) -> PS {
    let s1 = s_consume(p_expression(st), TokenType::SemiColon, "Expect ';' at end of statement."@);
    s_emit(s1, Inst::OP_POP)
}

pub open spec fn p_stmt(st: PS) -> PS {
    let (b, s1) = s_try_consume(st, TokenType::Print);
    if b { p_print_stmt(s1) } else { p_expr_stmt(s1) }
}

pub open spec fn p_decl(st: PS) -> PS {
    let (b, s1) = s_try_consume(st, TokenType::Var);
    if b { p_var_decl(s1) } else { p_stmt(s1) }
}

/// Declarations up to the end token, which is then read.
pub open spec fn p_decls(st: PS) -> PS
    decreases measure(st),
{
    if st.cur.tp == TokenType::EOF {
        s_advance(st)
    } else {
        let s1 = p_decl(st);
        if smaller(s1, st) { p_decls(s1) } else { s1 }
    }
}

/// A whole program: the first token, the declarations, and a final `RETURN`.
pub open spec fn p_program(st: PS) -> PS {
    s_emit(p_decls(s_advance(st)), Inst::RETURN)
}

/// A copy of a token.
fn copy_token(t: &Token) -> (r: Token)
    ensures
        r.tp == t.tp,
        r.line == t.line,
        r.content@ == t.content@,
{
    Token { tp: t.tp, span: t.span, content: String::from_str(t.content.as_str()), line: t.line }
}

/// Reports `msg` at a token unless an error was reported before.
fn error_at(c: &mut Compiler, tp: TokenType, line: usize, content: &String, msg: &str)
    requires
        compiler_wf(*old(c)),
    ensures
        final(c).chars == old(c).chars,
        pview(*final(c)) == s_report(pview(*old(c)), TokV { tp, line, content: content@ }, msg@),
        compiler_wf(*final(c)),
        pool_grows(*old(c), *final(c)),
        code_grows(*old(c), *final(c)),
        progress(*final(c)) == progress(*old(c)),
        final(c).current_chunk == old(c).current_chunk,
        final(c).parser.previous == old(c).parser.previous,
        final(c).parser.current == old(c).parser.current,
        final(c).scanner == old(c).scanner,
        final(c).chars == old(c).chars,
        old(c).parser.panic_mode ==> final(c).diagnostics@ == old(c).diagnostics@,
        !old(c).parser.panic_mode ==> final(c).diagnostics@.len() == old(c).diagnostics@.len() + 1
            && final(c).diagnostics@.last()@ == error_report(tp, line, content@, msg@),
        final(c).parser.had_error,
{
    if c.parser.panic_mode {
        return;
    }
    c.parser.panic_mode = true;
    let mut s = String::from_str("[line ");
    push_nat(&mut s, line as u64);
    push_str(&mut s, "] Error");
    match tp {
        TokenType::EOF => push_str(&mut s, " at End"),
        TokenType::Error => {},
        _ => {
            push_str(&mut s, " at ");
            push_str(&mut s, content.as_str());
        },
    }
    push_str(&mut s, ": ");
    push_str(&mut s, msg);
    assert(s@ =~= error_report(tp, line, content@, msg@));
    let ghost d0 = c.diagnostics@;
    c.diagnostics.push(s);
    assert(strings_view(c.diagnostics@) =~= strings_view(d0).push(error_report(tp, line, content@, msg@)));
    c.parser.had_error = true;
}


/// Reports `msg` at the previous token.
fn emit_error(c: &mut Compiler, msg: &str)
    requires
        compiler_wf(*old(c)),
    ensures
        final(c).chars == old(c).chars,
        pview(*final(c)) == s_report(pview(*old(c)), pview(*old(c)).prev, msg@),
        compiler_wf(*final(c)),
        pool_grows(*old(c), *final(c)),
        code_grows(*old(c), *final(c)),
        progress(*final(c)) == progress(*old(c)),
        final(c).current_chunk == old(c).current_chunk,
        final(c).parser.previous == old(c).parser.previous,
        final(c).parser.current == old(c).parser.current,
        final(c).parser.had_error,
{
    let tok = copy_token(&c.parser.previous);
    error_at(c, tok.tp, tok.line, &tok.content, msg);
}

/// Reports `msg` at the current token.
fn emit_error_at_current(c: &mut Compiler, msg: &str)
    requires
        compiler_wf(*old(c)),
    ensures
        final(c).chars == old(c).chars,
        pview(*final(c)) == s_report(pview(*old(c)), pview(*old(c)).cur, msg@),
        compiler_wf(*final(c)),
        pool_grows(*old(c), *final(c)),
        code_grows(*old(c), *final(c)),
        progress(*final(c)) == progress(*old(c)),
        final(c).current_chunk == old(c).current_chunk,
        final(c).parser.previous == old(c).parser.previous,
        final(c).parser.current == old(c).parser.current,
{
    let tok = copy_token(&c.parser.current);
    error_at(c, tok.tp, tok.line, &tok.content, msg);
}

/// Moves to the next token that is not an error; each error token on the way
/// is reported.
pub fn advance(c: &mut Compiler)
    requires
        compiler_wf(*old(c)),
    ensures
        final(c).chars == old(c).chars,
        pview(*final(c)) == s_advance(pview(*old(c))),
        compiler_wf(*final(c)),
        pool_grows(*old(c), *final(c)),
        code_grows(*old(c), *final(c)),
        final(c).parser.previous.tp == old(c).parser.current.tp,
        final(c).parser.previous.line == old(c).parser.current.line,
        final(c).parser.previous.content@ == old(c).parser.current.content@,
        final(c).parser.current.tp != TokenType::Error,
        final(c).current_chunk == old(c).current_chunk,
        progress(*final(c)) <= progress(*old(c)),
        old(c).parser.current.tp != TokenType::EOF ==> progress(*final(c)) < progress(*old(c)),
{
    let ghost goal = s_advance(pview(*c));
    c.parser.previous = copy_token(&c.parser.current);
    assert(pview(*c) == (PS { prev: pview(*old(c)).cur, ..pview(*old(c)) }));
    loop
        invariant
            compiler_wf(*c),
            c.parser.previous.tp == old(c).parser.current.tp,
            c.parser.previous.line == old(c).parser.current.line,
            c.parser.previous.content@ == old(c).parser.current.content@,
            c.current_chunk == old(c).current_chunk,
            c.chars == old(c).chars,
            c.scanner.current >= old(c).scanner.current,
            goal == s_advance(pview(*old(c))),
            s_skip(pview(*c)) == goal,
        decreases c.chars@.len() - c.scanner.current,
    {
        let ghost sc0 = c.scanner;
        let ghost v0 = pview(*c);
        let tok = next_token(c);
        proof { lemma_scan_step(c.chars@, &sc0, tok, &c.scanner); }
        if tok.tp != TokenType::Error {
            c.parser.current = tok;
            assert(pview(*c) == s_skip(v0));
            return;
        }
        error_at(c, tok.tp, tok.line, &tok.content, tok.content.as_str());
    }
}

/// Moves past the current token if it is of kind `tp`; else reports `msg`.
pub fn consume(c: &mut Compiler, tp: TokenType, msg: &str)
    requires
        compiler_wf(*old(c)),
    ensures
        final(c).chars == old(c).chars,
        pview(*final(c)) == s_consume(pview(*old(c)), tp, msg@),
        compiler_wf(*final(c)),
        pool_grows(*old(c), *final(c)),
        code_grows(*old(c), *final(c)),
        final(c).current_chunk == old(c).current_chunk,
        progress(*final(c)) <= progress(*old(c)),
        old(c).parser.current.tp == tp && tp != TokenType::EOF ==> progress(*final(c)) < progress(*old(c)),
{
    if c.parser.current.tp == tp {
        advance(c);
    } else {
        emit_error_at_current(c, msg);
    }
}

/// Whether the current token is of kind `tp`.
pub fn check_next(c: &Compiler, tp: TokenType) -> (r: bool)
    ensures
        r == (c.parser.current.tp == tp),
{
    c.parser.current.tp == tp
}

/// Moves past the current token if it is of kind `tp`, and says whether it did.
pub fn try_consume(c: &mut Compiler, tp: TokenType) -> (r: bool)
    requires
        compiler_wf(*old(c)),
    ensures
        final(c).chars == old(c).chars,
        (r, pview(*final(c))) == s_try_consume(pview(*old(c)), tp),
        compiler_wf(*final(c)),
        pool_grows(*old(c), *final(c)),
        code_grows(*old(c), *final(c)),
        r == (old(c).parser.current.tp == tp),
        final(c).current_chunk == old(c).current_chunk,
        progress(*final(c)) <= progress(*old(c)),
        r && tp != TokenType::EOF ==> progress(*final(c)) < progress(*old(c)),
        !r ==> *final(c) == *old(c),
{
    if check_next(c, tp) {
        consume(c, tp, "");
        true
    } else {
        false
    }
}

/// Appends an instruction, tagged with the line of the previous token.
fn emit(c: &mut Compiler, inst: Inst)
    requires
        compiler_wf(*old(c)),
        inst_refs_ok(inst, old(c).current_chunk.value_array@),
    ensures
        final(c).chars == old(c).chars,
        pview(*final(c)) == s_emit(pview(*old(c)), inst),
        compiler_wf(*final(c)),
        pool_grows(*old(c), *final(c)),
        code_grows(*old(c), *final(c)),
        progress(*final(c)) == progress(*old(c)),
        final(c).current_chunk.data@ == old(c).current_chunk.data@.push(inst),
        final(c).current_chunk.value_array == old(c).current_chunk.value_array,
        final(c).parser.previous == old(c).parser.previous,
        final(c).parser.current == old(c).parser.current,
{
    let line = c.parser.previous.line;
    c.current_chunk.write(inst, line);
    assert(c.current_chunk.refs_ok()) by {
        assert forall|i: int| 0 <= i < c.current_chunk.data@.len() implies inst_refs_ok(#[trigger] c.current_chunk.data@[i], c.current_chunk.value_array@) by {
            if i < old(c).current_chunk.data@.len() {
                assert(c.current_chunk.data@[i] == old(c).current_chunk.data@[i]);
            }
        }
    }
}

/// Adds a constant to the pool and returns its index.
fn add_constant(c: &mut Compiler, v: Value) -> (idx: usize)
    requires
        compiler_wf(*old(c)),
    ensures
        final(c).chars == old(c).chars,
        (idx as int, pview(*final(c))) == s_add_const(pview(*old(c)), v@),
        compiler_wf(*final(c)),
        pool_grows(*old(c), *final(c)),
        code_grows(*old(c), *final(c)),
        progress(*final(c)) == progress(*old(c)),
        idx < final(c).current_chunk.value_array@.len(),
        final(c).current_chunk.value_array@[idx as int] == v@,
        final(c).current_chunk.data@ == old(c).current_chunk.data@,
        final(c).parser.previous == old(c).parser.previous,
        final(c).parser.current == old(c).parser.current,
{
    let ghost pool0 = c.current_chunk.value_array@;
    let idx = c.current_chunk.value_array.add_constant(v);
    assert(c.current_chunk.refs_ok()) by {
        assert forall|i: int| 0 <= i < c.current_chunk.data@.len() implies inst_refs_ok(#[trigger] c.current_chunk.data@[i], c.current_chunk.value_array@) by {
            assert(inst_refs_ok(old(c).current_chunk.data@[i], pool0));
            match c.current_chunk.data@[i] {
                Inst::OP_DEFINE_GLOBAL { name_idx } => {
                    assert(c.current_chunk.value_array@[name_idx as int] == pool0[name_idx as int]);
                },
                Inst::OP_GET_GLOBAL { name_idx } => {
                    assert(c.current_chunk.value_array@[name_idx as int] == pool0[name_idx as int]);
                },
                _ => {},
            }
        }
    }
    idx
}

/// Adds `v` to the pool and loads it.
fn emit_constant(c: &mut Compiler, v: Value)
    requires
        compiler_wf(*old(c)),
    ensures
        final(c).chars == old(c).chars,
        pview(*final(c)) == s_emit_const(pview(*old(c)), v@),
        compiler_wf(*final(c)),
        pool_grows(*old(c), *final(c)),
        code_grows(*old(c), *final(c)),
        progress(*final(c)) == progress(*old(c)),
        final(c).parser.previous == old(c).parser.previous,
        final(c).parser.current == old(c).parser.current,
        final(c).current_chunk.data@.len() == old(c).current_chunk.data@.len() + 1,
        final(c).current_chunk.data@.last() is CONSTANT,
        final(c).current_chunk.value_array@[final(c).current_chunk.data@.last()->idx as int] == v@,
{
    let idx = add_constant(c, v);
    emit(c, Inst::CONSTANT { idx });
}

/// Adds the string `s` to the pool and returns its index.
fn make_str(c: &mut Compiler, s: String) -> (idx: usize)
    requires
        compiler_wf(*old(c)),
    ensures
        final(c).chars == old(c).chars,
        (idx as int, pview(*final(c))) == s_add_const(pview(*old(c)), SValue::Str(s@)),
        compiler_wf(*final(c)),
        pool_grows(*old(c), *final(c)),
        code_grows(*old(c), *final(c)),
        progress(*final(c)) == progress(*old(c)),
        idx < final(c).current_chunk.value_array@.len(),
        final(c).current_chunk.value_array@[idx as int] == SValue::Str(s@),
        final(c).parser.previous == old(c).parser.previous,
        final(c).parser.current == old(c).parser.current,
        final(c).current_chunk.data@ == old(c).current_chunk.data@,
{
    add_constant(c, Value::create_string_obj(s))
}

/// An expression.
pub fn parse_expression(c: &mut Compiler)
    requires
        compiler_wf(*old(c)),
    ensures
        final(c).chars == old(c).chars,
        pview(*final(c)) == p_expression(pview(*old(c))),
        compiler_wf(*final(c)),
        pool_grows(*old(c), *final(c)),
        code_grows(*old(c), *final(c)),
        progress(*final(c)) <= progress(*old(c)),
        old(c).parser.current.tp != TokenType::EOF ==> progress(*final(c)) < progress(*old(c)),
    decreases progress(*old(c)), 1int,
{
    parse_prec(c, Precedence::Assignment);
}

/// An expression whose operators bind at least as strongly as `prec`.
fn parse_prec(c: &mut Compiler, prec: Precedence)
    requires
        compiler_wf(*old(c)),
        prec.level() >= 1,
    ensures
        final(c).chars == old(c).chars,
        pview(*final(c)) == p_prec(pview(*old(c)), prec),
        compiler_wf(*final(c)),
        pool_grows(*old(c), *final(c)),
        code_grows(*old(c), *final(c)),
        progress(*final(c)) <= progress(*old(c)),
        old(c).parser.current.tp != TokenType::EOF ==> progress(*final(c)) < progress(*old(c)),
    decreases progress(*old(c)), 0int,
{
    advance(c);
    match c.parser.get_rule(c.parser.previous.tp).prefix {
        None => {
            emit_error(c, "Expect expression.");
            return;
        },
        Some(action) => {
            run_prefix(c, action);
        },
    }
    let ghost goal = p_loop(pview(*c), prec);
    assert(p_prec(pview(*old(c)), prec) == goal);
    loop
        invariant
            compiler_wf(*c),
            progress(*c) < progress(*old(c)),
            pool_grows(*old(c), *c),
            code_grows(*old(c), *c),
            prec.level() >= 1,
            c.chars == old(c).chars,
            p_loop(pview(*c), prec) == goal,
            goal == p_prec(pview(*old(c)), prec),
        ensures
            compiler_wf(*c),
            progress(*c) < progress(*old(c)),
            pool_grows(*old(c), *c),
            code_grows(*old(c), *c),
            c.chars == old(c).chars,
            pview(*c) == goal,
        decreases progress(*c),
    {
        let next = c.parser.get_rule(c.parser.current.tp);
        if prec.level() > next.prec.level() {
            break;
        }
        let ghost v0 = pview(*c);
        advance(c);
        match next.infix {
            None => emit_error(c, "Expecting valid infix operator."),
            Some(action) => run_infix(c, action),
        }
    }
}

fn run_prefix(c: &mut Compiler, action: PrefixAction)
    requires
        compiler_wf(*old(c)),
    ensures
        final(c).chars == old(c).chars,
        pview(*final(c)) == p_prefix(pview(*old(c)), action),
        compiler_wf(*final(c)),
        pool_grows(*old(c), *final(c)),
        code_grows(*old(c), *final(c)),
        progress(*final(c)) <= progress(*old(c)),
    decreases progress(*old(c)), 3int,
{
    match action {
        PrefixAction::Grouping => parse_grouping(c),
        PrefixAction::Unary => parse_unary(c),
        PrefixAction::Number => parse_number(c),
        PrefixAction::Variable => parse_variable(c),
        PrefixAction::Str => parse_string(c),
        PrefixAction::Literal => parse_literal(c),
    }
}

fn run_infix(c: &mut Compiler, action: InfixAction)
    requires
        compiler_wf(*old(c)),
    ensures
        final(c).chars == old(c).chars,
        pview(*final(c)) == p_infix(pview(*old(c)), action),
        compiler_wf(*final(c)),
        pool_grows(*old(c), *final(c)),
        code_grows(*old(c), *final(c)),
        progress(*final(c)) <= progress(*old(c)),
    decreases progress(*old(c)), 3int,
{
    match action {
        InfixAction::Binary => parse_binary(c),
    }
}

/// `( expression )`, the `(` read.
fn parse_grouping(c: &mut Compiler)
    requires
        compiler_wf(*old(c)),
    ensures
        final(c).chars == old(c).chars,
        pview(*final(c)) == p_grouping(pview(*old(c))),
        compiler_wf(*final(c)),
        pool_grows(*old(c), *final(c)),
        code_grows(*old(c), *final(c)),
        progress(*final(c)) <= progress(*old(c)),
    decreases progress(*old(c)), 2int,
{
    parse_expression(c);
    consume(c, TokenType::RightParen, "Expecting ')' after expression.");
}

/// `-` or `!` and its operand, the operator read.
fn parse_unary(c: &mut Compiler)
    requires
        compiler_wf(*old(c)),
    ensures
        final(c).chars == old(c).chars,
        pview(*final(c)) == p_unary(pview(*old(c))),
        compiler_wf(*final(c)),
        pool_grows(*old(c), *final(c)),
        code_grows(*old(c), *final(c)),
        progress(*final(c)) <= progress(*old(c)),
        old(c).parser.previous.tp == TokenType::Minus ==> final(c).current_chunk.data@.len() > old(c).current_chunk.data@.len()
            && final(c).current_chunk.data@.last() == Inst::OP_NEGATE,
        old(c).parser.previous.tp == TokenType::Bang ==> final(c).current_chunk.data@.len() > old(c).current_chunk.data@.len()
            && final(c).current_chunk.data@.last() == Inst::OP_NOT,
    decreases progress(*old(c)), 2int,
{
    let tp = c.parser.previous.tp;
    parse_expression(c);
    match tp {
        TokenType::Minus => emit(c, Inst::OP_NEGATE),
        TokenType::Bang => emit(c, Inst::OP_NOT),
        _ => {},
    }
}

/// The right operand of a binary operator and the operator's instruction, the
/// operator read.
fn parse_binary(c: &mut Compiler)
    requires
        compiler_wf(*old(c)),
    ensures
        final(c).chars == old(c).chars,
        pview(*final(c)) == p_binary(pview(*old(c))),
        compiler_wf(*final(c)),
        pool_grows(*old(c), *final(c)),
        code_grows(*old(c), *final(c)),
        progress(*final(c)) <= progress(*old(c)),
        binary_inst(old(c).parser.previous.tp) is Some ==> final(c).current_chunk.data@.len() > old(c).current_chunk.data@.len()
            && final(c).current_chunk.data@.last() == binary_inst(old(c).parser.previous.tp)->0,
    decreases progress(*old(c)), 2int,
{
    let op = c.parser.previous.tp;
    let prec = c.parser.get_rule(op).prec;
    parse_prec(c, prec.succ());
    match op {
        TokenType::Plus => emit(c, Inst::OP_ADD),
        TokenType::Minus => emit(c, Inst::OP_SUB),
        TokenType::Star => emit(c, Inst::OP_MUL),
        TokenType::Slash => emit(c, Inst::OP_DIV),
        TokenType::EqualEqual => emit(c, Inst::OP_EQ),
        TokenType::Greater => emit(c, Inst::OP_GT),
        TokenType::Less => emit(c, Inst::OP_LT),
        _ => {},
    }
}

/// A number literal, read.
fn parse_number(c: &mut Compiler)
    requires
        compiler_wf(*old(c)),
    ensures
        final(c).chars == old(c).chars,
        pview(*final(c)) == s_number(pview(*old(c))),
        compiler_wf(*final(c)),
        pool_grows(*old(c), *final(c)),
        code_grows(*old(c), *final(c)),
        progress(*final(c)) == progress(*old(c)),
        match literal_num(old(c).parser.previous.content@) {
            Some(n) => final(c).current_chunk.data@.len() == old(c).current_chunk.data@.len() + 1
                && final(c).current_chunk.data@.last() is CONSTANT
                && final(c).current_chunk.value_array@[final(c).current_chunk.data@.last()->idx as int] == SValue::Number(n),
            None => final(c).current_chunk.data@ == old(c).current_chunk.data@ && final(c).parser.had_error,
        },
{
    match Num::from_literal(c.parser.previous.content.as_str()) {
        Some(n) => emit_constant(c, Value::NUMBER { data: n }),
        None => emit_error(c, "Number literal out of range."),
    }
}

/// A variable read, its name read.
fn parse_variable(c: &mut Compiler)
    requires
        compiler_wf(*old(c)),
    ensures
        final(c).chars == old(c).chars,
        pview(*final(c)) == s_variable(pview(*old(c))),
        compiler_wf(*final(c)),
        pool_grows(*old(c), *final(c)),
        code_grows(*old(c), *final(c)),
        progress(*final(c)) == progress(*old(c)),
        final(c).current_chunk.data@.len() == old(c).current_chunk.data@.len() + 1,
        final(c).current_chunk.data@.last() matches Inst::OP_GET_GLOBAL { name_idx }
            && final(c).current_chunk.value_array@[name_idx as int] == SValue::Str(old(c).parser.previous.content@),
{
    let name = String::from_str(c.parser.previous.content.as_str());
    let idx = make_str(c, name);
    emit(c, Inst::OP_GET_GLOBAL { name_idx: idx });
}

/// A string literal, read; the quotes are left out.
fn parse_string(c: &mut Compiler)
    requires
        compiler_wf(*old(c)),
    ensures
        final(c).chars == old(c).chars,
        pview(*final(c)) == s_string(pview(*old(c))),
        compiler_wf(*final(c)),
        pool_grows(*old(c), *final(c)),
        code_grows(*old(c), *final(c)),
        progress(*final(c)) == progress(*old(c)),
        final(c).current_chunk.data@.len() == old(c).current_chunk.data@.len() + 1,
        final(c).current_chunk.data@.last() is CONSTANT,
        old(c).parser.previous.content@.len() >= 2 ==> final(c).current_chunk.value_array@[final(c).current_chunk.data@.last()->idx as int]
            == SValue::Str(old(c).parser.previous.content@.subrange(1, old(c).parser.previous.content@.len() - 1)),
{
    let text = c.parser.previous.content.as_str();
    let n = text.unicode_len();
    let inner = if n >= 2 { String::from_str(text.substring_char(1, n - 1)) } else { String::new() };
    emit_constant(c, Value::create_string_obj(inner));
}

/// The instruction of a binary operator.
pub open spec fn binary_inst(tp: TokenType) -> Option<Inst> {
    match tp {
        TokenType::Plus => Some(Inst::OP_ADD),
        TokenType::Minus => Some(Inst::OP_SUB),
        TokenType::Star => Some(Inst::OP_MUL),
        TokenType::Slash => Some(Inst::OP_DIV),
        TokenType::EqualEqual => Some(Inst::OP_EQ),
        TokenType::Greater => Some(Inst::OP_GT),
        TokenType::Less => Some(Inst::OP_LT),
        _ => None,
    }
}

/// `true`, `false` or `nil`, read.
fn parse_literal(c: &mut Compiler)
    requires
        compiler_wf(*old(c)),
    ensures
        final(c).chars == old(c).chars,
        pview(*final(c)) == s_literal(pview(*old(c))),
        compiler_wf(*final(c)),
        pool_grows(*old(c), *final(c)),
        code_grows(*old(c), *final(c)),
        progress(*final(c)) == progress(*old(c)),
        old(c).parser.previous.tp == TokenType::False ==> final(c).current_chunk.value_array@[final(c).current_chunk.data@.last()->idx as int] == SValue::Bool(false),
        old(c).parser.previous.tp == TokenType::True ==> final(c).current_chunk.value_array@[final(c).current_chunk.data@.last()->idx as int] == SValue::Bool(true),
        old(c).parser.previous.tp == TokenType::Nil ==> final(c).current_chunk.value_array@[final(c).current_chunk.data@.last()->idx as int] == SValue::Nil,
        old(c).parser.previous.tp == TokenType::False || old(c).parser.previous.tp == TokenType::True || old(c).parser.previous.tp == TokenType::Nil
            ==> final(c).current_chunk.data@.len() == old(c).current_chunk.data@.len() + 1 && final(c).current_chunk.data@.last() is CONSTANT,
{
    match c.parser.previous.tp {
        TokenType::False => emit_constant(c, Value::BOOL { data: false }),
        TokenType::True => emit_constant(c, Value::BOOL { data: true }),
        TokenType::Nil => emit_constant(c, Value::NIL),
        _ => {},
    }
}


/// A declaration: `var name [= expression];`, or else a statement.
pub fn parse_decl(c: &mut Compiler)
    requires
        compiler_wf(*old(c)),
    ensures
        final(c).chars == old(c).chars,
        pview(*final(c)) == p_decl(pview(*old(c))),
        compiler_wf(*final(c)),
        pool_grows(*old(c), *final(c)),
        code_grows(*old(c), *final(c)),
        progress(*final(c)) <= progress(*old(c)),
        old(c).parser.current.tp != TokenType::EOF ==> progress(*final(c)) < progress(*old(c)),
        final(c).current_chunk.data@.len() > old(c).current_chunk.data@.len(),
        old(c).parser.current.tp == TokenType::Var ==> final(c).current_chunk.data@.last() is OP_DEFINE_GLOBAL,
        old(c).parser.current.tp == TokenType::Print ==> final(c).current_chunk.data@.last() == (Inst::OP_KCALL { tp: KMethod::Print }),
        old(c).parser.current.tp != TokenType::Var && old(c).parser.current.tp != TokenType::Print
            ==> final(c).current_chunk.data@.last() == Inst::OP_POP,
{
    if try_consume(c, TokenType::Var) {
        parse_var_decl(c);
    } else {
        parse_stmt(c);
    }
}

/// The rest of a `var` declaration, `var` read.
fn parse_var_decl(c: &mut Compiler)
    requires
        compiler_wf(*old(c)),
    ensures
        final(c).chars == old(c).chars,
        pview(*final(c)) == p_var_decl(pview(*old(c))),
        compiler_wf(*final(c)),
        pool_grows(*old(c), *final(c)),
        code_grows(*old(c), *final(c)),
        progress(*final(c)) <= progress(*old(c)),
        final(c).current_chunk.data@.len() > old(c).current_chunk.data@.len(),
        final(c).current_chunk.data@.last() is OP_DEFINE_GLOBAL,
{
    let name_idx = parse_var(c, "Expecting variable name after `var`");
    if try_consume(c, TokenType::Equal) {
        parse_expression(c);
    } else {
        emit_constant(c, Value::NIL);
    }
    consume(c, TokenType::SemiColon, "Expecting ';' after variable decl");
    define_variable(c, name_idx);
}

/// Binds the value on the stack to the name at `name_idx`.
fn define_variable(c: &mut Compiler, name_idx: usize)
    requires
        compiler_wf(*old(c)),
        name_idx < old(c).current_chunk.value_array@.len(),
        old(c).current_chunk.value_array@[name_idx as int] is Str,
    ensures
        final(c).chars == old(c).chars,
        pview(*final(c)) == s_emit(pview(*old(c)), Inst::OP_DEFINE_GLOBAL { name_idx }),
        compiler_wf(*final(c)),
        pool_grows(*old(c), *final(c)),
        code_grows(*old(c), *final(c)),
        progress(*final(c)) == progress(*old(c)),
        final(c).current_chunk.data@ == old(c).current_chunk.data@.push(Inst::OP_DEFINE_GLOBAL { name_idx }),
{
    emit(c, Inst::OP_DEFINE_GLOBAL { name_idx });
}

/// A variable name: the index of the string constant that holds it.
fn parse_var(c: &mut Compiler, err_msg: &str) -> (idx: usize)
    requires
        compiler_wf(*old(c)),
    ensures
        final(c).chars == old(c).chars,
        (idx as int, pview(*final(c))) == p_var(pview(*old(c)), err_msg@),
        compiler_wf(*final(c)),
        pool_grows(*old(c), *final(c)),
        code_grows(*old(c), *final(c)),
        progress(*final(c)) <= progress(*old(c)),
        idx < final(c).current_chunk.value_array@.len(),
        final(c).current_chunk.value_array@[idx as int] is Str,
{
    consume(c, TokenType::Identifier, err_msg);
    let name = String::from_str(c.parser.previous.content.as_str());
    make_str(c, name)
}

/// A statement: `print expression;` or `expression;`.
pub fn parse_stmt(c: &mut Compiler)
    requires
        compiler_wf(*old(c)),
    ensures
        final(c).chars == old(c).chars,
        pview(*final(c)) == p_stmt(pview(*old(c))),
        compiler_wf(*final(c)),
        pool_grows(*old(c), *final(c)),
        code_grows(*old(c), *final(c)),
        progress(*final(c)) <= progress(*old(c)),
        old(c).parser.current.tp != TokenType::EOF ==> progress(*final(c)) < progress(*old(c)),
        final(c).current_chunk.data@.len() > old(c).current_chunk.data@.len(),
        old(c).parser.current.tp == TokenType::Print ==> final(c).current_chunk.data@.last() == (Inst::OP_KCALL { tp: KMethod::Print }),
        old(c).parser.current.tp != TokenType::Print ==> final(c).current_chunk.data@.last() == Inst::OP_POP,
{
    if try_consume(c, TokenType::Print) {
        parse_print_stmt(c);
    } else {
        parse_expr_stmt(c);
    }
}

/// `expression;`, whose value is dropped.
fn parse_expr_stmt(c: &mut Compiler)
    requires
        compiler_wf(*old(c)),
    ensures
        final(c).chars == old(c).chars,
        pview(*final(c)) == p_expr_stmt(pview(*old(c))),
        compiler_wf(*final(c)),
        pool_grows(*old(c), *final(c)),
        code_grows(*old(c), *final(c)),
        progress(*final(c)) <= progress(*old(c)),
        old(c).parser.current.tp != TokenType::EOF ==> progress(*final(c)) < progress(*old(c)),
        final(c).current_chunk.data@.len() > old(c).current_chunk.data@.len(),
        final(c).current_chunk.data@.last() == Inst::OP_POP,
{
    parse_expression(c);
    consume(c, TokenType::SemiColon, "Expect ';' at end of statement.");
    emit(c, Inst::OP_POP);
}

/// The rest of `print expression;`, `print` read.
fn parse_print_stmt(c: &mut Compiler)
    requires
        compiler_wf(*old(c)),
    ensures
        final(c).chars == old(c).chars,
        pview(*final(c)) == p_print_stmt(pview(*old(c))),
        compiler_wf(*final(c)),
        pool_grows(*old(c), *final(c)),
        code_grows(*old(c), *final(c)),
        progress(*final(c)) <= progress(*old(c)),
        final(c).current_chunk.data@.len() > old(c).current_chunk.data@.len(),
        final(c).current_chunk.data@.last() == (Inst::OP_KCALL { tp: KMethod::Print }),
{
    parse_expression(c);
    consume(c, TokenType::SemiColon, "Expect ';' at end of statement.");
    emit(c, Inst::OP_KCALL { tp: KMethod::Print });
}

} // verus!
