use vstd::prelude::*;
use crate::compiler::Compiler;
use crate::span::Span;
use crate::text::push_char;

verus! {

#[derive(Clone, Copy, Debug, PartialEq, Eq, Hash, Structural)]
pub enum TokenType {
    LeftParen, RightParen,
    LeftBrace, RightBrace,
    Comma, Dot, Minus, Plus,
    SemiColon, Slash, Star,

    Bang, BangEqual,
    Equal, EqualEqual,
    Greater, GreaterEqual,
    Less, LessEqual,

    Identifier, String, Number,

    And, Class, Else, False,
    For, Fun, If, Nil, Or,
    Print, Return, Super, This,
    True, Var, While,

    Error, EOF,
}

/// A token: its kind, where it stands, its text (for an `Error` token, the
/// message) and the line it ends on.
#[derive(Debug)]
pub struct Token {
    pub tp: TokenType,
    pub span: Span,
    pub content: String,
    pub line: usize,
}

/// Where the scanner stands: the first character of the token being read,
/// the next character to read and the current line.
#[derive(Debug)]
pub struct ScannerState {
    pub start: usize,
    pub current: usize,
    pub line: usize,
}

/// `line + n`, held at `usize::MAX`.
pub open spec fn sat_add(line: int, n: int) -> int {
    if line + n <= usize::MAX { line + n } else { usize::MAX as int }
}

/// The index of the first line break at or after `pos`, or the end.
pub open spec fn line_end(s: Seq<char>, pos: int) -> int
    decreases s.len() - pos,
{
    if pos < 0 || pos >= s.len() || s[pos] == '\n' { pos } else { line_end(s, pos + 1) }
}

/// Position and line after the blanks, line breaks and `//` comments that
/// start at `pos`.
pub open spec fn skip_ws(s: Seq<char>, pos: int, line: int) -> (int, int)
    decreases s.len() - pos,
{
    if pos < 0 || pos >= s.len() {
        (pos, line)
    } else if s[pos] == ' ' || s[pos] == '\r' || s[pos] == '\t' {
        skip_ws(s, pos + 1, line)
    } else if s[pos] == '\n' {
        skip_ws(s, pos + 1, sat_add(line, 1))
    } else if s[pos] == '/' && pos + 1 < s.len() && s[pos + 1] == '/' {
        if pos < line_end(s, pos) <= s.len() { skip_ws(s, line_end(s, pos), line) } else { (pos, line) }
    } else {
        (pos, line)
    }
}

pub open spec fn is_digit(c: char) -> bool {
    '0' <= c && c <= '9'
}

pub open spec fn is_alpha_underscore(c: char) -> bool {
    ('a' <= c && c <= 'z') || ('A' <= c && c <= 'Z') || c == '_'
}

/// The end of the run of digits that starts at `pos`.
pub open spec fn digits_end(s: Seq<char>, pos: int) -> int
    decreases s.len() - pos,
{
    if 0 <= pos < s.len() && is_digit(s[pos]) { digits_end(s, pos + 1) } else { pos }
}

/// The end of the run of letters and underscores that starts at `pos`.
pub open spec fn word_end(s: Seq<char>, pos: int) -> int
    decreases s.len() - pos,
{
    if 0 <= pos < s.len() && is_alpha_underscore(s[pos]) { word_end(s, pos + 1) } else { pos }
}

/// The index of the first `"` at or after `pos`, or the end.
pub open spec fn quote_end(s: Seq<char>, pos: int) -> int
    decreases s.len() - pos,
{
    if pos < 0 || pos >= s.len() || s[pos] == '"' { pos } else { quote_end(s, pos + 1) }
}

/// The number of line breaks in `s[a..b]`.
pub open spec fn newlines(s: Seq<char>, a: int, b: int) -> int
    decreases b - a,
{
    if a >= b { 0 } else { newlines(s, a, b - 1) + if s[b - 1] == '\n' { 1int } else { 0 } }
}

/// The kind of a word: a keyword, or an identifier.
pub open spec fn keyword_kind(w: Seq<char>) -> TokenType {
    if w == "and"@ { TokenType::And }
    else if w == "class"@ { TokenType::Class }
    else if w == "else"@ { TokenType::Else }
    else if w == "false"@ { TokenType::False }
    else if w == "for"@ { TokenType::For }
    else if w == "fun"@ { TokenType::Fun }
    else if w == "if"@ { TokenType::If }
    else if w == "nil"@ { TokenType::Nil }
    else if w == "or"@ { TokenType::Or }
    else if w == "print"@ { TokenType::Print }
    else if w == "return"@ { TokenType::Return }
    else if w == "super"@ { TokenType::Super }
    else if w == "this"@ { TokenType::This }
    else if w == "true"@ { TokenType::True }
    else if w == "var"@ { TokenType::Var }
    else if w == "while"@ { TokenType::While }
    else { TokenType::Identifier }
}

pub open spec fn single_kind(c: char) -> Option<TokenType> {
    if c == '(' { Some(TokenType::LeftParen) }
    else if c == ')' { Some(TokenType::RightParen) }
    else if c == '{' { Some(TokenType::LeftBrace) }
    else if c == '}' { Some(TokenType::RightBrace) }
    else if c == ';' { Some(TokenType::SemiColon) }
    else if c == ',' { Some(TokenType::Comma) }
    else if c == '.' { Some(TokenType::Dot) }
    else if c == '-' { Some(TokenType::Minus) }
    else if c == '+' { Some(TokenType::Plus) }
    else if c == '/' { Some(TokenType::Slash) }
    else if c == '*' { Some(TokenType::Star) }
    else { None }
}

/// For a character that may be followed by `=`: the kind alone and the kind
/// of the pair.
pub open spec fn pair_kinds(c: char) -> Option<(TokenType, TokenType)> {
    if c == '!' { Some((TokenType::Bang, TokenType::BangEqual)) }
    else if c == '=' { Some((TokenType::Equal, TokenType::EqualEqual)) }
    else if c == '>' { Some((TokenType::Greater, TokenType::GreaterEqual)) }
    else if c == '<' { Some((TokenType::Less, TokenType::LessEqual)) }
    else { None }
}

/// The kind and the end of the token that starts at `p` (after the blanks).
/// A string that is not closed ends at the end of the source.
pub open spec fn lex(s: Seq<char>, p: int) -> (TokenType, int) {
    if p < 0 || p >= s.len() {
        (TokenType::EOF, p)
    } else {
        let c = s[p];
        if single_kind(c) is Some {
            (single_kind(c)->0, p + 1)
        } else if pair_kinds(c) is Some {
            let (one, two) = pair_kinds(c)->0;
            if p + 1 < s.len() && s[p + 1] == '=' {
                (two, p + 2)
            } else {
                (one, p + 1)
            }
        } else if c == '"' {
            let q = quote_end(s, p + 1);
            if q >= s.len() { (TokenType::Error, q) } else { (TokenType::String, q + 1) }
        } else if is_digit(c) {
            let a = digits_end(s, p);
            if a < s.len() && s[a] == '.' { (TokenType::Number, digits_end(s, a + 1)) } else { (TokenType::Number, a) }
        } else if is_alpha_underscore(c) {
            let e = word_end(s, p);
            (keyword_kind(s.subrange(p, e)), e)
        } else {
            (TokenType::Error, p + 1)
        }
    }
}

/// The message of an `Error` token that starts at `p`.
pub open spec fn error_message(s: Seq<char>, p: int) -> Seq<char> {
    if s[p] == '"' {
        "Non-terminated string literal"@
    } else {
        "Fail to tokenize at character '"@ + seq![s[p]] + "'"@
    }
}

/// The scanner is within the source.
pub open spec fn scanner_wf(st: &ScannerState, len: int) -> bool {
    st.start <= st.current <= len
}

/// The token that scanning `s` from `st` yields and the state after it.
pub open spec fn scanned(s: Seq<char>, st: &ScannerState, tok: Token, after: &ScannerState) -> bool {
    let (p, l) = skip_ws(s, st.current as int, st.line as int);
    let (k, e) = lex(s, p);
    &&& after.start == p
    &&& after.current == e
    &&& after.line == sat_add(l, newlines(s, p, e))
    &&& tok.tp == k
    &&& tok.line == after.line
    &&& (k != TokenType::Error ==> tok.content@ == s.subrange(p, e) && tok.span.start == p && tok.span.len == e - p)
    &&& (k == TokenType::Error ==> tok.content@ == error_message(s, p))
}


/// A token as the parser sees it: kind, line and text.
pub struct TokV {
    pub tp: TokenType,
    pub line: usize,
    pub content: Seq<char>,
}

/// A token of the source and the position after it.
pub struct Lexed {
    pub tok: TokV,
    pub end: int,
}

pub open spec fn tok_view(t: &Token) -> TokV {
    TokV { tp: t.tp, line: t.line, content: t.content@ }
}

/// The token that scanning from `pos` on line `line` yields.
pub open spec fn lex_one(s: Seq<char>, pos: int, line: int) -> Lexed {
    let (p, l) = skip_ws(s, pos, line);
    let (k, e) = lex(s, p);
    Lexed {
        tok: TokV {
            tp: k,
            line: sat_add(l, newlines(s, p, e)) as usize,
            content: if k == TokenType::Error { error_message(s, p) } else { s.subrange(p, e) },
        },
        end: e,
    }
}

/// The tokens of `s` from `pos` on, up to and including the end token.
pub open spec fn tokens_from(s: Seq<char>, pos: int, line: int) -> Seq<Lexed>
    decreases s.len() - pos,
{
    let x = lex_one(s, pos, line);
    if x.tok.tp == TokenType::EOF || !(0 <= pos < x.end <= s.len()) {
        seq![x]
    } else {
        seq![x] + tokens_from(s, x.end, x.tok.line as int)
    }
}

/// Scanning one token takes the first of the remaining tokens; the end token
/// stays.
pub proof fn lemma_scan_step(s: Seq<char>, old_st: &ScannerState, tok: Token, new_st: &ScannerState)
    requires
        scanner_wf(old_st, s.len() as int),
        scanner_wf(new_st, s.len() as int),
        scanned(s, old_st, tok, new_st),
        old_st.current <= new_st.current,
        tok.tp != TokenType::EOF ==> old_st.current < new_st.current,
    ensures
        tokens_from(s, old_st.current as int, old_st.line as int).len() > 0,
        tokens_from(s, old_st.current as int, old_st.line as int)[0].tok == tok_view(&tok),
        tokens_from(s, old_st.current as int, old_st.line as int)[0].end == new_st.current,
        tok.tp != TokenType::EOF ==> tokens_from(s, new_st.current as int, new_st.line as int)
            == tokens_from(s, old_st.current as int, old_st.line as int).drop_first(),
        tok.tp == TokenType::EOF ==> tokens_from(s, new_st.current as int, new_st.line as int)
            == tokens_from(s, old_st.current as int, old_st.line as int),
{
    let pos = old_st.current as int;
    let line = old_st.line as int;
    lemma_skip_ws_bounds(s, pos, line);
    let x = lex_one(s, pos, line);
    assert(x.tok == tok_view(&tok));
    let r = tokens_from(s, pos, line);
    if tok.tp != TokenType::EOF {
        assert(r == seq![x] + tokens_from(s, x.end, x.tok.line as int));
        assert(r.drop_first() =~= tokens_from(s, x.end, x.tok.line as int));
    } else {
        let (p, l) = skip_ws(s, pos, line);
        assert(newlines(s, p, p) == 0);
        assert(skip_ws(s, p, l) == (p, l));
        assert(lex_one(s, new_st.current as int, new_st.line as int) == x);
    }
}

proof fn lemma_skip_ws_bounds(s: Seq<char>, pos: int, line: int)
    requires
        0 <= pos <= s.len(),
        0 <= line <= usize::MAX,
    ensures
        pos <= skip_ws(s, pos, line).0 <= s.len(),
        line <= skip_ws(s, pos, line).1 <= usize::MAX,
        skip_ws(s, pos, line).0 < s.len() ==> s[skip_ws(s, pos, line).0] != '\n',
    decreases s.len() - pos,
{
    if pos < s.len() {
        if s[pos] == ' ' || s[pos] == '\r' || s[pos] == '\t' {
            lemma_skip_ws_bounds(s, pos + 1, line);
        } else if s[pos] == '\n' {
            lemma_skip_ws_bounds(s, pos + 1, sat_add(line, 1));
        } else if s[pos] == '/' && pos + 1 < s.len() && s[pos + 1] == '/' {
            lemma_line_end_bounds(s, pos);
            if pos < line_end(s, pos) <= s.len() {
                lemma_skip_ws_bounds(s, line_end(s, pos), line);
            }
        }
    }
}

proof fn lemma_line_end_bounds(s: Seq<char>, pos: int)
    requires
        0 <= pos <= s.len(),
    ensures
        pos <= line_end(s, pos) <= s.len(),
    decreases s.len() - pos,
{
    if pos < s.len() && s[pos] != '\n' {
        lemma_line_end_bounds(s, pos + 1);
    }
}

proof fn lemma_digits_end_bounds(s: Seq<char>, pos: int)
    requires
        0 <= pos <= s.len(),
    ensures
        pos <= digits_end(s, pos) <= s.len(),
    decreases s.len() - pos,
{
    if pos < s.len() && is_digit(s[pos]) {
        lemma_digits_end_bounds(s, pos + 1);
    }
}

proof fn lemma_word_end_bounds(s: Seq<char>, pos: int)
    requires
        0 <= pos <= s.len(),
    ensures
        pos <= word_end(s, pos) <= s.len(),
    decreases s.len() - pos,
{
    if pos < s.len() && is_alpha_underscore(s[pos]) {
        lemma_word_end_bounds(s, pos + 1);
    }
}

proof fn lemma_quote_end_bounds(s: Seq<char>, pos: int)
    requires
        0 <= pos <= s.len(),
    ensures
        pos <= quote_end(s, pos) <= s.len(),
    decreases s.len() - pos,
{
    if pos < s.len() && s[pos] != '"' {
        lemma_quote_end_bounds(s, pos + 1);
    }
}

fn char_is_digit(c: char) -> (r: bool)
    ensures
        r == is_digit(c),
{
    '0' <= c && c <= '9'
}

fn char_is_alpha_underscore(c: char) -> (r: bool)
    ensures
        r == is_alpha_underscore(c),
{
    ('a' <= c && c <= 'z') || ('A' <= c && c <= 'Z') || c == '_'
}

/// Moves past blanks, line breaks and `//` comments, counting lines.
fn skip_whitespaces(src: &Vec<char>, st: &mut ScannerState)
    requires
        old(st).current <= src@.len(),
    ensures
        (final(st).current as int, final(st).line as int) == skip_ws(src@, old(st).current as int, old(st).line as int),
        final(st).start == old(st).start,
{
    let ghost s = src@;
    let ghost goal = skip_ws(s, st.current as int, st.line as int);
    let n = src.len();
    while st.current < n
        invariant
            s == src@,
            n == s.len(),
            st.current <= n,
            st.start == old(st).start,
            goal == skip_ws(s, old(st).current as int, old(st).line as int),
            skip_ws(s, st.current as int, st.line as int) == goal,
        ensures
            (st.current as int, st.line as int) == goal,
            st.start == old(st).start,
        decreases n - st.current,
    {
        let c = src[st.current];
        if c == ' ' || c == '\r' || c == '\t' {
            st.current = st.current + 1;
        } else if c == '\n' {
            st.current = st.current + 1;
            if st.line < usize::MAX {
                st.line = st.line + 1;
            }
        } else if c == '/' && st.current + 1 < n && src[st.current + 1] == '/' {
            let ghost start = st.current as int;
            let mut i = st.current;
            while i < n && src[i] != '\n'
                invariant
                    s == src@,
                    n == s.len(),
                    start <= i <= n,
                    line_end(s, i as int) == line_end(s, start),
                decreases n - i,
            {
                i = i + 1;
            }
            st.current = i;
        } else {
            break;
        }
    }
}

/// The characters `src[a..b]` as a string.
fn slice_text(src: &Vec<char>, a: usize, b: usize) -> (r: String)
    requires
        a <= b <= src@.len(),
    ensures
        r@ == src@.subrange(a as int, b as int),
{
    let mut r = String::new();
    let mut i = a;
    while i < b
        invariant
            a <= i <= b,
            b <= src@.len(),
            r@ == src@.subrange(a as int, i as int),
        decreases b - i,
    {
        push_char(&mut r, src[i]);
        i = i + 1;
        assert(r@ =~= src@.subrange(a as int, i as int));
    }
    r
}

/// A token of kind `tp` over `src[start..current]`.
fn make_token(src: &Vec<char>, st: &ScannerState, tp: TokenType) -> (tok: Token)
    requires
        st.start <= st.current <= src@.len(),
    ensures
        tok.tp == tp,
        tok.line == st.line,
        tok.content@ == src@.subrange(st.start as int, st.current as int),
        tok.span.start == st.start,
        tok.span.len == st.current - st.start,
{
    Token {
        tp,
        span: Span::new(st.start, st.current - st.start),
        content: slice_text(src, st.start, st.current),
        line: st.line,
    }
}

fn error_token(st: &ScannerState, msg: String) -> (tok: Token)
    ensures
        tok.tp == TokenType::Error,
        tok.line == st.line,
        tok.content@ == msg@,
{
    Token { tp: TokenType::Error, span: Span::new(0, 0), content: msg, line: st.line }
}

/// The kind of the word `w`.
pub fn keyword_or_identifier(w: &String) -> (r: TokenType)
    ensures
        r == keyword_kind(w@),
{
    if *w == String::from_str("and") { TokenType::And }
    else if *w == String::from_str("class") { TokenType::Class }
    else if *w == String::from_str("else") { TokenType::Else }
    else if *w == String::from_str("false") { TokenType::False }
    else if *w == String::from_str("for") { TokenType::For }
    else if *w == String::from_str("fun") { TokenType::Fun }
    else if *w == String::from_str("if") { TokenType::If }
    else if *w == String::from_str("nil") { TokenType::Nil }
    else if *w == String::from_str("or") { TokenType::Or }
    else if *w == String::from_str("print") { TokenType::Print }
    else if *w == String::from_str("return") { TokenType::Return }
    else if *w == String::from_str("super") { TokenType::Super }
    else if *w == String::from_str("this") { TokenType::This }
    else if *w == String::from_str("true") { TokenType::True }
    else if *w == String::from_str("var") { TokenType::Var }
    else if *w == String::from_str("while") { TokenType::While }
    else { TokenType::Identifier }
}

fn single_token_kind(c: char) -> (r: Option<TokenType>)
    ensures
        r == single_kind(c),
{
    if c == '(' { Some(TokenType::LeftParen) }
    else if c == ')' { Some(TokenType::RightParen) }
    else if c == '{' { Some(TokenType::LeftBrace) }
    else if c == '}' { Some(TokenType::RightBrace) }
    else if c == ';' { Some(TokenType::SemiColon) }
    else if c == ',' { Some(TokenType::Comma) }
    else if c == '.' { Some(TokenType::Dot) }
    else if c == '-' { Some(TokenType::Minus) }
    else if c == '+' { Some(TokenType::Plus) }
    else if c == '/' { Some(TokenType::Slash) }
    else if c == '*' { Some(TokenType::Star) }
    else { None }
}

fn pair_token_kinds(c: char) -> (r: Option<(TokenType, TokenType)>)
    ensures
        r == pair_kinds(c),
{
    if c == '!' { Some((TokenType::Bang, TokenType::BangEqual)) }
    else if c == '=' { Some((TokenType::Equal, TokenType::EqualEqual)) }
    else if c == '>' { Some((TokenType::Greater, TokenType::GreaterEqual)) }
    else if c == '<' { Some((TokenType::Less, TokenType::LessEqual)) }
    else { None }
}

/// Reads a string literal whose opening quote is at `start`; the line count
/// takes in the line breaks inside it.
fn scan_string(src: &Vec<char>, st: &mut ScannerState) -> (tok: Token)
    requires
        old(st).start < old(st).current <= src@.len(),
        old(st).current == old(st).start + 1,
        src@[old(st).start as int] == '"',
    ensures
        final(st).start == old(st).start,
        final(st).current == lex(src@, old(st).start as int).1,
        final(st).line == sat_add(old(st).line as int, newlines(src@, old(st).start as int, final(st).current as int)),
        tok.tp == lex(src@, old(st).start as int).0,
        tok.line == final(st).line,
        tok.tp != TokenType::Error ==> tok.content@ == src@.subrange(old(st).start as int, final(st).current as int)
            && tok.span.start == final(st).start && tok.span.len == final(st).current - final(st).start,
        tok.tp == TokenType::Error ==> tok.content@ == error_message(src@, old(st).start as int),
{
    let ghost s = src@;
    let ghost p = st.start as int;
    let n = src.len();
    assert(newlines(s, p, p) == 0);
    assert(newlines(s, p, p + 1) == 0);
    while st.current < n && src[st.current] != '"'
        invariant
            s == src@,
            n == s.len(),
            p + 1 <= st.current <= n,
            st.start == p,
            quote_end(s, st.current as int) == quote_end(s, p + 1),
            st.line == sat_add(old(st).line as int, newlines(s, p, st.current as int)),
        decreases n - st.current,
    {
        if src[st.current] == '\n' && st.line < usize::MAX {
            st.line = st.line + 1;
        }
        st.current = st.current + 1;
    }
    if st.current >= n {
        error_token(st, String::from_str("Non-terminated string literal"))
    } else {
        st.current = st.current + 1;
        assert(newlines(s, p, st.current as int) == newlines(s, p, st.current - 1));
        make_token(src, st, TokenType::String)
    }
}

/// The end of the run of digits from `i`.
fn scan_digits(src: &Vec<char>, i: usize) -> (r: usize)
    requires
        i <= src@.len(),
    ensures
        r == digits_end(src@, i as int),
{
    let mut j = i;
    while j < src.len() && char_is_digit(src[j])
        invariant
            i <= j <= src@.len(),
            digits_end(src@, j as int) == digits_end(src@, i as int),
        decreases src@.len() - j,
    {
        j = j + 1;
    }
    j
}

/// The end of the run of letters and underscores from `i`.
fn scan_word(src: &Vec<char>, i: usize) -> (r: usize)
    requires
        i <= src@.len(),
    ensures
        r == word_end(src@, i as int),
{
    let mut j = i;
    while j < src.len() && char_is_alpha_underscore(src[j])
        invariant
            i <= j <= src@.len(),
            word_end(src@, j as int) == word_end(src@, i as int),
        decreases src@.len() - j,
    {
        j = j + 1;
    }
    j
}

/// Reads the next token of `src` and moves past it.
pub fn scan_token(src: &Vec<char>, st: &mut ScannerState) -> (tok: Token)
    requires
        scanner_wf(old(st), src@.len() as int),
    ensures
        scanner_wf(final(st), src@.len() as int),
        scanned(src@, old(st), tok, final(st)),
        old(st).current <= final(st).current,
        tok.tp != TokenType::EOF ==> old(st).current < final(st).current,
{
    let ghost s = src@;
    proof { lemma_skip_ws_bounds(s, st.current as int, st.line as int); }
    skip_whitespaces(src, st);
    st.start = st.current;
    let ghost p = st.start as int;
    let ghost l = st.line as int;
    let n = src.len();
    if st.current >= n {
        return make_token(src, st, TokenType::EOF);
    }
    let c = src[st.current];
    st.current = st.current + 1;
    if let Some(k) = single_token_kind(c) {
        proof { lemma_no_newlines_prefix(s, p, p + 1); }
        return make_token(src, st, k);
    }
    if let Some((one, two)) = pair_token_kinds(c) {
        if st.current < n && src[st.current] == '=' {
            st.current = st.current + 1;
            proof { lemma_no_newlines_prefix(s, p, p + 2); }
            return make_token(src, st, two);
        }
        proof { lemma_no_newlines_prefix(s, p, p + 1); }
        return make_token(src, st, one);
    }
    if c == '"' {
        proof { lemma_quote_end_bounds(s, p + 1); }
        return scan_string(src, st);
    }
    if char_is_digit(c) {
        proof {
            lemma_digits_end_bounds(s, p + 1);
            assert(digits_end(s, p) == digits_end(s, p + 1));
        }
        let a = scan_digits(src, st.start);
        if a < n && src[a] == '.' {
            proof { lemma_digits_end_bounds(s, a + 1); }
            st.current = scan_digits(src, a + 1);
        } else {
            st.current = a;
        }
        proof { lemma_no_newlines_in_digits(s, p); }
        return make_token(src, st, TokenType::Number);
    }
    if char_is_alpha_underscore(c) {
        proof {
            lemma_word_end_bounds(s, p + 1);
            assert(word_end(s, p) == word_end(s, p + 1));
            lemma_no_newlines_in_word(s, p);
        }
        st.current = scan_word(src, st.start);
        let w = slice_text(src, st.start, st.current);
        let k = keyword_or_identifier(&w);
        return make_token(src, st, k);
    }
    let mut msg = String::from_str("Fail to tokenize at character '");
    push_char(&mut msg, c);
    crate::text::push_str(&mut msg, "'");
    assert(msg@ =~= error_message(s, p));
    proof { lemma_no_newlines_prefix(s, p, p + 1); }
    error_token(st, msg)
}

proof fn lemma_no_newlines_prefix(s: Seq<char>, a: int, b: int)
    requires
        0 <= a <= b <= s.len(),
        forall|i: int| a <= i < b ==> s[i] != '\n',
    ensures
        newlines(s, a, b) == 0,
    decreases b - a,
{
    if a < b {
        lemma_no_newlines_prefix(s, a, b - 1);
    }
}

proof fn lemma_digits_no_newline(s: Seq<char>, pos: int)
    requires
        0 <= pos <= s.len(),
    ensures
        forall|i: int| pos <= i < digits_end(s, pos) ==> is_digit(#[trigger] s[i]),
    decreases s.len() - pos,
{
    if pos < s.len() && is_digit(s[pos]) {
        lemma_digits_no_newline(s, pos + 1);
    }
}

proof fn lemma_no_newlines_in_digits(s: Seq<char>, p: int)
    requires
        0 <= p < s.len(),
        is_digit(s[p]),
    ensures
        newlines(s, p, lex(s, p).1) == 0,
{
    lemma_digits_end_bounds(s, p);
    lemma_digits_no_newline(s, p);
    let a = digits_end(s, p);
    if a < s.len() && s[a] == '.' {
        lemma_digits_end_bounds(s, a + 1);
        lemma_digits_no_newline(s, a + 1);
        assert forall|i: int| p <= i < digits_end(s, a + 1) implies s[i] != '\n' by {
            if i < a {
            } else if i == a {
            } else {
            }
        }
        lemma_no_newlines_prefix(s, p, digits_end(s, a + 1));
    } else {
        lemma_no_newlines_prefix(s, p, a);
    }
}

proof fn lemma_word_chars(s: Seq<char>, pos: int)
    requires
        0 <= pos <= s.len(),
    ensures
        forall|i: int| pos <= i < word_end(s, pos) ==> is_alpha_underscore(#[trigger] s[i]),
    decreases s.len() - pos,
{
    if pos < s.len() && is_alpha_underscore(s[pos]) {
        lemma_word_chars(s, pos + 1);
    }
}

proof fn lemma_no_newlines_in_word(s: Seq<char>, p: int)
    requires
        0 <= p < s.len(),
    ensures
        newlines(s, p, word_end(s, p)) == 0,
{
    lemma_word_end_bounds(s, p);
    lemma_word_chars(s, p);
    lemma_no_newlines_prefix(s, p, word_end(s, p));
}

/// The compiler's next token.
pub fn next_token(compiler: &mut Compiler) -> (tok: Token)
    requires
        scanner_wf(&old(compiler).scanner, old(compiler).chars@.len() as int),
    ensures
        scanner_wf(&final(compiler).scanner, final(compiler).chars@.len() as int),
        scanned(old(compiler).chars@, &old(compiler).scanner, tok, &final(compiler).scanner),
        final(compiler).chars == old(compiler).chars,
        final(compiler).source == old(compiler).source,
        final(compiler).parser == old(compiler).parser,
        final(compiler).current_chunk == old(compiler).current_chunk,
        final(compiler).diagnostics == old(compiler).diagnostics,
        old(compiler).scanner.current <= final(compiler).scanner.current,
        tok.tp != TokenType::EOF ==> old(compiler).scanner.current < final(compiler).scanner.current,
{
    scan_token(&compiler.chars, &mut compiler.scanner)
}


/// How a token is shown in a token listing.
pub open spec fn token_text(tp: TokenType, content: Seq<char>) -> Seq<char> {
    if tp == TokenType::Error {
        "<error: "@ + content + ">"@
    } else if tp == TokenType::EOF {
        "<eof>"@
    } else if tp == TokenType::Identifier {
        "@"@ + content
    } else {
        content
    }
}

impl Token {
    pub fn show(&self) -> (r: String)
        ensures
            r@ == token_text(self.tp, self.content@),
    {
        match self.tp {
            TokenType::Error => {
                let mut s = String::from_str("<error: ");
                crate::text::push_str(&mut s, self.content.as_str());
                crate::text::push_str(&mut s, ">");
                s
            },
            TokenType::EOF => String::from_str("<eof>"),
            TokenType::Identifier => {
                let mut s = String::from_str("@");
                crate::text::push_str(&mut s, self.content.as_str());
                s
            },
            _ => String::from_str(self.content.as_str()),
        }
    }
}

impl ScannerState {
    pub fn new() -> (r: ScannerState)
        ensures
            r.start == 0,
            r.current == 0,
            r.line == 1,
    {
        ScannerState { start: 0, current: 0, line: 1 }
    }
}

} // verus!
