use vstd::prelude::*;
use crate::chunk::{inst_refs_ok, Chunk, Inst};
use crate::parser::{advance, p_decls, p_program, parse_decl, pview, smaller, s_advance, table_wf, try_consume, ParserState, PS};
use crate::scanner::{tokens_from, TokV};
use crate::value::SValue;
use crate::scanner::{next_token, scanned, scanner_wf, ScannerState, Token, TokenType};

verus! {

/// A single-pass compiler: it reads tokens from the source and writes
/// instructions into `current_chunk` as it parses. Error reports are kept in
/// `diagnostics`.
pub struct Compiler {
    pub source: String,
    pub chars: Vec<char>,
    pub scanner: ScannerState,
    pub parser: ParserState,
    pub current_chunk: Chunk,
    pub diagnostics: Vec<String>,
}

/// What is left to read: the characters after the scanner, and the current
/// token unless it is the end.
pub open spec fn progress(c: Compiler) -> int {
    (c.chars@.len() - c.scanner.current) + if c.parser.current.tp != TokenType::EOF { 1int } else { 0 }
}

/// The constant pool of `b` extends that of `a`.
pub open spec fn pool_grows(a: Compiler, b: Compiler) -> bool {
    &&& a.current_chunk.value_array@.len() <= b.current_chunk.value_array@.len()
    &&& forall|i: int| 0 <= i < a.current_chunk.value_array@.len()
        ==> #[trigger] b.current_chunk.value_array@[i] == a.current_chunk.value_array@[i]
}

/// The instructions of `b` start with those of `a`, line for line.
pub open spec fn code_grows(a: Compiler, b: Compiler) -> bool {
    &&& a.current_chunk.data@.len() <= b.current_chunk.data@.len()
    &&& forall|i: int| 0 <= i < a.current_chunk.data@.len()
        ==> #[trigger] b.current_chunk.data@[i] == a.current_chunk.data@[i]
    &&& forall|i: int| 0 <= i < a.current_chunk.data@.len()
        ==> #[trigger] b.current_chunk.lines@[i] == a.current_chunk.lines@[i]
}

/// The parser before the first token of `src`.
pub open spec fn init_state(src: Seq<char>) -> PS {
    let empty = TokV { tp: TokenType::Error, line: 0, content: "EMPTY TOKEN"@ };
    PS {
        pos: 0,
        len: src.len() as int,
        rest: tokens_from(src, 0, 1),
        cur: empty,
        prev: empty,
        code: Seq::empty(),
        lines: Seq::empty(),
        pool: Seq::<SValue>::empty(),
        diags: Seq::empty(),
    }
}

/// What compiling `src` gives: its code, line table and constants, and its
/// error report if it has one. The code is that of the grammar's declarations
/// followed by `RETURN`.
pub open spec fn program_code(src: Seq<char>) -> PS {
    p_program(init_state(src))
}

/// The scanner is within the source, the chunk is consistent, and at most one
/// error has been reported: exactly when `had_error` and `panic_mode` are set.
pub open spec fn compiler_wf(c: Compiler) -> bool {
    &&& scanner_wf(&c.scanner, c.chars@.len() as int)
    &&& c.current_chunk.wf()
    &&& c.current_chunk.refs_ok()
    &&& c.diagnostics@.len() <= 1
    &&& c.parser.had_error == (c.diagnostics@.len() == 1)
    &&& c.parser.panic_mode == c.parser.had_error
    &&& table_wf(c.parser.parsing_table@)
}


/// The characters of `s`.
fn chars_of(s: &str) -> (r: Vec<char>)
    ensures
        r@ == s@,
{
    let n = s.unicode_len();
    let mut r: Vec<char> = Vec::new();
    let mut i: usize = 0;
    while i < n
        invariant
            n == s@.len(),
            i <= n,
            r@ == s@.subrange(0, i as int),
        decreases n - i,
    {
        r.push(s.get_char(i));
        i = i + 1;
        assert(r@ =~= s@.subrange(0, i as int));
    }
    assert(r@ =~= s@);
    r
}

impl Compiler {
    /// A compiler at the start of `source`, with an empty chunk.
    pub fn new(source: String) -> (r: Compiler)
        ensures
            compiler_wf(r),
            r.chars@ == source@,
            r.source@ == source@,
            pview(r) == init_state(source@),
            r.scanner.current == 0,
            r.scanner.line == 1,
            r.current_chunk.data@.len() == 0,
            r.current_chunk.value_array@.len() == 0,
            r.diagnostics@.len() == 0,
            !r.parser.had_error,
    {
        let chars = chars_of(source.as_str());
        let r = Compiler {
            source,
            chars,
            scanner: ScannerState::new(),
            parser: ParserState::new(),
            current_chunk: Chunk::new(),
            diagnostics: Vec::new(),
        };
        assert(pview(r).code =~= Seq::<Inst>::empty());
        assert(pview(r).lines =~= Seq::<usize>::empty());
        assert(pview(r).pool =~= Seq::<SValue>::empty());
        assert(pview(r).diags =~= Seq::<Seq<char>>::empty());
        r
    }

    /// Compiles the whole source into `current_chunk`, ending it with a
    /// `RETURN`. Succeeds exactly when no error was found; after a failure
    /// exactly one error report stands in `diagnostics`, the first one.
    #[verifier::rlimit(50)]
    pub fn compile(&mut self) -> (r: bool)
        requires
            compiler_wf(*old(self)),
            old(self).diagnostics@.len() == 0,
        ensures
            compiler_wf(*final(self)),
            final(self).chars == old(self).chars,
            pview(*final(self)) == p_program(pview(*old(self))),
            r == !final(self).parser.had_error,
            r <==> final(self).diagnostics@.len() == 0,
            !r <==> final(self).diagnostics@.len() == 1,
            final(self).current_chunk.data@.len() > 0,
            final(self).current_chunk.data@.last() == Inst::RETURN,
    {
        advance(self);
        let ghost goal = p_decls(pview(*self));
        loop
            invariant_except_break
                p_decls(pview(*self)) == goal,
            invariant
                compiler_wf(*self),
                self.chars == old(self).chars,
                self.diagnostics@.len() <= 1,
                goal == p_decls(s_advance(pview(*old(self)))),
            ensures
                compiler_wf(*self),
                self.chars == old(self).chars,
                pview(*self) == goal,
            decreases progress(*self),
        {
            let ghost v0 = pview(*self);
            if try_consume(self, TokenType::EOF) {
                assert(p_decls(v0) == pview(*self));
                break;
            }
            parse_decl(self);
            assert(smaller(pview(*self), v0));
            assert(p_decls(v0) == p_decls(pview(*self)));
        }
        self.emit_inst(Inst::RETURN);
        !self.parser.had_error
    }

    /// The next token of the source.
    pub fn next_token(&mut self) -> (tok: Token)
        requires
            scanner_wf(&old(self).scanner, old(self).chars@.len() as int),
        ensures
            scanner_wf(&final(self).scanner, final(self).chars@.len() as int),
            scanned(old(self).chars@, &old(self).scanner, tok, &final(self).scanner),
    {
        next_token(self)
    }

    /// Appends `inst`, tagged with the line of the previous token.
    pub fn emit_inst(&mut self, inst: Inst)
        requires
            compiler_wf(*old(self)),
            inst_refs_ok(inst, old(self).current_chunk.value_array@),
        ensures
            compiler_wf(*final(self)),
            final(self).current_chunk.data@ == old(self).current_chunk.data@.push(inst),
            final(self).current_chunk.lines@ == old(self).current_chunk.lines@.push(old(self).parser.previous.line),
            final(self).current_chunk.value_array == old(self).current_chunk.value_array,
            final(self).diagnostics == old(self).diagnostics,
            final(self).parser.had_error == old(self).parser.had_error,
            final(self).chars == old(self).chars,
            final(self).scanner == old(self).scanner,
            final(self).parser.current == old(self).parser.current,
            final(self).parser.previous == old(self).parser.previous,
    {
        let line = self.parser.previous.line;
        self.current_chunk.write(inst, line);
        assert(self.current_chunk.refs_ok()) by {
            assert forall|i: int| 0 <= i < self.current_chunk.data@.len() implies inst_refs_ok(#[trigger] self.current_chunk.data@[i], self.current_chunk.value_array@) by {
                if i < old(self).current_chunk.data@.len() {
                    assert(self.current_chunk.data@[i] == old(self).current_chunk.data@[i]);
                }
            }
        }
    }
}

} // verus!
