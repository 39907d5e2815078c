use vstd::prelude::*;
use crate::chunk::Chunk;
use crate::compiler::{program_code, Compiler};
use crate::debug::disassemble_chunk;
use crate::parser::pview;
use crate::vm::{exec, initial_state, lemma_run_reports, strings_view, InterpretResult, VM};

verus! {

/// Compiles source text and runs it on a fresh machine.
pub struct Driver {
    pub debug_mode: bool,
}

/// What interpreting a source gave: the result, the compiled chunk, the lines
/// that `print` wrote, the error reports, and with debugging on, the trace.
pub struct Outcome {
    pub result: InterpretResult,
    pub chunk: Chunk,
    pub output: Vec<String>,
    pub diagnostics: Vec<String>,
    pub trace: Vec<String>,
}

impl Driver {
    pub fn new() -> (r: Driver)
        ensures
            !r.debug_mode,
    {
        Driver { debug_mode: false }
    }

    /// Turns tracing on.
    pub fn debug(&mut self)
        ensures
            final(self).debug_mode,
    {
        self.debug_mode = true;
    }

    /// Turns tracing off.
    pub fn no_debug(&mut self)
        ensures
            !final(self).debug_mode,
    {
        self.debug_mode = false;
    }

    /// Compiles `source` as `program_code` describes. Where that reports an
    /// error, the result is `CompileError` with that one report and nothing
    /// runs. Otherwise the chunk holds the program's code, and the result, the
    /// printed lines and the runtime error reports are those of running it from
    /// its first instruction on an empty machine. Tracing changes none of these.
    pub fn interpret(&self, source: String) -> (r: Outcome)
        ensures
            (r.result == InterpretResult::CompileError) <==> program_code(source@).diags.len() > 0,
            program_code(source@).diags.len() > 0 ==> r.output@.len() == 0
                && strings_view(r.diagnostics@) == program_code(source@).diags,
            program_code(source@).diags.len() == 0 ==> {
                let p = program_code(source@);
                let (res, st) = exec(p.code, p.pool, p.lines, 0, initial_state());
                &&& r.chunk.data@ == p.code
                &&& r.chunk.value_array@ == p.pool
                &&& r.chunk.lines@ == p.lines
                &&& r.result == res
                &&& strings_view(r.output@) == st.output
                &&& strings_view(r.diagnostics@) == st.diagnostics
            },
            !self.debug_mode ==> r.trace@.len() == 0,
    {
        let mut compiler = Compiler::new(source);
        let ok = compiler.compile();
        assert(pview(compiler).diags.len() == compiler.diagnostics@.len());
        if !ok {
            return Outcome {
                result: InterpretResult::CompileError,
                chunk: compiler.current_chunk,
                output: Vec::new(),
                diagnostics: compiler.diagnostics,
                trace: Vec::new(),
            };
        }
        let mut vm = VM::new(compiler.current_chunk);
        if self.debug_mode {
            vm.trace = disassemble_chunk(&vm.chunk, "code");
            vm.trace_on();
        }
        let ghost code = vm.chunk.data@;
        let ghost pool = vm.chunk.value_array@;
        let ghost lines = vm.chunk.lines@;
        let result = vm.run();
        proof { lemma_run_reports(code, pool, lines, 0, initial_state()); }
        Outcome { result, chunk: vm.chunk, output: vm.output, diagnostics: vm.diagnostics, trace: vm.trace }
    }
}

} // verus!
