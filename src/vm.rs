use vstd::prelude::*;
use crate::chunk::{Chunk, Inst, KMethod};
use crate::number::{spec_add, spec_div, spec_is_zero, spec_mul, spec_neg, spec_num_lt, spec_sub, Num};
use crate::text::{nat_text, push_nat, push_str};
use crate::value::{print_text, values_equal, SValue, Value};
use crate::debug::{display_row, push_show, show_text};

verus! {

/// How many values the operand stack holds at most.
pub const STACK_MAX: usize = 128;

#[derive(Clone, Copy, Debug, PartialEq, Eq, Structural)]
pub enum InterpretResult {
    Success,
    CompileError,
    RuntimeError,
}

/// A global variable and its value.
#[derive(Debug)]
pub struct Global {
    pub name: String,
    pub value: Value,
}

/// The stack machine: a chunk, the index of the next instruction, the operand
/// stack and the global variables. What `print` writes is kept in `output`,
/// runtime error reports in `diagnostics`, and with tracing on, one entry per
/// executed instruction in `trace`.
#[derive(Debug)]
pub struct VM {
    pub chunk: Chunk,
    pub pc: usize,
    pub stack: Vec<Value>,
    pub globals: Vec<Global>,
    pub enable_trace: bool,
    pub output: Vec<String>,
    pub diagnostics: Vec<String>,
    pub trace: Vec<String>,
}

/// What the machine holds besides its code and its position in it.
pub struct MachineState {
    pub stack: Seq<SValue>,
    pub globals: Map<Seq<char>, SValue>,
    pub output: Seq<Seq<char>>,
    pub diagnostics: Seq<Seq<char>>,
}

/// A machine before its first instruction.
pub open spec fn initial_state() -> MachineState {
    MachineState {
        stack: Seq::empty(),
        globals: Map::empty(),
        output: Seq::empty(),
        diagnostics: Seq::empty(),
    }
}

/// The outcome of one instruction: go on in a new state, stop normally, or
/// stop with an error message.
pub enum Step {
    Next(MachineState),
    Done,
    Fail(Seq<char>),
}

pub open spec fn msg_underflow() -> Seq<char> { "Stack underflow."@ }
pub open spec fn msg_overflow() -> Seq<char> { "Stack overflow."@ }
pub open spec fn msg_number() -> Seq<char> { "Expecting operand of type number"@ }
pub open spec fn msg_bool_or_nil() -> Seq<char> { "Expecting operand of type boolean or nil"@ }
pub open spec fn msg_numbers() -> Seq<char> { "Expecting operands of type number"@ }
pub open spec fn msg_numbers_or_strings() -> Seq<char> { "Expecting operands of type number or string"@ }
pub open spec fn msg_range() -> Seq<char> { "Number out of range."@ }
pub open spec fn msg_div_zero() -> Seq<char> { "Division by zero."@ }
pub open spec fn msg_bad_constant() -> Seq<char> { "Invalid constant index."@ }
pub open spec fn msg_bad_name() -> Seq<char> { "Expecting string as variable name"@ }
pub open spec fn msg_no_return() -> Seq<char> { "Reached the end of the code without a return."@ }

pub open spec fn msg_undefined(name: Seq<char>) -> Seq<char> {
    "Undefined variable '"@ + name + "'."@
}

/// The line that follows each runtime error report.
pub open spec fn line_report(line: nat) -> Seq<char> {
    "[line "@ + nat_text(line) + "] in script"@
}

pub open spec fn number_result(n: Option<Num>) -> Result<SValue, Seq<char>> {
    match n {
        Some(x) => Ok(SValue::Number(x)),
        None => Err(msg_range()),
    }
}

/// What a unary instruction makes of its operand.
pub open spec fn unary_result(inst: Inst, a: SValue) -> Result<SValue, Seq<char>> {
    match inst {
        Inst::OP_NEGATE => match a {
            SValue::Number(x) => number_result(spec_neg(x)),
            _ => Err(msg_number()),
        },
        _ => match a {
            SValue::Bool(b) => Ok(SValue::Bool(!b)),
            SValue::Nil => Ok(SValue::Bool(true)),
            _ => Err(msg_bool_or_nil()),
        },
    }
}

pub open spec fn is_binary(inst: Inst) -> bool {
    inst is OP_ADD || inst is OP_SUB || inst is OP_MUL || inst is OP_DIV || inst is OP_EQ
        || inst is OP_GT || inst is OP_LT
}

/// What a binary instruction makes of its operands, `a` being the left
/// operand in the source (pushed first) and `b` the right one.
pub open spec fn binary_result(inst: Inst, a: SValue, b: SValue) -> Result<SValue, Seq<char>> {
    match inst {
        Inst::OP_EQ => Ok(SValue::Bool(values_equal(a, b))),
        Inst::OP_ADD => match (a, b) {
            (SValue::Number(x), SValue::Number(y)) => number_result(spec_add(x, y)),
            (SValue::Str(x), SValue::Str(y)) => Ok(SValue::Str(x + y)),
            _ => Err(msg_numbers_or_strings()),
        },
        _ => match (a, b) {
            (SValue::Number(x), SValue::Number(y)) => match inst {
                Inst::OP_SUB => number_result(spec_sub(x, y)),
                Inst::OP_MUL => number_result(spec_mul(x, y)),
                Inst::OP_DIV => if spec_is_zero(y) {
                    Err(msg_div_zero())
                } else {
                    number_result(spec_div(x, y))
                },
                Inst::OP_GT => Ok(SValue::Bool(spec_num_lt(y, x))),
                _ => Ok(SValue::Bool(spec_num_lt(x, y))),
            },
            _ => Err(msg_numbers()),
        },
    }
}

pub open spec fn with_stack(s: MachineState, st: Seq<SValue>) -> MachineState {
    MachineState { stack: st, ..s }
}

/// The effect of one instruction on a state, given the constant pool.
pub open spec fn step(inst: Inst, pool: Seq<SValue>, s: MachineState) -> Step {
    let st = s.stack;
    let n = st.len();
    match inst {
        Inst::RETURN => Step::Done,
        Inst::OP_POP => if n == 0 {
            Step::Fail(msg_underflow())
        } else {
            Step::Next(with_stack(s, st.drop_last()))
        },
        Inst::CONSTANT { idx } => if idx >= pool.len() {
            Step::Fail(msg_bad_constant())
        } else if n >= STACK_MAX {
            Step::Fail(msg_overflow())
        } else {
            Step::Next(with_stack(s, st.push(pool[idx as int])))
        },
        Inst::OP_NEGATE | Inst::OP_NOT => if n == 0 {
            Step::Fail(msg_underflow())
        } else {
            match unary_result(inst, st.last()) {
                Ok(v) => Step::Next(with_stack(s, st.drop_last().push(v))),
                Err(m) => Step::Fail(m),
            }
        },
        Inst::OP_KCALL { tp } => if n == 0 {
            Step::Fail(msg_underflow())
        } else {
            Step::Next(MachineState {
                stack: st.drop_last(),
                output: s.output.push(print_text(st.last())),
                ..s
            })
        },
        Inst::OP_DEFINE_GLOBAL { name_idx } => if name_idx >= pool.len() || !(pool[name_idx as int] is Str) {
            Step::Fail(msg_bad_name())
        } else if n == 0 {
            Step::Fail(msg_underflow())
        } else {
            Step::Next(MachineState {
                stack: st.drop_last(),
                globals: s.globals.insert(pool[name_idx as int]->Str_0, st.last()),
                ..s
            })
        },
        Inst::OP_GET_GLOBAL { name_idx } => if name_idx >= pool.len() || !(pool[name_idx as int] is Str) {
            Step::Fail(msg_bad_name())
        } else if !s.globals.contains_key(pool[name_idx as int]->Str_0) {
            Step::Fail(msg_undefined(pool[name_idx as int]->Str_0))
        } else if n >= STACK_MAX {
            Step::Fail(msg_overflow())
        } else {
            Step::Next(with_stack(s, st.push(s.globals[pool[name_idx as int]->Str_0])))
        },
        _ => if n < 2 {
            Step::Fail(msg_underflow())
        } else {
            match binary_result(inst, st[n - 2], st[n - 1]) {
                Ok(v) => Step::Next(with_stack(s, st.subrange(0, n - 2).push(v))),
                Err(m) => Step::Fail(m),
            }
        },
    }
}

/// A state after a runtime error at `line`: the message and the line report
/// are added to the diagnostics.
pub open spec fn failed(s: MachineState, msg: Seq<char>, line: nat) -> MachineState {
    MachineState { diagnostics: s.diagnostics.push(msg).push(line_report(line)), ..s }
}

/// The line reported for an error at `pc`.
pub open spec fn line_at(lines: Seq<usize>, pc: int) -> nat {
    if 0 <= pc < lines.len() {
        lines[pc] as nat
    } else if lines.len() > 0 {
        lines.last() as nat
    } else {
        0
    }
}

/// Running the code from instruction `pc` on: the result and the final state.
/// Control is linear, so each instruction runs at most once.
pub open spec fn exec(code: Seq<Inst>, pool: Seq<SValue>, lines: Seq<usize>, pc: int, s: MachineState) -> (InterpretResult, MachineState)
    decreases code.len() - pc,
{
    if pc < 0 || pc >= code.len() {
        (InterpretResult::RuntimeError, failed(s, msg_no_return(), line_at(lines, pc)))
    } else {
        match step(code[pc], pool, s) {
            Step::Done => (InterpretResult::Success, s),
            Step::Fail(m) => (InterpretResult::RuntimeError, failed(s, m, line_at(lines, pc))),
            Step::Next(s2) => exec(code, pool, lines, pc + 1, s2),
        }
    }
}

/// A run never ends in `CompileError`. A run that ends in `Success` adds no
/// error report; one that ends in `RuntimeError` adds exactly one message and
/// its line report.
pub proof fn lemma_run_reports(code: Seq<Inst>, pool: Seq<SValue>, lines: Seq<usize>, pc: int, s: MachineState)
    ensures
        exec(code, pool, lines, pc, s).0 != InterpretResult::CompileError,
        exec(code, pool, lines, pc, s).0 == InterpretResult::Success ==> exec(code, pool, lines, pc, s).1.diagnostics == s.diagnostics,
        exec(code, pool, lines, pc, s).0 == InterpretResult::RuntimeError ==> exec(code, pool, lines, pc, s).1.diagnostics.len() == s.diagnostics.len() + 2,
    decreases code.len() - pc,
{
    if 0 <= pc < code.len() {
        match step(code[pc], pool, s) {
            Step::Next(s2) => {
                lemma_run_reports(code, pool, lines, pc + 1, s2);
            },
            _ => {},
        }
    }
}

/// Last write wins: reading a global right after defining it gives the value
/// just defined, whatever was bound to the name before.
pub proof fn lemma_last_write_wins(pool: Seq<SValue>, s: MachineState, def_idx: usize, get_idx: usize)
    requires
        def_idx < pool.len(),
        get_idx < pool.len(),
        pool[def_idx as int] is Str,
        pool[get_idx as int] == pool[def_idx as int],
        0 < s.stack.len() <= STACK_MAX,
    ensures
        step(Inst::OP_DEFINE_GLOBAL { name_idx: def_idx }, pool, s) is Next,
        step(Inst::OP_GET_GLOBAL { name_idx: get_idx }, pool, step(Inst::OP_DEFINE_GLOBAL { name_idx: def_idx }, pool, s)->Next_0) is Next,
        step(Inst::OP_GET_GLOBAL { name_idx: get_idx }, pool, step(Inst::OP_DEFINE_GLOBAL { name_idx: def_idx }, pool, s)->Next_0)->Next_0.stack
            == s.stack,
{
    let s1 = step(Inst::OP_DEFINE_GLOBAL { name_idx: def_idx }, pool, s)->Next_0;
    assert(s1.stack.push(s.stack.last()) =~= s.stack);
}

pub open spec fn strings_view(v: Seq<String>) -> Seq<Seq<char>> {
    v.map_values(|s: String| s@)
}

pub open spec fn values_view(v: Seq<Value>) -> Seq<SValue> {
    v.map_values(|x: Value| x@)
}

/// The stack entries of a trace, bottom first.
pub open spec fn stack_items_text(vs: Seq<SValue>) -> Seq<char>
    decreases vs.len(),
{
    if vs.len() == 0 {
        Seq::empty()
    } else {
        stack_items_text(vs.drop_last()) + "[ "@ + show_text(vs.last()) + " ] "@
    }
}

/// The globals of a trace, each as `name => value; `.
pub open spec fn globals_text(g: Seq<Global>) -> Seq<char>
    decreases g.len(),
{
    if g.len() == 0 {
        Seq::empty()
    } else {
        globals_text(g.drop_last()) + g.last().name@ + " => "@ + show_text(g.last().value@) + "; "@
    }
}

/// The names are distinct.
pub open spec fn globals_wf(g: Seq<Global>) -> bool {
    forall|i: int, j: int| 0 <= i < g.len() && 0 <= j < g.len() && i != j ==> (#[trigger] g[i]).name@ != (#[trigger] g[j]).name@
}

/// The globals as a map from name to value.
pub open spec fn globals_view(g: Seq<Global>) -> Map<Seq<char>, SValue>
    decreases g.len(),
{
    if g.len() == 0 {
        Map::empty()
    } else {
        globals_view(g.drop_last()).insert(g.last().name@, g.last().value@)
    }
}

impl VM {
    pub open spec fn state(&self) -> MachineState {
        MachineState {
            stack: values_view(self.stack@),
            globals: globals_view(self.globals@),
            output: strings_view(self.output@),
            diagnostics: strings_view(self.diagnostics@),
        }
    }

    pub open spec fn code(&self) -> Seq<Inst> {
        self.chunk.data@
    }

    pub open spec fn pool(&self) -> Seq<SValue> {
        self.chunk.value_array@
    }

    pub open spec fn lines(&self) -> Seq<usize> {
        self.chunk.lines@
    }

    /// The stack is within its capacity and no name is bound twice.
    pub open spec fn wf(&self) -> bool {
        &&& self.stack@.len() <= STACK_MAX
        &&& globals_wf(self.globals@)
    }
}


/// Executing one instruction had the effect that `st` describes: `err` is the
/// message of a failure, and the state moved on only where the step did.
pub open spec fn step_matches(st: Step, err: Option<String>, before: MachineState, after: MachineState) -> bool {
    match st {
        Step::Next(s2) => err is None && after == s2,
        Step::Fail(m) => err is Some && err->0@ == m && after == before,
        Step::Done => false,
    }
}

pub open spec fn result_matches(r: Result<Value, String>, s: Result<SValue, Seq<char>>) -> bool {
    match s {
        Ok(v) => r is Ok && r->Ok_0@ == v,
        Err(m) => r is Err && r->Err_0@ == m,
    }
}

/// One instruction at `pc`: `None` with the next state where execution goes
/// on, or the final result with the state it ends in.
pub open spec fn advance(code: Seq<Inst>, pool: Seq<SValue>, lines: Seq<usize>, pc: int, s: MachineState) -> (Option<InterpretResult>, MachineState) {
    if pc < 0 || pc >= code.len() {
        (Some(InterpretResult::RuntimeError), failed(s, msg_no_return(), line_at(lines, pc)))
    } else {
        match step(code[pc], pool, s) {
            Step::Done => (Some(InterpretResult::Success), s),
            Step::Fail(m) => (Some(InterpretResult::RuntimeError), failed(s, m, line_at(lines, pc))),
            Step::Next(s2) => (None, s2),
        }
    }
}

proof fn lemma_globals_view(g: Seq<Global>)
    ensures
        forall|k: Seq<char>| #![trigger globals_view(g).contains_key(k)]
            globals_view(g).contains_key(k) <==> exists|i: int| 0 <= i < g.len() && (#[trigger] g[i]).name@ == k,
        globals_wf(g) ==> forall|i: int| 0 <= i < g.len() ==> globals_view(g)[(#[trigger] g[i]).name@] == g[i].value@,
    decreases g.len(),
{
    if g.len() > 0 {
        let h = g.drop_last();
        lemma_globals_view(h);
        assert forall|k: Seq<char>| #![trigger globals_view(g).contains_key(k)]
            globals_view(g).contains_key(k) <==> exists|i: int| 0 <= i < g.len() && (#[trigger] g[i]).name@ == k by {
            if globals_view(g).contains_key(k) && k != g.last().name@ {
                assert(globals_view(h).contains_key(k));
                let i = choose|i: int| 0 <= i < h.len() && (#[trigger] h[i]).name@ == k;
                assert(g[i] == h[i]);
            }
            if k == g.last().name@ {
                assert(g[g.len() - 1].name@ == k);
            }
            if exists|i: int| 0 <= i < g.len() && (#[trigger] g[i]).name@ == k {
                let i = choose|i: int| 0 <= i < g.len() && (#[trigger] g[i]).name@ == k;
                if i < h.len() {
                    assert(h[i] == g[i]);
                    assert(globals_view(h).contains_key(k));
                }
            }
        }
        if globals_wf(g) {
            assert(globals_wf(h)) by {
                assert forall|i: int, j: int| 0 <= i < h.len() && 0 <= j < h.len() && i != j implies (#[trigger] h[i]).name@ != (#[trigger] h[j]).name@ by {
                    assert(h[i] == g[i] && h[j] == g[j]);
                }
            }
            assert forall|i: int| 0 <= i < g.len() implies globals_view(g)[(#[trigger] g[i]).name@] == g[i].value@ by {
                if i < h.len() {
                    assert(h[i] == g[i]);
                    assert(g[i].name@ != g[g.len() - 1].name@);
                }
            }
        }
    }
}

/// Relies on std's `String::clone`, through `Clone` as vstd specifies it.
fn copy_string(s: &String) -> (r: String)
    ensures
        r@ == s@,
{
    s.clone()
}

/// What a unary instruction makes of `a`.
fn unary_value(inst: Inst, a: &Value) -> (r: Result<Value, String>)
    requires
        inst is OP_NEGATE || inst is OP_NOT,
    ensures
        result_matches(r, unary_result(inst, a@)),
{
    match inst {
        Inst::OP_NEGATE => match a {
            Value::NUMBER { data } => match data.neg() {
                Some(x) => Ok(Value::NUMBER { data: x }),
                None => Err(String::from_str("Number out of range.")),
            },
            _ => Err(String::from_str("Expecting operand of type number")),
        },
        _ => match a {
            Value::BOOL { data } => Ok(Value::BOOL { data: !*data }),
            Value::NIL => Ok(Value::BOOL { data: true }),
            _ => Err(String::from_str("Expecting operand of type boolean or nil")),
        },
    }
}

fn number_value(n: Option<Num>) -> (r: Result<Value, String>)
    ensures
        result_matches(r, number_result(n)),
{
    match n {
        Some(x) => Ok(Value::NUMBER { data: x }),
        None => Err(String::from_str("Number out of range.")),
    }
}

/// What a binary instruction makes of `a` (left) and `b` (right).
fn binary_value(inst: Inst, a: &Value, b: &Value) -> (r: Result<Value, String>)
    requires
        is_binary(inst),
    ensures
        result_matches(r, binary_result(inst, a@, b@)),
{
    match inst {
        Inst::OP_EQ => Ok(Value::BOOL { data: a.equals(b) }),
        Inst::OP_ADD => {
            if let (Value::NUMBER { data: x }, Value::NUMBER { data: y }) = (a, b) {
                number_value(x.add(*y))
            } else {
                match (a.as_string(), b.as_string()) {
                    (Some(x), Some(y)) => {
                        let mut s = String::from_str(x);
                        push_str(&mut s, y);
                        Ok(Value::create_string_obj(s))
                    },
                    _ => Err(String::from_str("Expecting operands of type number or string")),
                }
            }
        },
        _ => match (a, b) {
            (Value::NUMBER { data: x }, Value::NUMBER { data: y }) => match inst {
                Inst::OP_SUB => number_value(x.sub(*y)),
                Inst::OP_MUL => number_value(x.mul(*y)),
                Inst::OP_DIV => if y.is_zero() {
                    Err(String::from_str("Division by zero."))
                } else {
                    number_value(x.div(*y))
                },
                Inst::OP_GT => Ok(Value::BOOL { data: y.num_lt(*x) }),
                _ => Ok(Value::BOOL { data: x.num_lt(*y) }),
            },
            _ => Err(String::from_str("Expecting operands of type number")),
        },
    }
}

impl VM {
    /// A machine at the first instruction of `chunk`, with an empty stack and
    /// no globals.
    pub fn new(chunk: Chunk) -> (r: VM)
        ensures
            r.wf(),
            r.chunk == chunk,
            r.pc == 0,
            r.state() == initial_state(),
            !r.enable_trace,
            r.trace@.len() == 0,
    {
        let r = VM {
            chunk,
            pc: 0,
            stack: Vec::new(),
            globals: Vec::new(),
            enable_trace: false,
            output: Vec::new(),
            diagnostics: Vec::new(),
            trace: Vec::new(),
        };
        assert(r.state().stack =~= Seq::<SValue>::empty());
        assert(r.state().output =~= Seq::<Seq<char>>::empty());
        assert(r.state().diagnostics =~= Seq::<Seq<char>>::empty());
        assert(r.state().globals =~= Map::<Seq<char>, SValue>::empty());
        r
    }

    pub fn trace_on(&mut self)
        ensures
            final(self).enable_trace,
            final(self).chunk == old(self).chunk,
            final(self).pc == old(self).pc,
            final(self).state() == old(self).state(),
            final(self).trace == old(self).trace,
            final(self).wf() == old(self).wf(),
    {
        self.enable_trace = true;
    }

    pub fn trace_off(&mut self)
        ensures
            !final(self).enable_trace,
            final(self).chunk == old(self).chunk,
            final(self).pc == old(self).pc,
            final(self).state() == old(self).state(),
            final(self).trace == old(self).trace,
            final(self).wf() == old(self).wf(),
    {
        self.enable_trace = false;
    }

    /// Where `name` is bound: its index among the globals.
    fn find_global(&self, name: &String) -> (r: Option<usize>)
        requires
            self.wf(),
        ensures
            match r {
                Some(i) => i < self.globals@.len() && self.globals@[i as int].name@ == name@,
                None => !self.state().globals.contains_key(name@),
            },
    {
        let mut i: usize = 0;
        while i < self.globals.len()
            invariant
                i <= self.globals@.len(),
                forall|j: int| 0 <= j < i ==> (#[trigger] self.globals@[j]).name@ != name@,
            decreases self.globals@.len() - i,
        {
            if self.globals[i].name == *name {
                return Some(i);
            }
            i = i + 1;
        }
        proof { lemma_globals_view(self.globals@); }
        None
    }

    /// Binds `name` to `v`, replacing an earlier binding.
    pub fn update_global(&mut self, name: String, v: Value)
        requires
            old(self).wf(),
        ensures
            final(self).wf(),
            final(self).state() == (MachineState { globals: old(self).state().globals.insert(name@, v@), ..old(self).state() }),
            final(self).chunk == old(self).chunk,
            final(self).pc == old(self).pc,
            final(self).enable_trace == old(self).enable_trace,
            final(self).trace == old(self).trace,
    {
        let ghost g0 = self.globals@;
        proof { lemma_globals_view(g0); }
        match self.find_global(&name) {
            Some(i) => {
                let entry = Global { name: copy_string(&self.globals[i].name), value: v };
                self.globals.set(i, entry);
                let ghost g1 = self.globals@;
                assert(globals_wf(g1)) by {
                    assert forall|a: int, b: int| 0 <= a < g1.len() && 0 <= b < g1.len() && a != b implies (#[trigger] g1[a]).name@ != (#[trigger] g1[b]).name@ by {
                        assert(g1[a].name@ == g0[a].name@ && g1[b].name@ == g0[b].name@);
                    }
                }
                proof { lemma_globals_view(g1); }
                assert(globals_view(g1) =~= globals_view(g0).insert(name@, v@)) by {
                    assert forall|k: Seq<char>| #[trigger] globals_view(g1).contains_key(k) <==> globals_view(g0).insert(name@, v@).contains_key(k) by {
                        if globals_view(g1).contains_key(k) {
                            let j = choose|j: int| 0 <= j < g1.len() && (#[trigger] g1[j]).name@ == k;
                            assert(g0[j].name@ == k);
                        }
                        if globals_view(g0).contains_key(k) {
                            let j = choose|j: int| 0 <= j < g0.len() && (#[trigger] g0[j]).name@ == k;
                            assert(g1[j].name@ == k);
                        }
                        assert(g1[i as int].name@ == name@);
                    }
                    assert forall|k: Seq<char>| #[trigger] globals_view(g1).contains_key(k) implies globals_view(g1)[k] == globals_view(g0).insert(name@, v@)[k] by {
                        let j = choose|j: int| 0 <= j < g1.len() && (#[trigger] g1[j]).name@ == k;
                        assert(g0[j].name@ == k);
                        if j != i {
                            assert(g1[j] == g0[j]);
                        }
                    }
                }
            },
            None => {
                self.globals.push(Global { name, value: v });
                let ghost g1 = self.globals@;
                assert(g1.drop_last() =~= g0);
                assert(globals_wf(g1)) by {
                    assert forall|a: int, b: int| 0 <= a < g1.len() && 0 <= b < g1.len() && a != b implies (#[trigger] g1[a]).name@ != (#[trigger] g1[b]).name@ by {
                        if a < g0.len() {
                            assert(g1[a] == g0[a]);
                            assert(globals_view(g0).contains_key(g0[a].name@));
                        }
                        if b < g0.len() {
                            assert(g1[b] == g0[b]);
                            assert(globals_view(g0).contains_key(g0[b].name@));
                        }
                    }
                }
            },
        }
    }
}


/// Everything but the state that instructions change is kept.
pub open spec fn same_frame(a: VM, b: VM) -> bool {
    &&& b.chunk == a.chunk
    &&& b.pc == a.pc
    &&& b.enable_trace == a.enable_trace
    &&& b.trace == a.trace
}

impl VM {
    fn exec_constant(&mut self, idx: usize) -> (err: Option<String>)
        requires
            old(self).wf(),
        ensures
            final(self).wf(),
            same_frame(*old(self), *final(self)),
            step_matches(step(Inst::CONSTANT { idx }, old(self).pool(), old(self).state()), err, old(self).state(), final(self).state()),
    {
        if idx >= self.chunk.value_array.data.len() {
            return Some(String::from_str("Invalid constant index."));
        }
        if self.stack.len() >= STACK_MAX {
            return Some(String::from_str("Stack overflow."));
        }
        let v = self.chunk.value_array.read(idx);
        let ghost st0 = self.stack@;
        self.stack.push(v);
        assert(values_view(self.stack@) =~= values_view(st0).push(self.pool()[idx as int]));
        None
    }

    fn exec_unary(&mut self, inst: Inst) -> (err: Option<String>)
        requires
            old(self).wf(),
            inst is OP_NEGATE || inst is OP_NOT,
        ensures
            final(self).wf(),
            same_frame(*old(self), *final(self)),
            step_matches(step(inst, old(self).pool(), old(self).state()), err, old(self).state(), final(self).state()),
    {
        let n = self.stack.len();
        if n == 0 {
            return Some(String::from_str("Stack underflow."));
        }
        let ghost st0 = self.stack@;
        match unary_value(inst, &self.stack[n - 1]) {
            Ok(v) => {
                self.stack.pop();
                self.stack.push(v);
                assert(values_view(self.stack@) =~= values_view(st0).drop_last().push(v@));
                None
            },
            Err(m) => Some(m),
        }
    }

    fn exec_binary(&mut self, inst: Inst) -> (err: Option<String>)
        requires
            old(self).wf(),
            is_binary(inst),
        ensures
            final(self).wf(),
            same_frame(*old(self), *final(self)),
            step_matches(step(inst, old(self).pool(), old(self).state()), err, old(self).state(), final(self).state()),
    {
        let n = self.stack.len();
        if n < 2 {
            return Some(String::from_str("Stack underflow."));
        }
        let ghost st0 = self.stack@;
        match binary_value(inst, &self.stack[n - 2], &self.stack[n - 1]) {
            Ok(v) => {
                self.stack.pop();
                self.stack.pop();
                self.stack.push(v);
                assert(values_view(self.stack@) =~= values_view(st0).subrange(0, n - 2).push(v@));
                None
            },
            Err(m) => Some(m),
        }
    }

    fn exec_print(&mut self) -> (err: Option<String>)
        requires
            old(self).wf(),
        ensures
            final(self).wf(),
            same_frame(*old(self), *final(self)),
            step_matches(step(Inst::OP_KCALL { tp: KMethod::Print }, old(self).pool(), old(self).state()), err, old(self).state(), final(self).state()),
    {
        let ghost st0 = self.stack@;
        let ghost out0 = self.output@;
        match self.stack.pop() {
            None => Some(String::from_str("Stack underflow.")),
            Some(v) => {
                let line = v.print_string();
                self.output.push(line);
                assert(values_view(self.stack@) =~= values_view(st0).drop_last());
                assert(strings_view(self.output@) =~= strings_view(out0).push(print_text(values_view(st0).last())));
                None
            },
        }
    }

    /// The name that the constant at `name_idx` holds.
    fn constant_name(&self, name_idx: usize) -> (r: Option<String>)
        ensures
            match r {
                Some(s) => name_idx < self.pool().len() && self.pool()[name_idx as int] is Str
                    && s@ == self.pool()[name_idx as int]->Str_0,
                None => !(name_idx < self.pool().len() && self.pool()[name_idx as int] is Str),
            },
    {
        if name_idx >= self.chunk.value_array.data.len() {
            return None;
        }
        match self.chunk.value_array.data[name_idx].as_string() {
            Some(t) => Some(String::from_str(t)),
            None => None,
        }
    }

    fn exec_define_global(&mut self, name_idx: usize) -> (err: Option<String>)
        requires
            old(self).wf(),
        ensures
            final(self).wf(),
            same_frame(*old(self), *final(self)),
            step_matches(step(Inst::OP_DEFINE_GLOBAL { name_idx }, old(self).pool(), old(self).state()), err, old(self).state(), final(self).state()),
    {
        let name = match self.constant_name(name_idx) {
            Some(t) => t,
            None => { return Some(String::from_str("Expecting string as variable name")); },
        };
        let ghost st0 = self.stack@;
        match self.stack.pop() {
            None => Some(String::from_str("Stack underflow.")),
            Some(v) => {
                assert(values_view(self.stack@) =~= values_view(st0).drop_last());
                self.update_global(name, v);
                None
            },
        }
    }

    fn exec_get_global(&mut self, name_idx: usize) -> (err: Option<String>)
        requires
            old(self).wf(),
        ensures
            final(self).wf(),
            same_frame(*old(self), *final(self)),
            step_matches(step(Inst::OP_GET_GLOBAL { name_idx }, old(self).pool(), old(self).state()), err, old(self).state(), final(self).state()),
    {
        let name = match self.constant_name(name_idx) {
            Some(t) => t,
            None => { return Some(String::from_str("Expecting string as variable name")); },
        };
        match self.find_global(&name) {
            None => {
                let mut m = String::from_str("Undefined variable '");
                push_str(&mut m, name.as_str());
                push_str(&mut m, "'.");
                Some(m)
            },
            Some(i) => {
                proof { lemma_globals_view(self.globals@); }
                assert(self.state().globals.contains_key(name@));
                if self.stack.len() >= STACK_MAX {
                    return Some(String::from_str("Stack overflow."));
                }
                let v = self.globals[i].value.duplicate();
                let ghost st0 = self.stack@;
                self.stack.push(v);
                assert(values_view(self.stack@) =~= values_view(st0).push(v@));
                None
            },
        }
    }

    /// Runs one instruction other than `RETURN`.
    fn exec_inst(&mut self, inst: Inst) -> (err: Option<String>)
        requires
            old(self).wf(),
            !(inst is RETURN),
        ensures
            final(self).wf(),
            same_frame(*old(self), *final(self)),
            step_matches(step(inst, old(self).pool(), old(self).state()), err, old(self).state(), final(self).state()),
    {
        match inst {
            Inst::CONSTANT { idx } => self.exec_constant(idx),
            Inst::OP_NEGATE | Inst::OP_NOT => self.exec_unary(inst),
            Inst::OP_KCALL { tp: KMethod::Print } => self.exec_print(),
            Inst::OP_POP => {
                let ghost st0 = self.stack@;
                match self.stack.pop() {
                    None => Some(String::from_str("Stack underflow.")),
                    Some(_) => {
                        assert(values_view(self.stack@) =~= values_view(st0).drop_last());
                        None
                    },
                }
            },
            Inst::OP_DEFINE_GLOBAL { name_idx } => self.exec_define_global(name_idx),
            Inst::OP_GET_GLOBAL { name_idx } => self.exec_get_global(name_idx),
            _ => self.exec_binary(inst),
        }
    }

    /// Records a runtime error: the message, then the line of the instruction
    /// at `pc`.
    pub fn runtime_error(&mut self, msg: String)
        requires
            old(self).wf(),
        ensures
            final(self).wf(),
            same_frame(*old(self), *final(self)),
            final(self).state() == failed(old(self).state(), msg@, line_at(old(self).lines(), old(self).pc as int)),
    {
        let line: usize = if self.pc < self.chunk.lines.len() {
            self.chunk.lines[self.pc]
        } else if self.chunk.lines.len() > 0 {
            self.chunk.lines[self.chunk.lines.len() - 1]
        } else {
            0
        };
        let mut report = String::from_str("[line ");
        push_nat(&mut report, line as u64);
        push_str(&mut report, "] in script");
        let ghost d0 = self.diagnostics@;
        self.diagnostics.push(msg);
        self.diagnostics.push(report);
        assert(strings_view(self.diagnostics@) =~= strings_view(d0).push(msg@).push(line_report(line as nat)));
    }

    /// Runs the instruction at `pc`: `None` where execution goes on (at
    /// `pc + 1`), else how the run ends.
    pub fn execute_next(&mut self) -> (r: Option<InterpretResult>)
        requires
            old(self).wf(),
        ensures
            final(self).wf(),
            final(self).chunk == old(self).chunk,
            final(self).enable_trace == old(self).enable_trace,
            final(self).trace == old(self).trace,
            (r, final(self).state()) == advance(old(self).code(), old(self).pool(), old(self).lines(), old(self).pc as int, old(self).state()),
            r is None ==> final(self).pc == old(self).pc + 1,
    {
        if self.pc >= self.chunk.data.len() {
            self.runtime_error(String::from_str("Reached the end of the code without a return."));
            return Some(InterpretResult::RuntimeError);
        }
        let inst = self.chunk.data[self.pc];
        if let Inst::RETURN = inst {
            return Some(InterpretResult::Success);
        }
        match self.exec_inst(inst) {
            None => {
                self.pc = self.pc + 1;
                None
            },
            Some(m) => {
                self.runtime_error(m);
                Some(InterpretResult::RuntimeError)
            },
        }
    }

    /// Runs the code from `pc` until it returns or fails.
    pub fn run(&mut self) -> (r: InterpretResult)
        requires
            old(self).wf(),
        ensures
            final(self).wf(),
            final(self).chunk == old(self).chunk,
            (r, final(self).state()) == exec(old(self).code(), old(self).pool(), old(self).lines(), old(self).pc as int, old(self).state()),
            !old(self).enable_trace ==> final(self).trace == old(self).trace,
    {
        let ghost code = self.code();
        let ghost pool = self.pool();
        let ghost lines = self.lines();
        let ghost goal = exec(code, pool, lines, self.pc as int, self.state());
        loop
            invariant
                self.wf(),
                self.code() == code,
                self.pool() == pool,
                self.lines() == lines,
                self.chunk == old(self).chunk,
                self.enable_trace == old(self).enable_trace,
                !old(self).enable_trace ==> self.trace == old(self).trace,
                exec(code, pool, lines, self.pc as int, self.state()) == goal,
                goal == exec(old(self).code(), old(self).pool(), old(self).lines(), old(self).pc as int, old(self).state()),
            decreases code.len() - self.pc,
        {
            if self.enable_trace {
                let entry = self.trace_entry();
                self.trace.push(entry);
            }
            let ghost pc0 = self.pc as int;
            let ghost s0 = self.state();
            match self.execute_next() {
                None => {},
                Some(r) => {
                    assert((r, self.state()) == exec(code, pool, lines, pc0, s0));
                    return r;
                },
            }
        }
    }

    pub fn fetch(&self) -> (r: &Inst)
        requires
            self.pc < self.code().len(),
        ensures
            *r == self.code()[self.pc as int],
    {
        &self.chunk.data[self.pc]
    }

    /// Moves to the next instruction.
    pub fn step(&mut self)
        requires
            old(self).pc < usize::MAX,
        ensures
            final(self).pc == old(self).pc + 1,
            final(self).chunk == old(self).chunk,
            final(self).state() == old(self).state(),
    {
        self.pc = self.pc + 1;
    }

    pub fn push(&mut self, value: Value)
        requires
            old(self).wf(),
            old(self).stack@.len() < STACK_MAX,
        ensures
            final(self).wf(),
            same_frame(*old(self), *final(self)),
            final(self).state() == with_stack(old(self).state(), old(self).state().stack.push(value@)),
    {
        let ghost st0 = self.stack@;
        self.stack.push(value);
        assert(values_view(self.stack@) =~= values_view(st0).push(value@));
    }

    /// Takes the top value off the stack; `None` on an empty stack.
    pub fn pop(&mut self) -> (r: Option<Value>)
        requires
            old(self).wf(),
        ensures
            final(self).wf(),
            same_frame(*old(self), *final(self)),
            old(self).stack@.len() == 0 ==> r is None && final(self).state() == old(self).state(),
            old(self).stack@.len() > 0 ==> r is Some && r->0@ == old(self).state().stack.last()
                && final(self).state() == with_stack(old(self).state(), old(self).state().stack.drop_last()),
    {
        let ghost st0 = self.stack@;
        let r = self.stack.pop();
        proof {
            if st0.len() > 0 {
                assert(values_view(self.stack@) =~= values_view(st0).drop_last());
            }
        }
        r
    }

    /// The top value; `None` on an empty stack.
    pub fn peek_opt(&self) -> (r: Option<&Value>)
        ensures
            self.stack@.len() == 0 ==> r is None,
            self.stack@.len() > 0 ==> r is Some && *r->0 == self.stack@.last(),
    {
        if self.stack.len() == 0 {
            None
        } else {
            Some(&self.stack[self.stack.len() - 1])
        }
    }

    /// The value `idx` places below the top; `None` where the stack is not
    /// that deep.
    pub fn peek_at_opt(&self, idx: usize) -> (r: Option<&Value>)
        ensures
            idx < self.stack@.len() ==> r is Some && *r->0 == self.stack@[self.stack@.len() - 1 - idx],
            idx >= self.stack@.len() ==> r is None,
    {
        if idx < self.stack.len() {
            Some(&self.stack[self.stack.len() - 1 - idx])
        } else {
            None
        }
    }

    pub fn peek(&self) -> (r: &Value)
        requires
            self.stack@.len() > 0,
        ensures
            *r == self.stack@.last(),
    {
        &self.stack[self.stack.len() - 1]
    }

    pub fn peek_at(&self, idx: usize) -> (r: &Value)
        requires
            idx < self.stack@.len(),
        ensures
            *r == self.stack@[self.stack@.len() - 1 - idx],
    {
        &self.stack[self.stack.len() - 1 - idx]
    }

    /// The operand stack, bottom first.
    pub fn display_stack(&self) -> (r: String)
        ensures
            r@ == " STACK: "@ + stack_items_text(values_view(self.stack@)),
    {
        let mut s = String::from_str(" STACK: ");
        let ghost s0 = s@;
        let mut i: usize = 0;
        while i < self.stack.len()
            invariant
                i <= self.stack@.len(),
                s@ == s0 + stack_items_text(values_view(self.stack@.subrange(0, i as int))),
            decreases self.stack@.len() - i,
        {
            push_str(&mut s, "[ ");
            push_show(&mut s, &self.stack[i]);
            push_str(&mut s, " ] ");
            proof {
                let vs = values_view(self.stack@.subrange(0, i + 1));
                assert(vs.drop_last() =~= values_view(self.stack@.subrange(0, i as int)));
            }
            i = i + 1;
            assert(s@ =~= s0 + stack_items_text(values_view(self.stack@.subrange(0, i as int))));
        }
        assert(self.stack@.subrange(0, i as int) =~= self.stack@);
        s
    }

    /// The global variables, in the order they were first bound.
    pub fn display_globals(&self) -> (r: String)
        ensures
            r@ == " GLOBALS: "@ + globals_text(self.globals@),
    {
        let mut s = String::from_str(" GLOBALS: ");
        let ghost s0 = s@;
        let mut i: usize = 0;
        while i < self.globals.len()
            invariant
                i <= self.globals@.len(),
                s@ == s0 + globals_text(self.globals@.subrange(0, i as int)),
            decreases self.globals@.len() - i,
        {
            push_str(&mut s, self.globals[i].name.as_str());
            push_str(&mut s, " => ");
            push_show(&mut s, &self.globals[i].value);
            push_str(&mut s, "; ");
            proof {
                let g = self.globals@.subrange(0, i + 1);
                assert(g.drop_last() =~= self.globals@.subrange(0, i as int));
            }
            i = i + 1;
            assert(s@ =~= s0 + globals_text(self.globals@.subrange(0, i as int)));
        }
        assert(self.globals@.subrange(0, i as int) =~= self.globals@);
        s
    }

    /// One trace entry: the stack, the globals and the next instruction.
    fn trace_entry(&self) -> String {
        let mut s = self.display_stack();
        push_str(&mut s, "\n");
        let g = self.display_globals();
        push_str(&mut s, g.as_str());
        if self.pc < self.chunk.data.len() && self.chunk.data.len() == self.chunk.lines.len() {
            push_str(&mut s, "\n");
            let i = display_row(&self.chunk, self.pc);
            push_str(&mut s, i.as_str());
        }
        s
    }
}

} // verus!
