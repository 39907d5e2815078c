use rlox::chunk::{Chunk, Inst, KMethod};
use rlox::debug::{disassemble_chunk, display_inst, show_obj, show_value};
use rlox::number::Num;
use rlox::parser::Precedence;
use rlox::span::Span;
use rlox::value::{Obj, Value, ValueArray};
use rlox::vm::{InterpretResult, VM};

fn num(s: &str) -> Num {
    Num::from_literal(s).unwrap()
}

fn text(v: &Value) -> String {
    v.print_string()
}

#[test]
fn literal_values() {
    assert_eq!(text(&Value::NUMBER { data: num("2.5") }), "2.5");
    assert_eq!(text(&Value::NUMBER { data: num("007") }), "7");
    assert!(Num::from_literal("9223372036854775808").is_none());
    assert!(Num::from_literal("9223372036854775807").is_some());
    assert!(Num::from_literal("0.0000000000000000001").is_none());
}

#[test]
fn arithmetic_on_numbers() {
    let a = num("10");
    let b = num("4");
    assert_eq!(text(&Value::NUMBER { data: a.sub(b).unwrap() }), "6");
    assert_eq!(text(&Value::NUMBER { data: a.div(b).unwrap() }), "2.5");
    assert_eq!(text(&Value::NUMBER { data: b.div(a).unwrap() }), "0.4");
    assert_eq!(text(&Value::NUMBER { data: a.mul(b).unwrap() }), "40");
    assert_eq!(text(&Value::NUMBER { data: a.add(b).unwrap() }), "14");
    assert_eq!(text(&Value::NUMBER { data: b.neg().unwrap() }), "-4");
    assert!(a.div(num("0")).is_none());
    assert!(num("0").is_zero());
    assert!(b.num_lt(a));
    assert!(!a.num_lt(b));
    assert!(num("0.5").num_eq(num("1").div(num("2")).unwrap()));
}

#[test]
fn strings_are_shared_and_shown() {
    let v = Value::create_string_obj("hi".to_string());
    let w = v.duplicate();
    assert!(w.is_string());
    assert_eq!(w.as_string(), Some("hi"));
    assert!(v.equals(&w));
    assert_eq!(show_value(&v), "'hi'");
    assert_eq!(text(&v), "hi");
    assert_eq!(show_obj(&Obj::Str { data: "x".to_string() }), "'x'");
    assert_eq!(Value::NIL.kind_name(), "nil");
    assert_eq!(v.kind_name(), "obj");
    assert_eq!(Value::BOOL { data: true }.kind_name(), "bool");
    assert_eq!(Value::NIL.as_string(), None);
}

#[test]
fn constant_pool_appends() {
    let mut pool = ValueArray::new();
    assert_eq!(pool.add_constant(Value::NIL), 0);
    assert_eq!(pool.add_constant(Value::BOOL { data: true }), 1);
    assert_eq!(text(&pool.read(1)), "true");
}

fn chunk_of(insts: &[Inst], consts: Vec<Value>) -> Chunk {
    let mut c = Chunk::new();
    for v in consts {
        c.value_array.add_constant(v);
    }
    for (i, inst) in insts.iter().enumerate() {
        c.write(*inst, i / 2 + 1);
    }
    c
}

#[test]
fn machine_runs_hand_written_chunk() {
    let c = chunk_of(
        &[
            Inst::CONSTANT { idx: 0 },
            Inst::CONSTANT { idx: 1 },
            Inst::OP_SUB,
            Inst::OP_KCALL { tp: KMethod::Print },
            Inst::RETURN,
        ],
        vec![Value::NUMBER { data: num("10") }, Value::NUMBER { data: num("3") }],
    );
    let mut vm = VM::new(c);
    assert_eq!(vm.run(), InterpretResult::Success);
    assert_eq!(vm.output, vec!["7"]);
}

#[test]
fn machine_reports_missing_return() {
    let c = chunk_of(&[Inst::CONSTANT { idx: 0 }], vec![Value::NIL]);
    let mut vm = VM::new(c);
    assert_eq!(vm.run(), InterpretResult::RuntimeError);
    assert_eq!(vm.diagnostics, vec!["Reached the end of the code without a return.", "[line 1] in script"]);
}

#[test]
fn machine_reports_underflow_and_bad_index() {
    let mut vm = VM::new(chunk_of(&[Inst::OP_POP, Inst::RETURN], vec![]));
    assert_eq!(vm.run(), InterpretResult::RuntimeError);
    assert_eq!(vm.diagnostics[0], "Stack underflow.");
    let mut vm = VM::new(chunk_of(&[Inst::CONSTANT { idx: 3 }, Inst::RETURN], vec![]));
    assert_eq!(vm.run(), InterpretResult::RuntimeError);
    assert_eq!(vm.diagnostics[0], "Invalid constant index.");
    let mut vm = VM::new(chunk_of(&[Inst::OP_GET_GLOBAL { name_idx: 0 }, Inst::RETURN], vec![Value::NIL]));
    assert_eq!(vm.run(), InterpretResult::RuntimeError);
    assert_eq!(vm.diagnostics[0], "Expecting string as variable name");
}

#[test]
fn machine_reports_overflow() {
    let mut insts = vec![Inst::CONSTANT { idx: 0 }; 129];
    insts.push(Inst::RETURN);
    let mut vm = VM::new(chunk_of(&insts, vec![Value::NIL]));
    assert_eq!(vm.run(), InterpretResult::RuntimeError);
    assert_eq!(vm.diagnostics[0], "Stack overflow.");
    assert_eq!(vm.stack.len(), 128);
}

#[test]
fn stack_operations() {
    let mut vm = VM::new(Chunk::new());
    assert!(vm.pop().is_none());
    assert!(vm.peek_opt().is_none());
    vm.push(Value::BOOL { data: true });
    vm.push(Value::NIL);
    assert_eq!(text(vm.peek()), "nil");
    assert_eq!(text(vm.peek_at(1)), "true");
    assert!(vm.peek_at_opt(2).is_none());
    assert_eq!(vm.display_stack(), " STACK: [ true ] [ nil ] ");
    assert_eq!(text(&vm.pop().unwrap()), "nil");
    vm.update_global("a".to_string(), Value::NIL);
    vm.update_global("a".to_string(), Value::create_string_obj("z".to_string()));
    assert_eq!(vm.globals.len(), 1);
    assert_eq!(vm.display_globals(), " GLOBALS: a => 'z'; ");
    vm.runtime_error("boom".to_string());
    assert_eq!(vm.diagnostics, vec!["boom", "[line 0] in script"]);
}

#[test]
fn step_and_fetch() {
    let mut vm = VM::new(chunk_of(&[Inst::OP_POP, Inst::RETURN], vec![]));
    assert_eq!(*vm.fetch(), Inst::OP_POP);
    vm.step();
    assert_eq!(*vm.fetch(), Inst::RETURN);
    assert_eq!(vm.execute_next(), Some(InterpretResult::Success));
    vm.trace_on();
    assert!(vm.enable_trace);
    vm.trace_off();
    assert!(!vm.enable_trace);
}

#[test]
fn listing() {
    let c = chunk_of(
        &[Inst::CONSTANT { idx: 0 }, Inst::OP_DEFINE_GLOBAL { name_idx: 1 }, Inst::OP_GET_GLOBAL { name_idx: 1 }, Inst::RETURN],
        vec![Value::NUMBER { data: num("1.5") }, Value::create_string_obj("x".to_string())],
    );
    let rows = disassemble_chunk(&c, "t");
    assert_eq!(rows, vec!["===== t =====", "0001 CONSTANT 0 (1.5)", "   | DEFINE_GLOBAL 1 ('x')", "0002 GET_GLOBAL 1 ('x')", "   | RETURN"]);
    assert_eq!(display_inst(&Inst::OP_NEGATE, &c), "OP_NEGATE");
    assert_eq!(display_inst(&Inst::CONSTANT { idx: 9 }, &c), "CONSTANT 9 (?)");
}

#[test]
fn precedence_ladder() {
    assert_eq!(Precedence::Term.succ(), Precedence::Factor);
    assert_eq!(Precedence::Primary.succ(), Precedence::Primary);
    assert_eq!(Precedence::Lowest.succ().level(), 1);
}

#[test]
fn span_holds_its_fields() {
    let s = Span::new(3, 4);
    assert_eq!((s.start, s.len), (3, 4));
}
