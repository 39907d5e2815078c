use rlox::driver::{Driver, Outcome};
use rlox::vm::InterpretResult;

fn run(src: &str) -> Outcome {
    Driver::new().interpret(src.to_string())
}

fn printed(src: &str) -> Vec<String> {
    let o = run(src);
    assert_eq!(o.result, InterpretResult::Success, "diagnostics: {:?}", o.diagnostics);
    assert!(o.diagnostics.is_empty());
    o.output
}

#[test]
fn variable_prints_its_value() {
    assert_eq!(printed("var x = 1; print x;"), vec!["1"]);
}

#[test]
fn redefinition_last_write_wins() {
    assert_eq!(printed("var x = 1; print x; var x = 2; print x;"), vec!["1", "2"]);
}

#[test]
fn string_concatenation_keeps_source_order() {
    assert_eq!(printed("print \"a\" + \"b\";"), vec!["ab"]);
}

#[test]
fn binary_operand_order() {
    assert_eq!(printed("print 10 - 3;"), vec!["7"]);
    assert_eq!(printed("print 10 / 2;"), vec!["5"]);
    assert_eq!(printed("print 3 < 5;"), vec!["true"]);
    assert_eq!(printed("print 3 > 5;"), vec!["false"]);
    assert_eq!(printed("print 2 * 3;"), vec!["6"]);
}

#[test]
fn equality_across_types() {
    assert_eq!(printed("print nil == nil;"), vec!["true"]);
    assert_eq!(printed("print 1 == \"1\";"), vec!["false"]);
    assert_eq!(printed("print \"ab\" == \"ab\";"), vec!["true"]);
    assert_eq!(printed("print 0.5 == 1 / 2;"), vec!["true"]);
    assert_eq!(printed("print true == false;"), vec!["false"]);
}

#[test]
fn undefined_global_is_runtime_error() {
    let o = run("print y;");
    assert_eq!(o.result, InterpretResult::RuntimeError);
    assert!(o.output.is_empty());
    assert_eq!(o.diagnostics, vec!["Undefined variable 'y'.", "[line 1] in script"]);
}

#[test]
fn malformed_program_reports_one_error() {
    let o = run("print 1 +;");
    assert_eq!(o.result, InterpretResult::CompileError);
    assert_eq!(o.diagnostics, vec!["[line 1] Error at ;: Expect expression."]);
    assert!(o.output.is_empty());
}

#[test]
fn only_first_compile_error_is_reported() {
    let o = run("print ;\nprint ;\n1 +;");
    assert_eq!(o.result, InterpretResult::CompileError);
    assert_eq!(o.diagnostics.len(), 1);
}

#[test]
fn error_at_end_of_input() {
    let o = run("print 1");
    assert_eq!(o.result, InterpretResult::CompileError);
    assert_eq!(o.diagnostics, vec!["[line 1] Error at End: Expect ';' at end of statement."]);
}

#[test]
fn lexical_error_is_compile_error() {
    let o = run("print \"abc;");
    assert_eq!(o.result, InterpretResult::CompileError);
    assert_eq!(o.diagnostics, vec!["[line 1] Error: Non-terminated string literal"]);
}

#[test]
fn well_formed_expressions_run_cleanly() {
    for src in ["1 + 2;", "(1 + 2) * 3 - 4 / 5;", "!true;", "!nil;", "\"a\" + \"b\" + \"c\";", "-(2);", "1 == 1;"] {
        let o = run(src);
        assert_eq!(o.result, InterpretResult::Success, "{}", src);
        assert!(o.diagnostics.is_empty());
        assert!(o.output.is_empty());
    }
}

#[test]
fn precedence_and_grouping() {
    assert_eq!(printed("print 1 + 2 * 3;"), vec!["7"]);
    assert_eq!(printed("print (1 + 2) * 3;"), vec!["9"]);
    assert_eq!(printed("print 8 - 4 - 2;"), vec!["2"]);
    assert_eq!(printed("print 1 + 2 == 3;"), vec!["true"]);
}

#[test]
fn unary_operand_is_a_whole_expression() {
    assert_eq!(printed("print -1 + 2;"), vec!["-3"]);
    assert_eq!(printed("print !nil;"), vec!["true"]);
    assert_eq!(printed("print !true;"), vec!["false"]);
}

#[test]
fn number_formatting() {
    assert_eq!(printed("print 2.5;"), vec!["2.5"]);
    assert_eq!(printed("print 1 / 3;"), vec!["0.3333333333333333"]);
    assert_eq!(printed("print 2 / 3;"), vec!["0.6666666666666666"]);
    assert_eq!(printed("print 0.1 + 0.2;"), vec!["0.3"]);
    assert_eq!(printed("print 0 - 2.25;"), vec!["-2.25"]);
    assert_eq!(printed("print 12.;"), vec!["12"]);
}

#[test]
fn var_without_initializer_is_nil() {
    assert_eq!(printed("var a; print a;"), vec!["nil"]);
}

#[test]
fn type_errors_halt() {
    let o = run("print -\"a\"; print 1;");
    assert_eq!(o.result, InterpretResult::RuntimeError);
    assert!(o.output.is_empty());
    assert_eq!(o.diagnostics, vec!["Expecting operand of type number", "[line 1] in script"]);

    let o = run("print 1 + \"a\";");
    assert_eq!(o.diagnostics[0], "Expecting operands of type number or string");

    let o = run("print 1 < nil;");
    assert_eq!(o.diagnostics[0], "Expecting operands of type number");

    let o = run("print !1;");
    assert_eq!(o.diagnostics[0], "Expecting operand of type boolean or nil");
}

#[test]
fn division_by_zero_is_runtime_error() {
    let o = run("print 1;\nprint 1 / 0;");
    assert_eq!(o.result, InterpretResult::RuntimeError);
    assert_eq!(o.output, vec!["1"]);
    assert_eq!(o.diagnostics, vec!["Division by zero.", "[line 2] in script"]);
}

#[test]
fn number_too_large_is_compile_error() {
    let o = run("print 99999999999999999999;");
    assert_eq!(o.result, InterpretResult::CompileError);
    assert_eq!(o.diagnostics, vec!["[line 1] Error at 99999999999999999999: Number literal out of range."]);
}

#[test]
fn overflow_is_runtime_error() {
    let o = run("print 9000000000000000000 + 9000000000000000000;");
    assert_eq!(o.result, InterpretResult::RuntimeError);
    assert_eq!(o.diagnostics[0], "Number out of range.");
}

#[test]
fn unsupported_operator_is_compile_error() {
    let o = run("print 1 != 2;");
    assert_eq!(o.result, InterpretResult::CompileError);
    assert_eq!(o.diagnostics, vec!["[line 1] Error at !=: Expect ';' at end of statement."]);
}

#[test]
fn debug_mode_traces() {
    let mut d = Driver::new();
    d.debug();
    let o = d.interpret("print 1;".to_string());
    assert_eq!(o.result, InterpretResult::Success);
    assert_eq!(o.output, vec!["1"]);
    assert_eq!(o.trace[0], "===== code =====");
    assert_eq!(o.trace[1], "0001 CONSTANT 0 (1)");
    assert_eq!(o.trace[2], "   | OP_KCALL 0");
    assert_eq!(o.trace[3], "   | RETURN");
    assert_eq!(o.trace[4], " STACK: \n GLOBALS: \n0001 CONSTANT 0 (1)");
    assert_eq!(o.trace[5], " STACK: [ 1 ] \n GLOBALS: \n   | OP_KCALL 0");
    d.no_debug();
    assert!(d.interpret("print 1;".to_string()).trace.is_empty());
}
