use rlox::chunk::{Inst, KMethod};
use rlox::compiler::Compiler;

fn compiled(src: &str) -> Compiler {
    let mut c = Compiler::new(src.to_string());
    assert!(c.compile(), "{:?}", c.diagnostics);
    assert!(c.diagnostics.is_empty());
    c
}

fn pool_text(c: &Compiler, i: usize) -> String {
    c.current_chunk.value_array.data[i].print_string()
}

#[test]
fn var_with_initializer() {
    let c = compiled("var x = 1;");
    assert_eq!(c.current_chunk.data, vec![Inst::CONSTANT { idx: 1 }, Inst::OP_DEFINE_GLOBAL { name_idx: 0 }, Inst::RETURN]);
    assert_eq!(pool_text(&c, 0), "x");
    assert!(c.current_chunk.value_array.data[0].is_string());
    assert_eq!(pool_text(&c, 1), "1");
}

#[test]
fn var_defaults_to_nil() {
    let c = compiled("var x;");
    assert_eq!(c.current_chunk.data, vec![Inst::CONSTANT { idx: 1 }, Inst::OP_DEFINE_GLOBAL { name_idx: 0 }, Inst::RETURN]);
    assert_eq!(pool_text(&c, 1), "nil");
}

#[test]
fn constants_are_not_shared() {
    let c = compiled("print 1 + 1;");
    assert_eq!(c.current_chunk.value_array.data.len(), 2);
    assert_eq!(
        c.current_chunk.data,
        vec![Inst::CONSTANT { idx: 0 }, Inst::CONSTANT { idx: 1 }, Inst::OP_ADD, Inst::OP_KCALL { tp: KMethod::Print }, Inst::RETURN]
    );
}

#[test]
fn line_table_follows_source() {
    let c = compiled("print 1;\nprint 2;");
    assert_eq!(
        c.current_chunk.data,
        vec![Inst::CONSTANT { idx: 0 }, Inst::OP_KCALL { tp: KMethod::Print }, Inst::CONSTANT { idx: 1 }, Inst::OP_KCALL { tp: KMethod::Print }, Inst::RETURN]
    );
    assert_eq!(c.current_chunk.lines, vec![1, 1, 2, 2, 2]);
}

#[test]
fn factor_binds_tighter_than_term() {
    let c = compiled("1 + 2 * 3;");
    assert_eq!(
        c.current_chunk.data,
        vec![Inst::CONSTANT { idx: 0 }, Inst::CONSTANT { idx: 1 }, Inst::CONSTANT { idx: 2 }, Inst::OP_MUL, Inst::OP_ADD, Inst::OP_POP, Inst::RETURN]
    );
}

#[test]
fn subtraction_groups_to_the_left() {
    let c = compiled("10 - 3 - 2;");
    assert_eq!(
        c.current_chunk.data,
        vec![Inst::CONSTANT { idx: 0 }, Inst::CONSTANT { idx: 1 }, Inst::OP_SUB, Inst::CONSTANT { idx: 2 }, Inst::OP_SUB, Inst::OP_POP, Inst::RETURN]
    );
}

#[test]
fn malformed_sources_fail_with_one_report() {
    for (src, report) in [
        ("print 1 +;", "[line 1] Error at ;: Expect expression."),
        ("print 1 +; print 2 +;", "[line 1] Error at ;: Expect expression."),
        ("print (1;", "[line 1] Error at ;: Expecting ')' after expression."),
        ("x = 1;", "[line 1] Error at =: Expect ';' at end of statement."),
    ] {
        let mut c = Compiler::new(src.to_string());
        assert!(!c.compile(), "{}", src);
        assert_eq!(c.diagnostics, vec![report.to_string()], "{}", src);
    }
}
