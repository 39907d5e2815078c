use vstd::prelude::*;
use crate::chunk::{Chunk, Inst};
use crate::number::num_text;
use crate::text::{nat_text, push_char, push_nat, push_str};
use crate::value::{Obj, SValue, Value};

verus! {

/// How a listing shows a value: a string in single quotes.
pub open spec fn show_text(v: SValue) -> Seq<char> {
    match v {
        SValue::Number(n) => num_text(n),
        SValue::Bool(b) => if b { "true"@ } else { "false"@ },
        SValue::Nil => "nil"@,
        SValue::Str(s) => "'"@ + s + "'"@,
        SValue::Empty => "EMPTY"@,
    }
}

/// The constant at `idx` as a listing shows it; `?` where there is none.
pub open spec fn constant_text(pool: Seq<SValue>, idx: usize) -> Seq<char> {
    if idx < pool.len() { show_text(pool[idx as int]) } else { "?"@ }
}

pub open spec fn with_operand(name: Seq<char>, pool: Seq<SValue>, idx: usize) -> Seq<char> {
    name + " "@ + nat_text(idx as nat) + " ("@ + constant_text(pool, idx) + ")"@
}

/// One instruction as a listing shows it.
pub open spec fn inst_text(inst: Inst, pool: Seq<SValue>) -> Seq<char> {
    match inst {
        Inst::RETURN => "RETURN"@,
        Inst::CONSTANT { idx } => with_operand("CONSTANT"@, pool, idx),
        Inst::OP_NEGATE => "OP_NEGATE"@,
        Inst::OP_ADD => "OP_ADD"@,
        Inst::OP_SUB => "OP_SUB"@,
        Inst::OP_DIV => "OP_DIV"@,
        Inst::OP_MUL => "OP_MUL"@,
        Inst::OP_NOT => "OP_NOT"@,
        Inst::OP_EQ => "OP_EQ"@,
        Inst::OP_GT => "OP_GT"@,
        Inst::OP_LT => "OP_LT"@,
        Inst::OP_KCALL { tp } => "OP_KCALL 0"@,
        Inst::OP_POP => "OP_POP"@,
        Inst::OP_DEFINE_GLOBAL { name_idx } => with_operand("DEFINE_GLOBAL"@, pool, name_idx),
        Inst::OP_GET_GLOBAL { name_idx } => with_operand("GET_GLOBAL"@, pool, name_idx),
    }
}

/// A line number in at least four digits, padded with zeros.
pub open spec fn padded_line(n: nat) -> Seq<char> {
    let t = nat_text(n);
    if t.len() >= 4 { t } else { Seq::new((4 - t.len()) as nat, |i: int| '0') + t }
}

/// The row of a listing for instruction `i`: its line where that differs
/// from the line before, else a bar; then the instruction.
pub open spec fn listing_row(data: Seq<Inst>, lines: Seq<usize>, pool: Seq<SValue>, i: int) -> Seq<char> {
    let prefix = if i == 0 || lines[i] != lines[i - 1] {
        padded_line(lines[i] as nat) + " "@
    } else {
        "   | "@
    };
    prefix + inst_text(data[i], pool)
}

/// Appends how a listing shows `v`.
pub fn push_show(s: &mut String, v: &Value)
    ensures
        final(s)@ == old(s)@ + show_text(v@),
{
    match v {
        Value::OBJ { data } => {
            let ghost s0 = s@;
            push_str(s, "'");
            match &**data {
                Obj::Str { data: t } => push_str(s, t.as_str()),
            }
            push_str(s, "'");
            assert(s@ =~= s0 + show_text(v@));
        },
        Value::EMPTY => push_str(s, "EMPTY"),
        _ => v.push_print_text(s),
    }
}

pub fn show_value(value: &Value) -> (r: String)
    ensures
        r@ == show_text(value@),
{
    let mut s = String::new();
    push_show(&mut s, value);
    assert(s@ =~= show_text(value@));
    s
}

pub fn show_obj(obj: &Obj) -> (r: String)
    ensures
        r@ == "'"@ + obj.text() + "'"@,
{
    let mut s = String::from_str("'");
    match obj {
        Obj::Str { data } => push_str(&mut s, data.as_str()),
    }
    push_str(&mut s, "'");
    s
}

fn push_operand(s: &mut String, name: &str, chunk: &Chunk, idx: usize)
    ensures
        final(s)@ == old(s)@ + with_operand(name@, chunk.value_array@, idx),
{
    let ghost s0 = s@;
    push_str(s, name);
    push_str(s, " ");
    push_nat(s, idx as u64);
    push_str(s, " (");
    if idx < chunk.value_array.data.len() {
        push_show(s, &chunk.value_array.data[idx]);
    } else {
        push_str(s, "?");
    }
    push_str(s, ")");
    assert(s@ =~= s0 + with_operand(name@, chunk.value_array@, idx));
}

/// One instruction as a listing shows it.
pub fn display_inst(inst: &Inst, chunk: &Chunk) -> (r: String)
    ensures
        r@ == inst_text(*inst, chunk.value_array@),
{
    let mut s = String::new();
    match *inst {
        Inst::RETURN => push_str(&mut s, "RETURN"),
        Inst::CONSTANT { idx } => push_operand(&mut s, "CONSTANT", chunk, idx),
        Inst::OP_NEGATE => push_str(&mut s, "OP_NEGATE"),
        Inst::OP_ADD => push_str(&mut s, "OP_ADD"),
        Inst::OP_SUB => push_str(&mut s, "OP_SUB"),
        Inst::OP_DIV => push_str(&mut s, "OP_DIV"),
        Inst::OP_MUL => push_str(&mut s, "OP_MUL"),
        Inst::OP_NOT => push_str(&mut s, "OP_NOT"),
        Inst::OP_EQ => push_str(&mut s, "OP_EQ"),
        Inst::OP_GT => push_str(&mut s, "OP_GT"),
        Inst::OP_LT => push_str(&mut s, "OP_LT"),
        Inst::OP_KCALL { .. } => push_str(&mut s, "OP_KCALL 0"),
        Inst::OP_POP => push_str(&mut s, "OP_POP"),
        Inst::OP_DEFINE_GLOBAL { name_idx } => push_operand(&mut s, "DEFINE_GLOBAL", chunk, name_idx),
        Inst::OP_GET_GLOBAL { name_idx } => push_operand(&mut s, "GET_GLOBAL", chunk, name_idx),
    }
    assert(s@ =~= inst_text(*inst, chunk.value_array@));
    s
}

/// Appends a line number padded to four digits.
fn push_padded_line(s: &mut String, n: usize)
    ensures
        final(s)@ == old(s)@ + padded_line(n as nat),
{
    let ghost s0 = s@;
    let digits = crate::text::nat_to_string(n as u64);
    let len = digits.as_str().unicode_len();
    let mut k: usize = len;
    while k < 4
        invariant
            len == nat_text(n as nat).len(),
            len <= k <= 4 || (len > 4 && k == len),
            s@ == s0 + Seq::new((k - len) as nat, |i: int| '0'),
        decreases 4 - k,
    {
        push_char(s, '0');
        k = k + 1;
        assert(s@ =~= s0 + Seq::new((k - len) as nat, |i: int| '0'));
    }
    push_str(s, digits.as_str());
    assert(s@ =~= s0 + padded_line(n as nat));
}

/// A listing of `chunk`: a header with `name`, then one row per instruction.
pub fn disassemble_chunk(chunk: &Chunk, name: &str) -> (r: Vec<String>)
    requires
        chunk.wf(),
    ensures
        r@.len() == chunk.data@.len() + 1,
        r@[0]@ == "===== "@ + name@ + " ====="@,
        forall|i: int| 0 <= i < chunk.data@.len() ==> (#[trigger] r@[i + 1])@ == listing_row(chunk.data@, chunk.lines@, chunk.value_array@, i),
{
    let mut rows: Vec<String> = Vec::new();
    let mut head = String::from_str("===== ");
    push_str(&mut head, name);
    push_str(&mut head, " =====");
    rows.push(head);
    let mut idx: usize = 0;
    while idx < chunk.data.len()
        invariant
            chunk.wf(),
            idx <= chunk.data@.len(),
            rows@.len() == idx + 1,
            rows@[0]@ == "===== "@ + name@ + " ====="@,
            forall|i: int| 0 <= i < idx ==> (#[trigger] rows@[i + 1])@ == listing_row(chunk.data@, chunk.lines@, chunk.value_array@, i),
        decreases chunk.data@.len() - idx,
    {
        rows.push(display_row(chunk, idx));
        idx = idx + 1;
    }
    rows
}

/// The row of a listing for the instruction at `idx`.
pub fn display_row(chunk: &Chunk, idx: usize) -> (r: String)
    requires
        chunk.wf(),
        idx < chunk.data@.len(),
    ensures
        r@ == listing_row(chunk.data@, chunk.lines@, chunk.value_array@, idx as int),
{
    let mut row = String::new();
    let line = chunk.lines[idx];
    if idx == 0 || line != chunk.lines[idx - 1] {
        push_padded_line(&mut row, line);
        push_str(&mut row, " ");
    } else {
        push_str(&mut row, "   | ");
    }
    let text = display_inst(&chunk.data[idx], chunk);
    push_str(&mut row, text.as_str());
    assert(row@ =~= listing_row(chunk.data@, chunk.lines@, chunk.value_array@, idx as int));
    row
}

} // verus!
