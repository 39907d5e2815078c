use vstd::prelude::*;
use std::rc::Rc;
use crate::number::{Num, num_text, spec_num_eq};
use crate::text::push_str;

verus! {

/// A heap object of the language.
#[derive(Debug)]
pub enum Obj {
    Str { data: String },
}

impl Obj {
    /// The text of a string object.
    pub open spec fn text(&self) -> Seq<char> {
        match self {
            Obj::Str { data } => data@,
        }
    }
}

/// A runtime value. Strings are shared between the values that hold them.
#[allow(inconsistent_fields)]
#[derive(Debug)]
pub enum Value {
    NUMBER { data: Num },
    BOOL { data: bool },
    NIL,
    OBJ { data: Rc<Obj> },
    EMPTY,
}

/// What a value is, with a string read as its characters.
pub enum SValue {
    Number(Num),
    Bool(bool),
    Nil,
    Str(Seq<char>),
    Empty,
}

impl View for Value {
    type V = SValue;

    open spec fn view(&self) -> SValue {
        match self {
            Value::NUMBER { data } => SValue::Number(*data),
            Value::BOOL { data } => SValue::Bool(*data),
            Value::NIL => SValue::Nil,
            Value::OBJ { data } => SValue::Str(data.text()),
            Value::EMPTY => SValue::Empty,
        }
    }
}

pub open spec fn kind_name_of(v: SValue) -> Seq<char> {
    match v {
        SValue::Number(_) => "double"@,
        SValue::Bool(_) => "bool"@,
        SValue::Nil => "nil"@,
        SValue::Str(_) => "obj"@,
        SValue::Empty => "empty"@,
    }
}

/// How `print` shows a value: a string as its bare text.
pub open spec fn print_text(v: SValue) -> Seq<char> {
    match v {
        SValue::Number(n) => num_text(n),
        SValue::Bool(b) => if b { "true"@ } else { "false"@ },
        SValue::Nil => "nil"@,
        SValue::Str(s) => s,
        SValue::Empty => "EMPTY"@,
    }
}

/// The language's `==`: numbers by value, strings by content, no two values
/// of different types equal.
pub open spec fn values_equal(a: SValue, b: SValue) -> bool {
    match (a, b) {
        (SValue::Number(x), SValue::Number(y)) => spec_num_eq(x, y),
        (SValue::Bool(x), SValue::Bool(y)) => x == y,
        (SValue::Nil, SValue::Nil) => true,
        (SValue::Str(x), SValue::Str(y)) => x == y,
        _ => false,
    }
}

/// Relies on std's `Rc::clone`: a new handle to the same object.
#[verifier::external_body]
fn share_obj(o: &Rc<Obj>) -> (r: Rc<Obj>)
    ensures
        r == *o,
{
    Rc::clone(o)
}

impl Value {
    /// The name of the value's type.
    pub fn kind_name(&self) -> (r: &'static str)
        requires
            !(self@ is Empty),
        ensures
            r@ == kind_name_of(self@),
    {
        match self {
            Value::NUMBER { .. } => "double",
            Value::BOOL { .. } => "bool",
            Value::NIL => "nil",
            Value::OBJ { .. } => "obj",
            Value::EMPTY => "empty",
        }
    }

    pub fn is_string(&self) -> (r: bool)
        ensures
            r == (self@ is Str),
    {
        match self {
            Value::OBJ { data } => match &**data {
                Obj::Str { .. } => true,
            },
            _ => false,
        }
    }

    /// The text of a string value; `None` for every other value.
    pub fn as_string(&self) -> (r: Option<&str>)
        ensures
            match self@ {
                SValue::Str(s) => r is Some && r->0@ == s,
                _ => r is None,
            },
    {
        match self {
            Value::OBJ { data } => match &**data {
                Obj::Str { data: s } => Some(s.as_str()),
            },
            _ => None,
        }
    }

    pub fn create_string_obj(s: String) -> (r: Value)
        ensures
            r@ == SValue::Str(s@),
    {
        Value::OBJ { data: Rc::new(Obj::Str { data: s }) }
    }

    /// Appends what `print` shows for this value.
    pub fn push_print_text(&self, s: &mut String)
        ensures
            final(s)@ == old(s)@ + print_text(self@),
    {
        match self {
            Value::NUMBER { data } => data.push_text(s),
            Value::BOOL { data } => {
                if *data {
                    push_str(s, "true");
                } else {
                    push_str(s, "false");
                }
            },
            Value::NIL => push_str(s, "nil"),
            Value::OBJ { data } => match &**data {
                Obj::Str { data: t } => push_str(s, t.as_str()),
            },
            Value::EMPTY => push_str(s, "EMPTY"),
        }
    }

    /// What `print` shows for this value.
    pub fn print_string(&self) -> (r: String)
        ensures
            r@ == print_text(self@),
    {
        let mut s = String::new();
        self.push_print_text(&mut s);
        assert(s@ =~= print_text(self@));
        s
    }

    /// The language's `==` on two values.
    pub fn equals(&self, other: &Value) -> (r: bool)
        ensures
            r == values_equal(self@, other@),
    {
        match (self, other) {
            (Value::NUMBER { data: x }, Value::NUMBER { data: y }) => x.num_eq(*y),
            (Value::BOOL { data: x }, Value::BOOL { data: y }) => *x == *y,
            (Value::NIL, Value::NIL) => true,
            (Value::OBJ { data: x }, Value::OBJ { data: y }) => match (&**x, &**y) {
                (Obj::Str { data: s }, Obj::Str { data: t }) => *s == *t,
            },
            _ => false,
        }
    }

    /// Another handle to the same value; a string is shared, not copied.
    pub fn duplicate(&self) -> (r: Value)
        ensures
            r@ == self@,
    {
        match self {
            Value::NUMBER { data } => Value::NUMBER { data: *data },
            Value::BOOL { data } => Value::BOOL { data: *data },
            Value::NIL => Value::NIL,
            Value::OBJ { data } => Value::OBJ { data: share_obj(data) },
            Value::EMPTY => Value::EMPTY,
        }
    }
}

/// The constant pool of a chunk.
#[derive(Debug)]
pub struct ValueArray {
    pub data: Vec<Value>,
}

impl View for ValueArray {
    type V = Seq<SValue>;

    open spec fn view(&self) -> Seq<SValue> {
        self.data@.map_values(|v: Value| v@)
    }
}

impl ValueArray {
    /// Appends a constant and returns its index.
    pub fn add_constant(&mut self, value: Value) -> (r: usize)
        ensures
            final(self)@ == old(self)@.push(value@),
            r == old(self)@.len(),
    {
        self.data.push(value);
        proof {
            assert(final(self)@ =~= old(self)@.push(value@));
        }
        self.data.len() - 1
    }

    /// The constant at `idx`.
    pub fn read(&self, idx: usize) -> (r: Value)
        requires
            idx < self@.len(),
        ensures
            r@ == self@[idx as int],
    {
        self.data[idx].duplicate()
    }

    pub fn new() -> (r: ValueArray)
        ensures
            r@.len() == 0,
    {
        ValueArray { data: Vec::new() }
    }
}

} // verus!
