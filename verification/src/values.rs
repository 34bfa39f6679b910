use vstd::prelude::*;

verus! {

/// A fixed-point numeric literal: an integral part and a fractional part.
#[derive(Clone, Copy, Debug, PartialEq, Eq, Structural)]
pub struct Real {
    pub integral: i32,
    pub fractional: i32,
}

/// A literal appearing in a statement's syntax tree.
#[derive(Debug)]
pub enum Literal {
    Null,
    Integer(i64),
    UnsignedInteger(u64),
    FixedPoint(Real),
    String(String),
    Blob(Vec<u8>),
    CurrentTime,
    CurrentDate,
    CurrentTimestamp,
    Placeholder,
}

/// The mathematical model of a `Literal`: strings and blobs are taken to
/// their abstract contents.
pub enum LiteralV {
    Null,
    Integer(i64),
    UnsignedInteger(u64),
    FixedPoint(Real),
    String(Seq<char>),
    Blob(Seq<u8>),
    CurrentTime,
    CurrentDate,
    CurrentTimestamp,
    Placeholder,
}

impl View for Literal {
    type V = LiteralV;

    open spec fn view(&self) -> LiteralV {
        match self {
            Literal::Null => LiteralV::Null,
            Literal::Integer(i) => LiteralV::Integer(*i),
            Literal::UnsignedInteger(u) => LiteralV::UnsignedInteger(*u),
            Literal::FixedPoint(r) => LiteralV::FixedPoint(*r),
            Literal::String(s) => LiteralV::String(s@),
            Literal::Blob(b) => LiteralV::Blob(b@),
            Literal::CurrentTime => LiteralV::CurrentTime,
            Literal::CurrentDate => LiteralV::CurrentDate,
            Literal::CurrentTimestamp => LiteralV::CurrentTimestamp,
            Literal::Placeholder => LiteralV::Placeholder,
        }
    }
}

/// A typed value in the backend's primitive domain.
#[derive(Debug)]
pub enum Value {
    Null,
    Int(i64),
    UInt(u64),
    Numeric(Real),
    Text(String),
    Bytes(Vec<u8>),
}

/// The mathematical model of a `Value`.
pub enum ValueV {
    Null,
    Int(i64),
    UInt(u64),
    Numeric(Real),
    Text(Seq<char>),
    Bytes(Seq<u8>),
}

impl View for Value {
    type V = ValueV;

    open spec fn view(&self) -> ValueV {
        match self {
            Value::Null => ValueV::Null,
            Value::Int(i) => ValueV::Int(*i),
            Value::UInt(u) => ValueV::UInt(*u),
            Value::Numeric(r) => ValueV::Numeric(*r),
            Value::Text(s) => ValueV::Text(s@),
            Value::Bytes(b) => ValueV::Bytes(b@),
        }
    }
}

/// The value a literal converts to, or `None` for the literal shapes that
/// carry no value (placeholders and the current-time markers).
pub open spec fn lit_value(l: LiteralV) -> Option<ValueV> {
    match l {
        LiteralV::Null => Some(ValueV::Null),
        LiteralV::Integer(i) => Some(ValueV::Int(i)),
        LiteralV::UnsignedInteger(u) => Some(ValueV::UInt(u)),
        LiteralV::FixedPoint(r) => Some(ValueV::Numeric(r)),
        LiteralV::String(s) => Some(ValueV::Text(s)),
        LiteralV::Blob(b) => Some(ValueV::Bytes(b)),
        _ => None,
    }
}

/// Converts a literal syntax node into a backend value; placeholders and
/// current-time markers have no value.
pub fn value_of_literal(l: &Literal) -> (r: Option<Value>)
    ensures
        match r {
            Some(v) => lit_value(l@) == Some(v@),
            None => lit_value(l@) is None,
        },
{
    match l {
        Literal::Null => Some(Value::Null),
        Literal::Integer(i) => Some(Value::Int(*i)),
        Literal::UnsignedInteger(u) => Some(Value::UInt(*u)),
        Literal::FixedPoint(r) => Some(Value::Numeric(*r)),
        Literal::String(s) => Some(Value::Text(s.clone())),
        Literal::Blob(b) => Some(Value::Bytes(clone_bytes(b))),
        _ => None,
    }
}

/// Copies a byte vector element by element.
pub fn clone_bytes(b: &Vec<u8>) -> (r: Vec<u8>)
    ensures
        r@ == b@,
{
    let mut out: Vec<u8> = Vec::new();
    let mut i: usize = 0;
    while i < b.len()
        invariant
            i <= b.len(),
            out@ == b@.subrange(0, i as int),
        decreases b.len() - i,
    {
        out.push(b[i]);
        i = i + 1;
        proof {
            assert(out@ =~= b@.subrange(0, i as int));
        }
    }
    proof {
        assert(out@ =~= b@);
    }
    out
}

/// Compares two byte vectors by contents.
pub fn bytes_eq(a: &Vec<u8>, b: &Vec<u8>) -> (r: bool)
    ensures
        r == (a@ == b@),
{
    if a.len() != b.len() {
        return false;
    }
    let mut i: usize = 0;
    while i < a.len()
        invariant
            i <= a.len(),
            a@.len() == b@.len(),
            forall|j: int| 0 <= j < i ==> a@[j] == b@[j],
        decreases a.len() - i,
    {
        if a[i] != b[i] {
            return false;
        }
        i = i + 1;
    }
    proof {
        assert(a@ =~= b@);
    }
    true
}

/// Copies a value.
pub fn clone_value(v: &Value) -> (r: Value)
    ensures
        r@ == v@,
{
    match v {
        Value::Null => Value::Null,
        Value::Int(i) => Value::Int(*i),
        Value::UInt(u) => Value::UInt(*u),
        Value::Numeric(x) => Value::Numeric(*x),
        Value::Text(s) => Value::Text(s.clone()),
        Value::Bytes(b) => Value::Bytes(clone_bytes(b)),
    }
}

/// Compares two values structurally.
pub fn value_eq(a: &Value, b: &Value) -> (r: bool)
    ensures
        r == (a@ == b@),
{
    match a {
        Value::Null => match b {
            Value::Null => true,
            _ => false,
        },
        Value::Int(x) => match b {
            Value::Int(y) => *x == *y,
            _ => false,
        },
        Value::UInt(x) => match b {
            Value::UInt(y) => *x == *y,
            _ => false,
        },
        Value::Numeric(x) => match b {
            Value::Numeric(y) => x.integral == y.integral && x.fractional == y.fractional,
            _ => false,
        },
        Value::Text(x) => match b {
            Value::Text(y) => x.eq(y),
            _ => false,
        },
        Value::Bytes(x) => match b {
            Value::Bytes(y) => bytes_eq(x, y),
            _ => false,
        },
    }
}

/// Copies a literal syntax node.
pub fn clone_literal(l: &Literal) -> (r: Literal)
    ensures
        r@ == l@,
{
    match l {
        Literal::Null => Literal::Null,
        Literal::Integer(i) => Literal::Integer(*i),
        Literal::UnsignedInteger(u) => Literal::UnsignedInteger(*u),
        Literal::FixedPoint(r) => Literal::FixedPoint(*r),
        Literal::String(s) => Literal::String(s.clone()),
        Literal::Blob(b) => Literal::Blob(clone_bytes(b)),
        Literal::CurrentTime => Literal::CurrentTime,
        Literal::CurrentDate => Literal::CurrentDate,
        Literal::CurrentTimestamp => Literal::CurrentTimestamp,
        Literal::Placeholder => Literal::Placeholder,
    }
}

/// Compares two literal syntax nodes structurally.
pub fn literal_eq(a: &Literal, b: &Literal) -> (r: bool)
    ensures
        r == (a@ == b@),
{
    match a {
        Literal::Null => match b {
            Literal::Null => true,
            _ => false,
        },
        Literal::Integer(x) => match b {
            Literal::Integer(y) => *x == *y,
            _ => false,
        },
        Literal::UnsignedInteger(x) => match b {
            Literal::UnsignedInteger(y) => *x == *y,
            _ => false,
        },
        Literal::FixedPoint(x) => match b {
            Literal::FixedPoint(y) => x.integral == y.integral && x.fractional == y.fractional,
            _ => false,
        },
        Literal::String(x) => match b {
            Literal::String(y) => x.eq(y),
            _ => false,
        },
        Literal::Blob(x) => match b {
            Literal::Blob(y) => bytes_eq(x, y),
            _ => false,
        },
        Literal::CurrentTime => match b {
            Literal::CurrentTime => true,
            _ => false,
        },
        Literal::CurrentDate => match b {
            Literal::CurrentDate => true,
            _ => false,
        },
        Literal::CurrentTimestamp => match b {
            Literal::CurrentTimestamp => true,
            _ => false,
        },
        Literal::Placeholder => match b {
            Literal::Placeholder => true,
            _ => false,
        },
    }
}

/// The model of a vector of values.
pub open spec fn values_view(s: Seq<Value>) -> Seq<ValueV> {
    Seq::new(s.len(), |i: int| s[i]@)
}

/// A relative arithmetic operation on a stored column value.
#[derive(Clone, Copy, Debug, PartialEq, Eq, Structural)]
pub enum Operation {
    Add,
    Sub,
}

/// One field mutation of an `UPDATE`: an absolute assignment or a relative
/// adjustment of the stored value.
#[derive(Debug)]
pub enum Modification {
    Assign(Value),
    Apply(Operation, Value),
}

/// The mathematical model of a `Modification`.
pub enum ModificationV {
    Assign(ValueV),
    Apply(Operation, ValueV),
}

impl View for Modification {
    type V = ModificationV;

    open spec fn view(&self) -> ModificationV {
        match self {
            Modification::Assign(v) => ModificationV::Assign(v@),
            Modification::Apply(op, v) => ModificationV::Apply(*op, v@),
        }
    }
}

/// Tests whether a literal is the positional placeholder marker.
pub fn literal_is_placeholder(l: &Literal) -> (r: bool)
    ensures
        r == (l@ is Placeholder),
{
    match l {
        Literal::Placeholder => true,
        _ => false,
    }
}

} // verus!
