use vstd::prelude::*;

verus! {

/// The closed set of logical column types the engine supports.
#[derive(Clone, Copy, Debug, PartialEq, Eq, Structural)]
pub enum LogicalType {
    /// An unsigned 64-bit integer.
    Unsigned,
    /// A signed 64-bit integer.
    Signed,
    /// A character string.
    Text,
    /// A boolean flag.
    Boolean,
    /// A byte string.
    Binary,
}

/// Mathematical model of a stored value.
pub enum ValueV {
    Unsigned(u64),
    Signed(i64),
    Text(Seq<char>),
    Boolean(bool),
    Binary(Seq<u8>),
    Null,
}

/// One concrete value held by a column of a row.
#[derive(Debug, PartialEq, Eq)]
pub enum Value {
    Unsigned(u64),
    Signed(i64),
    Text(String),
    Boolean(bool),
    Binary(Vec<u8>),
    Null,
}

impl View for Value {
    type V = ValueV;

    open spec fn view(&self) -> ValueV {
        match self {
            Value::Unsigned(n) => ValueV::Unsigned(*n),
            Value::Signed(n) => ValueV::Signed(*n),
            Value::Text(s) => ValueV::Text(s@),
            Value::Boolean(b) => ValueV::Boolean(*b),
            Value::Binary(bs) => ValueV::Binary(bs@),
            Value::Null => ValueV::Null,
        }
    }
}

/// Whether a (non-null) value inhabits a logical type.  `Null` inhabits no
/// type: nullability is judged separately against the column descriptor.
pub open spec fn value_has_type(v: ValueV, t: LogicalType) -> bool {
    match v {
        ValueV::Unsigned(_) => t == LogicalType::Unsigned,
        ValueV::Signed(_) => t == LogicalType::Signed,
        ValueV::Text(_) => t == LogicalType::Text,
        ValueV::Boolean(_) => t == LogicalType::Boolean,
        ValueV::Binary(_) => t == LogicalType::Binary,
        ValueV::Null => false,
    }
}

/// Whether a value may sit in a column of type `t` whose nullability flag is
/// `nullable`.
pub open spec fn value_fits(v: ValueV, t: LogicalType, nullable: bool) -> bool {
    (v == ValueV::Null && nullable) || value_has_type(v, t)
}

impl Value {
    /// Whether this value may sit in a column of type `t` with the given
    /// nullability flag.
    pub fn fits(&self, t: LogicalType, nullable: bool) -> (r: bool)
        ensures
            r == value_fits(self@, t, nullable),
    {
        match self {
            Value::Unsigned(_) => t == LogicalType::Unsigned,
            Value::Signed(_) => t == LogicalType::Signed,
            Value::Text(_) => t == LogicalType::Text,
            Value::Boolean(_) => t == LogicalType::Boolean,
            Value::Binary(_) => t == LogicalType::Binary,
            Value::Null => nullable,
        }
    }

    /// An equal copy of this value.
    pub fn duplicate(&self) -> (r: Value)
        ensures
            r@ == self@,
    {
        match self {
            Value::Unsigned(n) => Value::Unsigned(*n),
            Value::Signed(n) => Value::Signed(*n),
            Value::Text(s) => Value::Text(s.clone()),
            Value::Boolean(b) => Value::Boolean(*b),
            Value::Binary(bs) => Value::Binary(copy_bytes(bs)),
            Value::Null => Value::Null,
        }
    }
}

/// An element-wise copy of a byte vector.
fn copy_bytes(bs: &Vec<u8>) -> (r: Vec<u8>)
    ensures
        r@ == bs@,
{
    let mut out: Vec<u8> = Vec::new();
    let mut i: usize = 0;
    while i < bs.len()
        invariant
            i <= bs.len(),
            out@ == bs@.subrange(0, i as int),
        decreases bs.len() - i,
    {
        out.push(bs[i]);
        i = i + 1;
    }
    proof {
        assert(out@ == bs@.subrange(0, bs@.len() as int));
        assert(bs@.subrange(0, bs@.len() as int) =~= bs@);
    }
    out
}

} // verus!
