//! Run-time values and what the operators of the language do to them.
//!
//! Arithmetic on two numbers is the one thing decided here but not carried
//! out here: rounding belongs to the floating-point unit of the host. The
//! functions of this file say which operation on which two numbers is
//! wanted, and everything else they compute themselves.
use crate::number::{
    is_zero, negated, number_eq, number_equal, number_is_zero, number_le, number_less,
    number_less_equal, number_lt, number_negate,
};
use crate::text::push_str_of;
use vstd::prelude::*;

verus! {

/// Why an operation could not be carried out.
#[derive(Debug)]
pub enum RuntimeError {
    /// The operator is not defined for operands of these two types.
    UnsupportedOperation(String, String),
    /// The operator is defined for the operands' types but not for their
    /// values, or cannot be applied at all.
    InvalidOperation(String),
    /// A global variable of this name was read or assigned before it was
    /// defined.
    UndefinedGlobal(String),
}

pub enum RuntimeErrorModel {
    UnsupportedOperation(Seq<char>, Seq<char>),
    InvalidOperation(Seq<char>),
    UndefinedGlobal(Seq<char>),
}

impl View for RuntimeError {
    type V = RuntimeErrorModel;

    open spec fn view(&self) -> RuntimeErrorModel {
        match self {
            RuntimeError::UnsupportedOperation(a, b) => RuntimeErrorModel::UnsupportedOperation(
                a@,
                b@,
            ),
            RuntimeError::InvalidOperation(m) => RuntimeErrorModel::InvalidOperation(m@),
            RuntimeError::UndefinedGlobal(n) => RuntimeErrorModel::UndefinedGlobal(n@),
        }
    }
}

/// The message shown for an error.
pub open spec fn error_message(e: RuntimeErrorModel) -> Seq<char> {
    match e {
        RuntimeErrorModel::UnsupportedOperation(a, b) => "Operation not supported for "@ + a
            + " and "@ + b,
        RuntimeErrorModel::InvalidOperation(m) => "Invalid operation: "@ + m,
        RuntimeErrorModel::UndefinedGlobal(n) => "undefined global variable :"@ + n,
    }
}

impl RuntimeError {
    /// The message shown for the error.
    pub fn message(&self) -> (out: String)
        ensures
            out@ == error_message(self@),
    {
        let mut out = String::new();
        match self {
            RuntimeError::UnsupportedOperation(a, b) => {
                out.append("Operation not supported for ");
                push_str_of(&mut out, a);
                out.append(" and ");
                push_str_of(&mut out, b);
            },
            RuntimeError::InvalidOperation(m) => {
                out.append("Invalid operation: ");
                push_str_of(&mut out, m);
            },
            RuntimeError::UndefinedGlobal(n) => {
                out.append("undefined global variable :");
                push_str_of(&mut out, n);
            },
        }
        assert(out@ =~= error_message(self@));
        out
    }
}

impl Clone for RuntimeError {
    fn clone(&self) -> (out: Self)
        ensures
            out@ == self@,
    {
        match self {
            RuntimeError::UnsupportedOperation(a, b) => RuntimeError::UnsupportedOperation(
                a.clone(),
                b.clone(),
            ),
            RuntimeError::InvalidOperation(m) => RuntimeError::InvalidOperation(m.clone()),
            RuntimeError::UndefinedGlobal(n) => RuntimeError::UndefinedGlobal(n.clone()),
        }
    }
}

/// What a heap object holds. Strings are the only objects so far.
#[derive(Debug)]
pub enum Value {
    StrValue(String),
}

/// A value that lives on the heap. Each one owns its payload: copying a
/// value copies the payload, and nothing is shared.
#[derive(Debug)]
pub struct DynamicSizeObject {
    value: Value,
}

impl DynamicSizeObject {
    /// The characters of the string that the object holds.
    pub closed spec fn text(&self) -> Seq<char> {
        match self.value {
            Value::StrValue(s) => s@,
        }
    }

    pub fn from_string(s: String) -> (out: DynamicSizeObject)
        ensures
            out.text() == s@,
    {
        DynamicSizeObject { value: Value::StrValue(s) }
    }

    /// The string that the object holds.
    pub fn as_str(&self) -> (out: &str)
        ensures
            out@ == self.text(),
    {
        match &self.value {
            Value::StrValue(s) => s.as_str(),
        }
    }

    /// The two strings, one after the other.
    pub fn concat(&self, rhs: &DynamicSizeObject) -> (out: DynamicSizeObject)
        ensures
            out.text() == self.text() + rhs.text(),
    {
        let mut joined = String::new();
        joined.append(self.as_str());
        joined.append(rhs.as_str());
        assert(joined@ =~= self.text() + rhs.text());
        DynamicSizeObject::from_string(joined)
    }

    /// Whether the two objects hold the same string.
    pub fn same(&self, other: &DynamicSizeObject) -> (out: bool)
        ensures
            out == (self.text() == other.text()),
    {
        match (&self.value, &other.value) {
            (Value::StrValue(a), Value::StrValue(b)) => *a == *b,
        }
    }
}

impl PartialEq for DynamicSizeObject {
    /// Whether the two objects hold the same string.
    fn eq(&self, other: &Self) -> (out: bool) {
        self.same(other)
    }
}

impl vstd::std_specs::cmp::PartialEqSpecImpl for DynamicSizeObject {
    open spec fn obeys_eq_spec() -> bool {
        true
    }

    open spec fn eq_spec(&self, other: &Self) -> bool {
        self.text() == other.text()
    }
}

impl Clone for DynamicSizeObject {
    fn clone(&self) -> (out: Self)
        ensures
            out.text() == self.text(),
    {
        match &self.value {
            Value::StrValue(s) => DynamicSizeObject { value: Value::StrValue(s.clone()) },
        }
    }
}

/// A value of the language.
#[derive(Debug)]
pub enum GenericValueType {
    Bool(bool),
    /// A number, as the 64 bits of an IEEE-754 double.
    Number(u64),
    Object(DynamicSizeObject),
    Nil,
}

pub type GenericValue = GenericValueType;

/// What a value is: a truth value, the bits of a number, the characters of
/// a string, or nothing.
pub enum ValueModel {
    Bool(bool),
    Number(u64),
    Text(Seq<char>),
    Nil,
}

impl View for GenericValueType {
    type V = ValueModel;

    open spec fn view(&self) -> ValueModel {
        match self {
            GenericValueType::Bool(b) => ValueModel::Bool(*b),
            GenericValueType::Number(n) => ValueModel::Number(*n),
            GenericValueType::Object(o) => ValueModel::Text(o.text()),
            GenericValueType::Nil => ValueModel::Nil,
        }
    }
}

impl Clone for GenericValueType {
    fn clone(&self) -> (out: Self)
        ensures
            out@ == self@,
    {
        match self {
            GenericValueType::Bool(b) => GenericValueType::Bool(*b),
            GenericValueType::Number(n) => GenericValueType::Number(*n),
            GenericValueType::Object(o) => GenericValueType::Object(o.clone()),
            GenericValueType::Nil => GenericValueType::Nil,
        }
    }
}

impl PartialEq for GenericValueType {
    /// `self == other` in the language.
    fn eq(&self, other: &Self) -> (out: bool) {
        self.equals(other)
    }
}

impl vstd::std_specs::cmp::PartialEqSpecImpl for GenericValueType {
    open spec fn obeys_eq_spec() -> bool {
        true
    }

    open spec fn eq_spec(&self, other: &Self) -> bool {
        values_equal(self@, other@)
    }
}

impl Default for GenericValueType {
    fn default() -> (out: Self)
        ensures
            out@ == ValueModel::Nil,
    {
        GenericValueType::Nil
    }
}

/// The name of the type of a value, as error messages give it.
pub open spec fn type_tag(v: ValueModel) -> Seq<char> {
    match v {
        ValueModel::Bool(_) => "bool"@,
        ValueModel::Number(_) => "number"@,
        ValueModel::Text(_) => "string"@,
        ValueModel::Nil => "nil"@,
    }
}

/// `a == b` in the language. Values of different types are never equal;
/// values of one type are equal when their payloads are, numbers by the
/// rules of IEEE-754.
pub open spec fn values_equal(a: ValueModel, b: ValueModel) -> bool {
    match (a, b) {
        (ValueModel::Bool(x), ValueModel::Bool(y)) => x == y,
        (ValueModel::Number(x), ValueModel::Number(y)) => number_eq(x, y),
        (ValueModel::Text(x), ValueModel::Text(y)) => x == y,
        (ValueModel::Nil, ValueModel::Nil) => true,
        _ => false,
    }
}

/// How a value is printed, for every value but a number: the decimal form of
/// a number is for the host to write.
pub open spec fn display_text(v: ValueModel) -> Option<Seq<char>> {
    match v {
        ValueModel::Bool(b) => Some(
            if b {
                "true"@
            } else {
                "false"@
            },
        ),
        ValueModel::Number(_) => None,
        ValueModel::Text(s) => Some(s),
        ValueModel::Nil => Some("nil"@),
    }
}

/// The four arithmetic operators.
#[derive(Clone, Copy, Debug, PartialEq, Eq, Structural)]
pub enum Arithmetic {
    Add,
    Subtract,
    Multiply,
    Divide,
}

/// The four order comparisons.
#[derive(Clone, Copy, Debug, PartialEq, Eq, Structural)]
pub enum Comparison {
    Greater,
    Less,
    GreaterEqual,
    LessEqual,
}

/// What applying an arithmetic operator to two values comes to.
#[derive(Debug)]
pub enum Applied {
    /// The result, where no rounding is involved.
    Value(GenericValue),
    /// Both operands are numbers and the operation is defined: the result is
    /// the number that IEEE-754 gives for the operator on these two, the
    /// left one first.
    Numbers(Arithmetic, u64, u64),
    /// The operation is not defined on the operands.
    Error(RuntimeError),
}

pub enum AppliedModel {
    Value(ValueModel),
    Numbers(Arithmetic, u64, u64),
    Error(RuntimeErrorModel),
}

impl View for Applied {
    type V = AppliedModel;

    open spec fn view(&self) -> AppliedModel {
        match self {
            Applied::Value(v) => AppliedModel::Value(v@),
            Applied::Numbers(op, a, b) => AppliedModel::Numbers(*op, *a, *b),
            Applied::Error(e) => AppliedModel::Error(e@),
        }
    }
}

/// The error for an operator applied to operands of the wrong types.
pub open spec fn type_error(lhs: ValueModel, rhs: ValueModel) -> RuntimeErrorModel {
    RuntimeErrorModel::UnsupportedOperation(type_tag(lhs), type_tag(rhs))
}

pub open spec fn division_by_zero() -> RuntimeErrorModel {
    RuntimeErrorModel::InvalidOperation("could not divide by zero"@)
}

/// `lhs op rhs`. Two numbers give a number, except that no number is divided
/// by zero; two strings can be added, which joins them; every other pair of
/// operands is a type error that names both types.
pub open spec fn applied(op: Arithmetic, lhs: ValueModel, rhs: ValueModel) -> AppliedModel {
    match (lhs, rhs) {
        (ValueModel::Number(a), ValueModel::Number(b)) => if op == Arithmetic::Divide && is_zero(
            b,
        ) {
            AppliedModel::Error(division_by_zero())
        } else {
            AppliedModel::Numbers(op, a, b)
        },
        (ValueModel::Text(a), ValueModel::Text(b)) => if op == Arithmetic::Add {
            AppliedModel::Value(ValueModel::Text(a + b))
        } else {
            AppliedModel::Error(type_error(lhs, rhs))
        },
        _ => AppliedModel::Error(type_error(lhs, rhs)),
    }
}

/// `-v`: defined on numbers only.
pub open spec fn negation(v: ValueModel) -> Result<ValueModel, RuntimeErrorModel> {
    match v {
        ValueModel::Number(n) => Ok(ValueModel::Number(negated(n))),
        _ => Err(type_error(v, v)),
    }
}

/// `!v`: defined on truth values and on nil, which counts as false.
pub open spec fn logical_not(v: ValueModel) -> Result<bool, RuntimeErrorModel> {
    match v {
        ValueModel::Nil => Ok(true),
        ValueModel::Bool(b) => Ok(!b),
        _ => Err(RuntimeErrorModel::InvalidOperation("! is defined on booleans and nil only"@)),
    }
}

/// How a comparison is written.
pub open spec fn comparison_sign(op: Comparison) -> Seq<char> {
    match op {
        Comparison::Greater => ">"@,
        Comparison::Less => "<"@,
        Comparison::GreaterEqual => ">="@,
        Comparison::LessEqual => "<="@,
    }
}

/// `lhs op rhs` for an order comparison: defined on two numbers only.
pub open spec fn compared(op: Comparison, lhs: ValueModel, rhs: ValueModel) -> Result<
    bool,
    RuntimeErrorModel,
> {
    match (lhs, rhs) {
        (ValueModel::Number(a), ValueModel::Number(b)) => Ok(
            match op {
                Comparison::Greater => number_lt(b, a),
                Comparison::Less => number_lt(a, b),
                Comparison::GreaterEqual => number_le(b, a),
                Comparison::LessEqual => number_le(a, b),
            },
        ),
        _ => Err(
            RuntimeErrorModel::InvalidOperation(" "@ + comparison_sign(op) + " not supported "@),
        ),
    }
}

impl GenericValueType {
    pub fn from_bool(value: bool) -> (out: GenericValue)
        ensures
            out@ == ValueModel::Bool(value),
    {
        GenericValueType::Bool(value)
    }

    /// The number with the given IEEE-754 bits.
    pub fn from_bits(value: u64) -> (out: GenericValue)
        ensures
            out@ == ValueModel::Number(value),
    {
        GenericValueType::Number(value)
    }

    pub fn from_none() -> (out: GenericValue)
        ensures
            out@ == ValueModel::Nil,
    {
        GenericValueType::Nil
    }

    pub fn from_string(value: String) -> (out: GenericValue)
        ensures
            out@ == ValueModel::Text(value@),
    {
        GenericValueType::Object(DynamicSizeObject::from_string(value))
    }

    pub fn from_object(value: DynamicSizeObject) -> (out: GenericValue)
        ensures
            out@ == ValueModel::Text(value.text()),
    {
        GenericValueType::Object(value)
    }

    pub fn as_bool(&self) -> (out: Option<bool>)
        ensures
            out == match self@ {
                ValueModel::Bool(b) => Some(b),
                _ => None,
            },
    {
        match self {
            GenericValueType::Bool(value) => Some(*value),
            _ => None,
        }
    }

    /// The IEEE-754 bits of the value, if it is a number.
    pub fn as_number(&self) -> (out: Option<u64>)
        ensures
            out == match self@ {
                ValueModel::Number(n) => Some(n),
                _ => None,
            },
    {
        match self {
            GenericValueType::Number(value) => Some(*value),
            _ => None,
        }
    }

    pub fn as_string(&self) -> (out: Option<String>)
        ensures
            match self@ {
                ValueModel::Text(s) => out.is_some() && out.unwrap()@ == s,
                _ => out.is_none(),
            },
    {
        match self {
            GenericValueType::Object(o) => {
                let mut s = String::new();
                s.append(o.as_str());
                assert(s@ =~= o.text());
                Some(s)
            },
            _ => None,
        }
    }

    pub fn as_object(&self) -> (out: Option<DynamicSizeObject>)
        ensures
            match self@ {
                ValueModel::Text(s) => out.is_some() && out.unwrap().text() == s,
                _ => out.is_none(),
            },
    {
        match self {
            GenericValueType::Object(o) => Some(o.clone()),
            _ => None,
        }
    }

    /// The name of the value's type.
    pub fn get_type_as_str(&self) -> (out: String)
        ensures
            out@ == type_tag(self@),
    {
        let mut out = String::new();
        match self {
            GenericValueType::Bool(_) => out.append("bool"),
            GenericValueType::Number(_) => out.append("number"),
            GenericValueType::Object(_) => out.append("string"),
            GenericValueType::Nil => out.append("nil"),
        }
        assert(out@ =~= type_tag(self@));
        out
    }

    /// How the value is printed; `None` for a number.
    pub fn to_text(&self) -> (out: Option<String>)
        ensures
            match display_text(self@) {
                Some(s) => out.is_some() && out.unwrap()@ == s,
                None => out.is_none(),
            },
    {
        let mut out = String::new();
        match self {
            GenericValueType::Bool(b) => {
                if *b {
                    out.append("true");
                } else {
                    out.append("false");
                }
            },
            GenericValueType::Number(_) => {
                return None;
            },
            GenericValueType::Object(o) => out.append(o.as_str()),
            GenericValueType::Nil => out.append("nil"),
        }
        assert(display_text(self@).is_some() && out@ =~= display_text(self@).unwrap());
        Some(out)
    }

    /// `self == other` in the language.
    pub fn equals(&self, other: &GenericValue) -> (out: bool)
        ensures
            out == values_equal(self@, other@),
    {
        match (self, other) {
            (GenericValueType::Number(v1), GenericValueType::Number(v2)) => number_equal(*v1, *v2),
            (GenericValueType::Bool(b1), GenericValueType::Bool(b2)) => *b1 == *b2,
            (GenericValueType::Object(o1), GenericValueType::Object(o2)) => o1.same(o2),
            (GenericValueType::Nil, GenericValueType::Nil) => true,
            _ => false,
        }
    }

    /// `self op other`, with `self` on the left.
    pub fn apply(&self, op: Arithmetic, other: &GenericValue) -> (out: Applied)
        ensures
            out@ == applied(op, self@, other@),
    {
        match (self, other) {
            (GenericValueType::Number(lhs), GenericValueType::Number(rhs)) => {
                if op == Arithmetic::Divide && number_is_zero(*rhs) {
                    let mut why = String::new();
                    why.append("could not divide by zero");
                    assert(why@ =~= "could not divide by zero"@);
                    Applied::Error(RuntimeError::InvalidOperation(why))
                } else {
                    Applied::Numbers(op, *lhs, *rhs)
                }
            },
            (GenericValueType::Object(o1), GenericValueType::Object(o2)) => {
                if op == Arithmetic::Add {
                    Applied::Value(GenericValueType::Object(o1.concat(o2)))
                } else {
                    Applied::Error(
                        RuntimeError::UnsupportedOperation(
                            self.get_type_as_str(),
                            other.get_type_as_str(),
                        ),
                    )
                }
            },
            _ => Applied::Error(
                RuntimeError::UnsupportedOperation(self.get_type_as_str(), other.get_type_as_str()),
            ),
        }
    }

    /// `-self`.
    pub fn neg(&self) -> (out: Result<GenericValue, RuntimeError>)
        ensures
            match negation(self@) {
                Ok(v) => out.is_ok() && out.unwrap()@ == v,
                Err(e) => out.is_err() && out.unwrap_err()@ == e,
            },
    {
        match self {
            GenericValueType::Number(value) => Ok(GenericValueType::Number(number_negate(*value))),
            _ => Err(
                RuntimeError::UnsupportedOperation(self.get_type_as_str(), self.get_type_as_str()),
            ),
        }
    }

    /// `!self`.
    pub fn not(&self) -> (out: Result<bool, RuntimeError>)
        ensures
            match logical_not(self@) {
                Ok(b) => out == Ok::<bool, RuntimeError>(b),
                Err(e) => out.is_err() && out.unwrap_err()@ == e,
            },
    {
        match self {
            GenericValueType::Nil => Ok(true),
            GenericValueType::Bool(b) => Ok(!*b),
            _ => {
                let mut why = String::new();
                why.append("! is defined on booleans and nil only");
                assert(why@ =~= "! is defined on booleans and nil only"@);
                Err(RuntimeError::InvalidOperation(why))
            },
        }
    }

    /// `self op other` for an order comparison, with `self` on the left.
    pub fn compare(&self, op: Comparison, other: &GenericValue) -> (out: Result<
        bool,
        RuntimeError,
    >)
        ensures
            match compared(op, self@, other@) {
                Ok(b) => out == Ok::<bool, RuntimeError>(b),
                Err(e) => out.is_err() && out.unwrap_err()@ == e,
            },
    {
        match (self, other) {
            (GenericValueType::Number(a), GenericValueType::Number(b)) => Ok(
                match op {
                    Comparison::Greater => number_less(*b, *a),
                    Comparison::Less => number_less(*a, *b),
                    Comparison::GreaterEqual => number_less_equal(*b, *a),
                    Comparison::LessEqual => number_less_equal(*a, *b),
                },
            ),
            _ => {
                let mut why = String::new();
                why.append(" ");
                why.append(
                    match op {
                        Comparison::Greater => ">",
                        Comparison::Less => "<",
                        Comparison::GreaterEqual => ">=",
                        Comparison::LessEqual => "<=",
                    },
                );
                why.append(" not supported ");
                assert(why@ =~= " "@ + comparison_sign(op) + " not supported "@);
                Err(RuntimeError::InvalidOperation(why))
            },
        }
    }
}

/// The views of the values in `values`.
pub open spec fn value_models(values: Seq<GenericValue>) -> Seq<ValueModel> {
    Seq::new(values.len(), |i: int| values[i]@)
}

/// A growable array of values that keeps count of them.
#[derive(Clone, Debug, PartialEq)]
pub struct ValueArray {
    pub values: Vec<GenericValue>,
    pub count: usize,
}

impl View for ValueArray {
    type V = Seq<ValueModel>;

    open spec fn view(&self) -> Seq<ValueModel> {
        value_models(self.values@)
    }
}

impl ValueArray {
    /// The count is the number of values held.
    pub open spec fn wf(&self) -> bool {
        self.count == self.values@.len()
    }

    pub fn new(values: Vec<GenericValue>) -> (out: ValueArray)
        ensures
            out.wf(),
            out@ == value_models(values@),
    {
        ValueArray { count: values.len(), values }
    }

    /// Appends `value`.
    pub fn write_value_array(&mut self, value: GenericValue)
        requires
            old(self).wf(),
        ensures
            final(self).wf(),
            final(self)@ == old(self)@.push(value@),
    {
        self.values.push(value);
        self.count = self.values.len();
        assert(self@ =~= old(self)@.push(value@));
    }
}

impl Default for ValueArray {
    fn default() -> (out: Self)
        ensures
            out.wf(),
            out@ == Seq::<ValueModel>::empty(),
    {
        let out = ValueArray { values: Vec::new(), count: 0 };
        assert(out@ =~= Seq::<ValueModel>::empty());
        out
    }
}

} // verus!
