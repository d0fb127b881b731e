use lolang::chunk::Chunk;
use lolang::number::{
    number_equal, number_is_nan, number_is_zero, number_less, number_less_equal, number_negate,
    INFINITY_BITS, SIGN_BIT,
};
use lolang::table::Table;
use lolang::values::{
    Applied, Arithmetic, Comparison, DynamicSizeObject, GenericValue, RuntimeError, ValueArray,
};

fn samples() -> Vec<f64> {
    vec![
        0.0,
        -0.0,
        1.0,
        -1.0,
        0.5,
        -0.5,
        2.0,
        123.456,
        -123.456,
        5e-324,
        -5e-324,
        f64::MIN_POSITIVE,
        -f64::MIN_POSITIVE,
        f64::MAX,
        f64::MIN,
        f64::EPSILON,
        1e308,
        -1e308,
        f64::INFINITY,
        f64::NEG_INFINITY,
        f64::NAN,
        -f64::NAN,
        f64::from_bits(0x7FF0_0000_0000_0001),
        f64::from_bits(0xFFFF_FFFF_FFFF_FFFF),
        9007199254740993.0,
        0.1 + 0.2,
    ]
}

#[test]
fn the_bits_of_the_limits_are_those_of_the_standard() {
    assert_eq!(SIGN_BIT, (-0.0f64).to_bits());
    assert_eq!(INFINITY_BITS, f64::INFINITY.to_bits());
}

#[test]
fn order_and_equality_on_bits_are_those_of_double_precision() {
    for a in samples() {
        for b in samples() {
            let (x, y) = (a.to_bits(), b.to_bits());
            assert_eq!(number_equal(x, y), a == b, "{:?} == {:?}", a, b);
            assert_eq!(number_less(x, y), a < b, "{:?} < {:?}", a, b);
            assert_eq!(number_less_equal(x, y), a <= b, "{:?} <= {:?}", a, b);
        }
    }
}

#[test]
fn negation_zero_and_nan_on_bits_are_those_of_double_precision() {
    for a in samples() {
        let x = a.to_bits();
        assert_eq!(number_negate(x), (-a).to_bits(), "-{:?}", a);
        assert_eq!(number_is_zero(x), a == 0.0, "{:?}", a);
        assert_eq!(number_is_nan(x), a.is_nan(), "{:?}", a);
        assert_eq!(number_negate(number_negate(x)), x);
    }
    assert_eq!(number_negate(1.5f64.to_bits()), (-1.5f64).to_bits());
    assert_eq!(number_negate(0), SIGN_BIT);
    assert_eq!(number_negate(SIGN_BIT), 0);
}

fn number(x: f64) -> GenericValue {
    GenericValue::from_bits(x.to_bits())
}

fn text(s: &str) -> GenericValue {
    GenericValue::from_string(s.to_string())
}

fn one_of_each() -> Vec<GenericValue> {
    vec![
        GenericValue::from_bool(true),
        GenericValue::from_bool(false),
        number(0.0),
        number(1.0),
        text(""),
        text("1"),
        text("true"),
        GenericValue::from_none(),
    ]
}

#[test]
fn constructors_and_accessors_agree() {
    assert_eq!(GenericValue::from_bool(true).as_bool(), Some(true));
    assert_eq!(GenericValue::from_bool(false).as_bool(), Some(false));
    assert_eq!(number(2.5).as_number(), Some(2.5f64.to_bits()));
    assert_eq!(text("abc").as_string(), Some(String::from("abc")));
    assert_eq!(text("abc").as_object().unwrap().as_str(), "abc");
    let object = DynamicSizeObject::from_string(String::from("xyz"));
    assert_eq!(GenericValue::from_object(object).as_string(), Some(String::from("xyz")));
    assert!(matches!(GenericValue::from_none(), GenericValue::Nil));
    assert!(matches!(GenericValue::default(), GenericValue::Nil));

    assert_eq!(number(1.0).as_bool(), None);
    assert_eq!(text("true").as_bool(), None);
    assert_eq!(GenericValue::from_none().as_bool(), None);
    assert_eq!(GenericValue::from_bool(true).as_number(), None);
    assert_eq!(text("1").as_number(), None);
    assert_eq!(number(1.0).as_string(), None);
    assert_eq!(GenericValue::from_none().as_string(), None);
    assert!(number(1.0).as_object().is_none());
}

#[test]
fn a_copy_owns_its_own_string() {
    let first = text("abc");
    let second = first.clone();
    drop(first);
    assert_eq!(second.as_string(), Some(String::from("abc")));
    assert!(number(3.0).clone().equals(&number(3.0)));
}

#[test]
fn type_tags_and_display_forms() {
    assert_eq!(GenericValue::from_bool(true).get_type_as_str(), "bool");
    assert_eq!(number(1.0).get_type_as_str(), "number");
    assert_eq!(text("abc").get_type_as_str(), "string");
    assert_eq!(GenericValue::from_none().get_type_as_str(), "nil");

    assert_eq!(GenericValue::from_bool(true).to_text(), Some(String::from("true")));
    assert_eq!(GenericValue::from_bool(false).to_text(), Some(String::from("false")));
    assert_eq!(GenericValue::from_none().to_text(), Some(String::from("nil")));
    assert_eq!(text("foobar").to_text(), Some(String::from("foobar")));
    assert_eq!(text("").to_text(), Some(String::new()));
    assert_eq!(number(1.0).to_text(), None);
}

#[test]
fn values_of_different_types_are_never_equal() {
    let values = one_of_each();
    let tag = |v: &GenericValue| v.get_type_as_str();
    for a in &values {
        for b in &values {
            if tag(a) != tag(b) {
                assert!(!a.equals(b), "{:?} {:?}", a, b);
            }
        }
    }
    assert!(!number(1.0).equals(&text("1")));
    assert!(!GenericValue::from_bool(true).equals(&text("true")));
    assert!(!GenericValue::from_none().equals(&GenericValue::from_bool(false)));
    assert!(!number(0.0).equals(&GenericValue::from_none()));
}

#[test]
fn every_value_but_nan_equals_itself() {
    for v in one_of_each() {
        assert!(v.equals(&v.clone()), "{:?}", v);
    }
    assert!(!number(f64::NAN).equals(&number(f64::NAN)));
    assert!(number(0.0).equals(&number(-0.0)));
    assert!(!text("a").equals(&text("b")));
    assert!(!GenericValue::from_bool(true).equals(&GenericValue::from_bool(false)));
    assert!(!number(1.0).equals(&number(2.0)));
}

fn error_of(applied: Applied) -> String {
    match applied {
        Applied::Error(e) => e.message(),
        other => panic!("{:?}", other),
    }
}

#[test]
fn arithmetic_on_two_numbers_is_handed_to_the_host() {
    for op in [Arithmetic::Add, Arithmetic::Subtract, Arithmetic::Multiply, Arithmetic::Divide] {
        match number(6.0).apply(op, &number(1.5)) {
            Applied::Numbers(o, a, b) => {
                assert_eq!(o, op);
                assert_eq!(a, 6.0f64.to_bits());
                assert_eq!(b, 1.5f64.to_bits());
            }
            other => panic!("{:?}", other),
        }
    }
    // only the divisor counts for a division by zero
    assert!(matches!(number(0.0).apply(Arithmetic::Divide, &number(2.0)), Applied::Numbers(..)));
    assert!(matches!(number(0.0).apply(Arithmetic::Multiply, &number(0.0)), Applied::Numbers(..)));
    assert!(matches!(
        number(1.0).apply(Arithmetic::Divide, &number(f64::NAN)),
        Applied::Numbers(..)
    ));
}

#[test]
fn no_number_is_divided_by_zero() {
    for zero in [0.0, -0.0] {
        for dividend in [1.0, 0.0, -3.5, f64::INFINITY, f64::NAN] {
            assert_eq!(
                error_of(number(dividend).apply(Arithmetic::Divide, &number(zero))),
                "Invalid operation: could not divide by zero"
            );
        }
    }
}

#[test]
fn strings_are_joined_by_add_only() {
    match text("foo").apply(Arithmetic::Add, &text("bar")) {
        Applied::Value(v) => assert_eq!(v.as_string(), Some(String::from("foobar"))),
        other => panic!("{:?}", other),
    }
    for op in [Arithmetic::Subtract, Arithmetic::Multiply, Arithmetic::Divide] {
        assert_eq!(
            error_of(text("foo").apply(op, &text("bar"))),
            "Operation not supported for string and string"
        );
    }
}

#[test]
fn other_operands_are_a_type_error_that_names_both_types() {
    let values = one_of_each();
    for a in &values {
        for b in &values {
            let (ta, tb) = (a.get_type_as_str(), b.get_type_as_str());
            let fits = ta == tb && (ta == "number" || ta == "string");
            if !fits {
                for op in
                    [Arithmetic::Add, Arithmetic::Subtract, Arithmetic::Multiply, Arithmetic::Divide]
                {
                    assert_eq!(
                        error_of(a.apply(op, b)),
                        format!("Operation not supported for {} and {}", ta, tb)
                    );
                }
            }
        }
    }
}

#[test]
fn negation_and_logical_not() {
    assert_eq!(number(2.0).neg().unwrap().as_number(), Some((-2.0f64).to_bits()));
    assert_eq!(number(-0.0).neg().unwrap().as_number(), Some(0.0f64.to_bits()));
    assert_eq!(
        text("a").neg().unwrap_err().message(),
        "Operation not supported for string and string"
    );
    assert_eq!(
        GenericValue::from_none().neg().unwrap_err().message(),
        "Operation not supported for nil and nil"
    );
    assert_eq!(
        GenericValue::from_bool(true).neg().unwrap_err().message(),
        "Operation not supported for bool and bool"
    );

    assert_eq!(GenericValue::from_none().not().unwrap(), true);
    assert_eq!(GenericValue::from_bool(true).not().unwrap(), false);
    assert_eq!(GenericValue::from_bool(false).not().unwrap(), true);
    for v in [number(0.0), number(1.0), text(""), text("a")] {
        assert_eq!(
            v.not().unwrap_err().message(),
            "Invalid operation: ! is defined on booleans and nil only"
        );
    }
}

#[test]
fn comparisons_of_values() {
    assert_eq!(number(1.0).compare(Comparison::Less, &number(2.0)).unwrap(), true);
    assert_eq!(number(1.0).compare(Comparison::Greater, &number(2.0)).unwrap(), false);
    assert_eq!(number(2.0).compare(Comparison::LessEqual, &number(2.0)).unwrap(), true);
    assert_eq!(number(2.0).compare(Comparison::GreaterEqual, &number(2.5)).unwrap(), false);
    assert_eq!(number(3.0).compare(Comparison::Greater, &number(2.5)).unwrap(), true);
    for (op, sign) in [
        (Comparison::Greater, ">"),
        (Comparison::Less, "<"),
        (Comparison::GreaterEqual, ">="),
        (Comparison::LessEqual, "<="),
    ] {
        for (a, b) in [
            (text("a"), text("b")),
            (number(1.0), text("b")),
            (GenericValue::from_bool(true), GenericValue::from_bool(false)),
            (GenericValue::from_none(), number(1.0)),
        ] {
            assert_eq!(
                a.compare(op, &b).unwrap_err().message(),
                format!("Invalid operation:  {} not supported ", sign)
            );
        }
    }
}

#[test]
fn the_messages_of_errors() {
    assert_eq!(
        RuntimeError::UnsupportedOperation(String::from("a"), String::from("b")).message(),
        "Operation not supported for a and b"
    );
    assert_eq!(
        RuntimeError::InvalidOperation(String::from("why")).message(),
        "Invalid operation: why"
    );
    assert_eq!(
        RuntimeError::UndefinedGlobal(String::from("x")).message(),
        "undefined global variable :x"
    );
    let e = RuntimeError::UndefinedGlobal(String::from("x"));
    assert_eq!(e.clone().message(), e.message());
}

#[test]
fn objects_join_and_compare() {
    let a = DynamicSizeObject::from_string(String::from("ab"));
    let b = DynamicSizeObject::from_string(String::from("cd"));
    assert_eq!(a.concat(&b).as_str(), "abcd");
    assert_eq!(b.concat(&a).as_str(), "cdab");
    assert!(a.same(&a.clone()));
    assert!(!a.same(&b));
}

#[test]
fn a_value_array_counts_what_it_holds() {
    let mut array = ValueArray::new(vec![number(1.0)]);
    assert_eq!(array.count, 1);
    array.write_value_array(text("two"));
    assert_eq!(array.count, 2);
    assert_eq!(array.values.len(), 2);
    assert_eq!(array.values[1].as_string(), Some(String::from("two")));
    assert_eq!(array.values[0].as_number(), Some(1.0f64.to_bits()));
    let empty = ValueArray::default();
    assert_eq!(empty.count, 0);
    assert!(empty.values.is_empty());
}

#[test]
fn a_chunk_keeps_code_and_lines_in_step() {
    let mut chunk = Chunk::default();
    assert_eq!(chunk.count, 0);
    chunk.write_chunk(2, 10);
    chunk.write_chunk(0, 10);
    chunk.write_chunk(1, 11);
    assert_eq!(chunk.bytecode, vec![2, 0, 1]);
    assert_eq!(chunk.lines, vec![10, 10, 11]);
    assert_eq!(chunk.count, 3);
    assert_eq!(chunk.add_const(number(1.0)), 0);
    assert_eq!(chunk.add_const(text("a")), 1);
    assert_eq!(chunk.add_const(number(1.0)), 2);
    assert_eq!(chunk.const_pool.count, 3);
    assert_eq!(chunk.bytecode, vec![2, 0, 1]);

    let made = Chunk::new(vec![1, 1], ValueArray::new(vec![text("k")]), vec![3, 4]);
    assert_eq!(made.count, 2);
    assert_eq!(made.bytecode, vec![1, 1]);
    assert_eq!(made.lines, vec![3, 4]);
    assert_eq!(made.const_pool.values[0].as_string(), Some(String::from("k")));
}

#[test]
fn a_table_maps_names_to_values() {
    let mut table = Table::new();
    assert_eq!(table.len(), 0);
    assert!(table.get("x").is_none());
    assert!(!table.delete("x"));
    assert!(table.set(String::from("x"), number(1.0)));
    assert_eq!(table.get("x").unwrap().as_number(), Some(1.0f64.to_bits()));
    // a second binding overwrites and says that the name was known
    assert!(!table.set(String::from("x"), text("two")));
    assert_eq!(table.get("x").unwrap().as_string(), Some(String::from("two")));
    assert!(table.set(String::from("y"), GenericValue::from_none()));
    assert_eq!(table.len(), 2);
    assert!(table.delete("x"));
    assert_eq!(table.len(), 1);
    assert!(table.get("x").is_none());
    assert!(table.get("y").is_some());
    assert!(!table.delete("x"));
    assert!(Table::default().get("y").is_none());
}

#[test]
fn values_compare_with_the_equality_of_the_language() {
    assert!(number(1.0) == number(1.0));
    assert!(number(0.0) == number(-0.0));
    assert!(number(f64::NAN) != number(f64::NAN));
    assert!(number(1.0) != text("1"));
    assert!(text("a") == text("a"));
    assert!(text("a") != text("b"));
    assert!(GenericValue::from_none() == GenericValue::from_none());
    assert!(GenericValue::from_bool(true) != GenericValue::from_bool(false));
    assert!(
        DynamicSizeObject::from_string(String::from("x"))
            == DynamicSizeObject::from_string(String::from("x"))
    );
    let mut chunk = Chunk::default();
    chunk.write_chunk(2, 1);
    chunk.add_const(text("k"));
    let copy = chunk.clone();
    assert_eq!(copy, chunk);
    chunk.write_chunk(1, 1);
    assert_ne!(copy, chunk);
    assert_eq!(ValueArray::new(vec![number(2.0)]), ValueArray::new(vec![number(2.0)]));
}
