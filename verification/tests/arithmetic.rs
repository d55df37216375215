use calculator_rag::num::Num;
use calculator_rag::tools::{Add, Divide, MathError, Multiply, OperationArgs, Subtract};

fn num(hundredths: i64) -> Num {
    Num { hundredths }
}

#[test]
fn add_whole_numbers() {
    let r = Add.call(OperationArgs { x: num(200), y: num(300) });
    assert_eq!(r, Ok(num(500)));
}

#[test]
fn add_fractions_exact() {
    let r = Add.call(OperationArgs { x: num(125), y: num(250) });
    assert_eq!(r, Ok(num(375)));
}

#[test]
fn add_overflow_is_math_error() {
    let r = Add.call(OperationArgs { x: num(i64::MAX), y: num(1) });
    assert_eq!(r, Err(MathError));
}

#[test]
fn subtract_five_minus_two() {
    let r = Subtract.call(OperationArgs { x: num(500), y: num(200) });
    assert_eq!(r, Ok(num(300)));
}

#[test]
fn subtract_negative_result() {
    let r = Subtract.call(OperationArgs { x: num(200), y: num(500) });
    assert_eq!(r, Ok(num(-300)));
}

#[test]
fn multiply_exact_two_decimals() {
    // 1.50 * 1.50 = 2.25 exactly
    let r = Multiply.call(OperationArgs { x: num(150), y: num(150) });
    assert_eq!(r, Ok(num(225)));
}

#[test]
fn multiply_rounds_half_away_from_zero() {
    // 0.25 * 0.50 = 0.125 -> 0.13
    let r = Multiply.call(OperationArgs { x: num(25), y: num(50) });
    assert_eq!(r, Ok(num(13)));
}

#[test]
fn multiply_rounds_half_away_from_zero_negative() {
    // -0.25 * 0.50 = -0.125 -> -0.13
    let r = Multiply.call(OperationArgs { x: num(-25), y: num(50) });
    assert_eq!(r, Ok(num(-13)));
}

#[test]
fn multiply_rounds_below_half_down() {
    // 0.11 * 0.11 = 0.0121 -> 0.01
    let r = Multiply.call(OperationArgs { x: num(11), y: num(11) });
    assert_eq!(r, Ok(num(1)));
}

#[test]
fn divide_exact() {
    // 5.00 / 2.00 = 2.50
    let r = Divide.call(OperationArgs { x: num(500), y: num(200) });
    assert_eq!(r, Ok(num(250)));
}

#[test]
fn divide_rounds_to_two_decimals() {
    // 1.00 / 3.00 = 0.333... -> 0.33
    let r = Divide.call(OperationArgs { x: num(100), y: num(300) });
    assert_eq!(r, Ok(num(33)));
}

#[test]
fn divide_five_by_ten() {
    // (2 + 3) / 10 = 0.50
    let sum = Add.call(OperationArgs { x: num(200), y: num(300) }).unwrap();
    let r = Divide.call(OperationArgs { x: sum, y: num(1000) });
    assert_eq!(r, Ok(num(50)));
}

#[test]
fn divide_negative_rounds_away() {
    // -1.00 / 3.00 = -0.333... -> -0.33; -0.50 / 3.00 = -0.1666 -> -0.17
    assert_eq!(Divide.call(OperationArgs { x: num(-100), y: num(300) }), Ok(num(-33)));
    assert_eq!(Divide.call(OperationArgs { x: num(-50), y: num(300) }), Ok(num(-17)));
}

#[test]
fn divide_by_zero_is_always_a_math_error() {
    // The chosen, documented policy: a domain error, the same on every call.
    for _ in 0..3 {
        let r = Divide.call(OperationArgs { x: num(500), y: num(0) });
        assert_eq!(r, Err(MathError));
    }
    let r = Divide.call(OperationArgs { x: num(0), y: num(0) });
    assert_eq!(r, Err(MathError));
}

#[test]
fn rounding_is_idempotent_on_results() {
    // A result is already at two decimals: adding zero re-normalizes and
    // must change nothing.
    let p = Multiply.call(OperationArgs { x: num(25), y: num(50) }).unwrap();
    let again = Add.call(OperationArgs { x: p, y: num(0) }).unwrap();
    assert_eq!(again, p);
}

#[test]
fn definitions_advertise_the_wire_schema() {
    let d = Add.definition();
    assert_eq!(d.name, "add");
    assert_eq!(d.description, "Add x and y together");
    assert_eq!(d.parameters.len(), 2);
    assert_eq!(d.parameters[0].name, "x");
    assert_eq!(d.parameters[0].kind, "number");
    assert_eq!(d.parameters[1].name, "y");
    let d = Subtract.definition();
    assert_eq!(d.name, "subtract");
    assert_eq!(d.parameters[0].description, "The number to subtract from");
    let d = Multiply.definition();
    assert_eq!(d.name, "multiply");
    assert_eq!(d.description, "Compute the product of x and y (i.e.: x * y)");
    let d = Divide.definition();
    assert_eq!(d.name, "divide");
    assert_eq!(d.parameters[1].kind, "number");
}
