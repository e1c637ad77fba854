//! Small verified helpers on integers: constants, sums, products, parity and
//! composed calls, each with an exact contract and proved free of overflow.

use vstd::prelude::*;

verus! {

/// Return the value five.
pub fn five() -> (r: i32)
    ensures
        r == 5,
{
    5
}

/// Add two numbers.
pub fn add(a: i32, b: i32) -> (r: i32)
    requires
        i32::MIN <= a + b <= i32::MAX,
    ensures
        r == a + b,
{
    a + b
}

/// Multiply two numbers.
pub fn multiply(a: i32, b: i32) -> (r: i32)
    requires
        i32::MIN <= a * b <= i32::MAX,
    ensures
        r == a * b,
{
    a * b
}

/// The value an expression evaluates to: forty-two.
pub fn expression_example() -> (r: i32)
    ensures
        r == 42,
{
    42
}

/// A statement evaluates to the unit value, whatever stands before the
/// semicolon.
pub fn statement_example() -> () {
    let _value: i32 = 42;
}

/// The area of a rectangle: width times height.
pub fn calculate_rectangle_area(width: i32, height: i32) -> (r: i32)
    requires
        i32::MIN <= width * height <= i32::MAX,
    ensures
        r == width * height,
{
    width * height
}

/// Whether a number is even.
pub fn check_even(number: i32) -> (r: bool)
    ensures
        r == (number % 2 == 0),
{
    if number % 2 == 0 {
        return true;
    }
    false
}

/// Multiply the first two numbers and add the third.
pub fn multiply_and_add(x: i32, y: i32, z: i32) -> (r: i32)
    requires
        i32::MIN <= x * y <= i32::MAX,
        i32::MIN <= x * y + z <= i32::MAX,
    ensures
        r == x * y + z,
{
    let product = multiply(x, y);
    crate::numbers::add(product, z)
}

/// Double a value, returned with an explicit return statement.
pub fn explicit_return_example(value: i32) -> (r: i32)
    requires
        i32::MIN <= value * 2 <= i32::MAX,
    ensures
        r == value * 2,
{
    return value * 2;
}

} // verus!
