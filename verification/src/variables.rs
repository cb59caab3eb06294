//! Variables, shadowing, integer arithmetic and loops.

use crate::guessing_game::guess::{decimal_value, parse_number};
use vstd::prelude::*;

verus! {

/// Rebinds a variable three times over and measures a string of four blanks.
/// Returns the first value of the variable, its last value, and the length
/// of the string in bytes.
pub fn variables() -> (shown: (i32, i32, usize))
    ensures
        shown == (5i32, 24i32, 4usize),
{
    let x: i32 = 5;
    let first = x;
    let x: i32 = x + 1;
    let mut x: i32 = x * 2;
    x *= 2;
    let spaces = "    ";
    proof {
        reveal_strlit("    ");
        vstd::string::is_ascii_spec_bytes(spaces);
    }
    let spaces: usize = spaces.len();
    (first, x, spaces)
}

/// Reads the number forty-two out of its decimal form.
pub fn variable_type() -> (guess: u32)
    ensures
        guess == 42,
{
    proof {
        reveal_strlit("42");
        reveal_with_fuel(decimal_value, 3);
        assert("42"@.drop_last() =~= seq!['4']);
        assert(seq!['4'].drop_last() =~= Seq::<char>::empty());
    }
    let guess: u32 = parse_number("42").unwrap();
    guess
}

/// The four operations on integers: a sum, a product, a quotient that is
/// rounded towards zero, and a remainder.
pub fn operation() {
    let sum: i32 = 5 + 10;
    let product: i32 = 4 * 30;
    let floored: i32 = 2 / 3;
    let remainder: i32 = 43 % 5;
    assert(sum == 15 && product == 120 && floored == 0 && remainder == 3);
}

/// Always five.
pub fn hello() -> (n: i32)
    ensures
        n == 5,
{
    5
}

/// The number after `x`.
pub fn add_one(x: i32) -> (n: i32)
    requires
        x < i32::MAX,
    ensures
        n == x + 1,
{
    x + 1
}

/// Counts up to ten in a loop and leaves it with twice the count.
pub fn loop_value() -> (result: i32)
    ensures
        result == 20,
{
    let mut counter: i32 = 0;
    let mut result: i32 = 0;
    loop
        invariant_except_break
            0 <= counter < 10,
        ensures
            result == 20,
        decreases 10 - counter,
    {
        counter += 1;
        if counter == 10 {
            result = counter * 2;
            break ;
        }
    }
    result
}

/// Runs two loops, one inside the other, and leaves both at once from the
/// inner one. Returns the numbers it passes through, in order: after the
/// first step up, steps of two down to minus ten, which is met again once
/// both loops are left.
pub fn repetition() -> (shown: Vec<i32>)
    ensures
        shown@ == seq![2i32, 0i32, -2i32, -4i32, -6i32, -8i32, -10i32, -10i32],
{
    let mut shown: Vec<i32> = Vec::new();
    let mut i: i32 = 1;
    'outer: loop
        invariant_except_break
            i == 1,
            shown@.len() == 0,
        ensures
            i == -10,
            shown@.len() == 7,
            forall|k: int| 0 <= k < 7 ==> shown@[k] == 2 - 2 * k,
        decreases i,
    {
        i += 1;
        shown.push(i);
        loop
            invariant
                -10 < i <= 2,
                i % 2 == 0,
                shown@.len() == (2 - i) / 2 + 1,
                forall|k: int| 0 <= k < shown@.len() ==> shown@[k] == 2 - 2 * k,
            decreases i + 10,
        {
            i -= 2;
            // Minus five, at which the outer loop would start over, is never
            // met: the steps down go from even number to even number.
            assert(i != -5);
            shown.push(i);
            if i == -10 {
                break 'outer;
            }
        }
    }
    shown.push(i);
    assert(shown@ =~= seq![2i32, 0i32, -2i32, -4i32, -6i32, -8i32, -10i32, -10i32]);
    shown
}

/// The elements of an array of five, one after the other.
pub fn for_loop() -> (shown: Vec<i32>)
    ensures
        shown@ == seq![10i32, 20i32, 30i32, 40i32, 50i32],
{
    let a: [i32; 5] = [10, 20, 30, 40, 50];
    let mut shown: Vec<i32> = Vec::new();
    for index in 0..a.len()
        invariant
            shown@ == a@.take(index as int),
    {
        shown.push(a[index]);
        assert(a@.take(index as int).push(a@[index as int]) =~= a@.take(index + 1));
    }
    assert(shown@ =~= seq![10i32, 20i32, 30i32, 40i32, 50i32]);
    shown
}

/// Counts down from three to one, and then up from one to three.
pub fn range_loop() -> (shown: (Vec<i32>, Vec<i32>))
    ensures
        shown.0@ == seq![3i32, 2i32, 1i32],
        shown.1@ == seq![1i32, 2i32, 3i32],
{
    let mut down: Vec<i32> = Vec::new();
    let mut number: i32 = 4;
    while number > 1
        invariant
            1 <= number <= 4,
            down@.len() == 4 - number,
            forall|k: int| 0 <= k < down@.len() ==> down@[k] == 3 - k,
        decreases number,
    {
        number -= 1;
        down.push(number);
    }
    let mut up: Vec<i32> = Vec::new();
    for n in 1i32..4
        invariant
            up@.len() == n - 1,
            forall|k: int| 0 <= k < up@.len() ==> up@[k] == 1 + k,
    {
        up.push(n);
    }
    assert(down@ =~= seq![3i32, 2i32, 1i32]);
    assert(up@ =~= seq![1i32, 2i32, 3i32]);
    (down, up)
}

} // verus!
