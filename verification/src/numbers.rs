//! Numbers in text: decimal and hexadecimal.
use vstd::prelude::*;

verus! {

/// The digit for `d`, in bases up to sixteen.
pub open spec fn digit_of(d: nat) -> char {
    if d == 0 {
        '0'
    } else if d == 1 {
        '1'
    } else if d == 2 {
        '2'
    } else if d == 3 {
        '3'
    } else if d == 4 {
        '4'
    } else if d == 5 {
        '5'
    } else if d == 6 {
        '6'
    } else if d == 7 {
        '7'
    } else if d == 8 {
        '8'
    } else if d == 9 {
        '9'
    } else if d == 10 {
        'a'
    } else if d == 11 {
        'b'
    } else if d == 12 {
        'c'
    } else if d == 13 {
        'd'
    } else if d == 14 {
        'e'
    } else {
        'f'
    }
}

/// The digit for `d`, as a string.
fn digit(d: u32) -> (text: &'static str)
    requires
        d < 16,
    ensures
        text@ == seq![digit_of(d as nat)],
{
    proof {
        reveal_strlit("0");
        reveal_strlit("1");
        reveal_strlit("2");
        reveal_strlit("3");
        reveal_strlit("4");
        reveal_strlit("5");
        reveal_strlit("6");
        reveal_strlit("7");
        reveal_strlit("8");
        reveal_strlit("9");
        reveal_strlit("a");
        reveal_strlit("b");
        reveal_strlit("c");
        reveal_strlit("d");
        reveal_strlit("e");
        reveal_strlit("f");
    }
    match d {
        0 => "0",
        1 => "1",
        2 => "2",
        3 => "3",
        4 => "4",
        5 => "5",
        6 => "6",
        7 => "7",
        8 => "8",
        9 => "9",
        10 => "a",
        11 => "b",
        12 => "c",
        13 => "d",
        14 => "e",
        _ => "f",
    }
}

/// `n` in decimal, without leading zeros.
pub open spec fn decimal_of(n: nat) -> Seq<char>
    decreases n,
{
    if n < 10 {
        seq![digit_of(n)]
    } else {
        decimal_of(n / 10).push(digit_of(n % 10))
    }
}

/// Writes `n` in decimal.
pub fn decimal(n: u32) -> (text: String)
    ensures
        text@ == decimal_of(n as nat),
    decreases n,
{
    let last: &'static str = digit(n % 10);
    if n < 10 {
        last.to_owned()
    } else {
        decimal(n / 10).concat(last)
    }
}

/// The last `width` hexadecimal digits of `n`.
pub open spec fn hexadecimal_of(n: nat, width: nat) -> Seq<char>
    decreases width,
{
    if width == 0 {
        seq![]
    } else {
        hexadecimal_of(n / 16, (width - 1) as nat).push(digit_of(n % 16))
    }
}

/// Writes the last `width` hexadecimal digits of `n`.
pub fn hexadecimal(n: u32, width: u32) -> (text: String)
    ensures
        text@ == hexadecimal_of(n as nat, width as nat),
    decreases width,
{
    if width == 0 {
        String::new()
    } else {
        hexadecimal(n / 16, width - 1).concat(digit(n % 16))
    }
}

} // verus!
