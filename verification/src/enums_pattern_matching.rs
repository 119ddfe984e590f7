//! Coins and optional values, taken apart by pattern matching.
use vstd::prelude::*;
use vstd::string::*;

verus! {

/// A state of the union that has its own quarter.
#[derive(Debug, Clone, Copy, PartialEq, Eq, Structural)]
pub enum UsState {
    Alabama,
    Alaska,
}

/// A coin.
#[derive(Debug, Clone, Copy, PartialEq, Eq, Structural)]
pub enum Coin {
    Peeny,
    Nickel,
    Dime,
    /// A quarter, with the state it was minted for.
    Quarter(UsState),
}

/// What a coin is worth, in cents.
pub open spec fn cents(coin: Coin) -> u8 {
    match coin {
        Coin::Peeny => 1,
        Coin::Nickel => 5,
        Coin::Dime => 10,
        Coin::Quarter(_) => 25,
    }
}

/// What `coin` is worth, in cents.
pub fn value_in_coin(coin: &Coin) -> (value: u8)
    ensures
        value == cents(*coin),
{
    match coin {
        Coin::Peeny => 1,
        Coin::Nickel => 5,
        Coin::Dime => 10,
        Coin::Quarter(_) => 25,
    }
}

/// Counts `coin` unless it is a quarter: 1 for a coin that is none, 0 for a
/// quarter.
pub fn count_in_coin(coin: &Coin) -> (count: i32)
    ensures
        count == if *coin is Quarter {
            0int
        } else {
            1int
        },
{
    let mut count: i32 = 0;
    if let Coin::Quarter(_) = coin {
    } else {
        count += 1;
    }
    count
}

/// The successor of the number in `x`, if there is a number. The successor
/// has to fit into an `i32`.
pub fn plus_one(x: Option<i32>) -> (y: Option<i32>)
    requires
        x is Some ==> x->0 < i32::MAX,
    ensures
        y == match x {
            None => None::<i32>,
            Some(i) => Some((i + 1) as i32),
        },
{
    match x {
        None => None,
        Some(i) => Some(i + 1),
    }
}

/// Appends `13233` to the string in `s`, if there is one, and hands the
/// string back for reading.
pub fn append_one(s: Option<&mut String>) -> (appended: Option<&String>)
    ensures
        s is None ==> appended is None,
        s is Some ==> appended is Some && appended->0@ == old(s->0)@ + "13233"@ && final(s->0)@
            == old(s->0)@ + "13233"@,
{
    match s {
        None => None,
        Some(s) => {
            s.append("13233");
            Some(s)
        },
    }
}

} // verus!
