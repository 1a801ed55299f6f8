//! Keys, seeds and payloads as text.

use vstd::prelude::*;
use vstd::string::StringExecFns;
use crate::hash::{HashKey, HashSeed};
use crate::item::{ItemType, ItemValue};

verus! {

/// The character of the digit `d`.
pub open spec fn digit(d: nat) -> char {
    if d == 0 {
        '0'
    } else if d == 1 {
        '1'
    } else if d == 2 {
        '2'
    } else if d == 3 {
        '3'
    } else if d == 4 {
        '4'
    } else if d == 5 {
        '5'
    } else if d == 6 {
        '6'
    } else if d == 7 {
        '7'
    } else if d == 8 {
        '8'
    } else {
        '9'
    }
}

/// The decimal digits of `n`, without leading zeros.
pub open spec fn decimal(n: nat) -> Seq<char>
    decreases n,
{
    if n < 10 {
        seq![digit(n)]
    } else {
        decimal(n / 10).push(digit(n % 10))
    }
}

/// The decimal digits of `x`, after a minus sign where `x` is negative.
pub open spec fn signed_decimal(x: int) -> Seq<char> {
    if x < 0 {
        seq!['-'] + decimal((-x) as nat)
    } else {
        decimal(x as nat)
    }
}

/// A string between double quotes, as it stands.
pub open spec fn quoted(s: Seq<char>) -> Seq<char> {
    seq!['"'] + s + seq!['"']
}

impl HashKey {
    /// The key as text: its value in decimal digits.
    pub open spec fn text(self) -> Seq<char> {
        match self {
            HashKey::Bits32(x) => decimal(x as nat),
            HashKey::Bits64(x) => decimal(x as nat),
        }
    }

    /// The value in decimal digits.
    pub fn to_string(&self) -> (s: String)
        ensures
            s@ == self.text(),
    {
        match self {
            HashKey::Bits32(x) => decimal_string(*x as u128),
            HashKey::Bits64(x) => decimal_string(*x as u128),
        }
    }
}

impl HashSeed {
    /// The seed as text: its value in decimal digits.
    pub open spec fn text(self) -> Seq<char> {
        match self {
            HashSeed::Bits32(x) => decimal(x as nat),
            HashSeed::Bits64(x) => decimal(x as nat),
            HashSeed::Bits128(x) => decimal(x as nat),
        }
    }

    /// The value in decimal digits.
    pub fn to_string(&self) -> (s: String)
        ensures
            s@ == self.text(),
    {
        match self {
            HashSeed::Bits32(x) => decimal_string(*x as u128),
            HashSeed::Bits64(x) => decimal_string(*x as u128),
            HashSeed::Bits128(x) => decimal_string(*x),
        }
    }
}

impl ItemValue {
    /// The payload as text: a string between double quotes, a number in
    /// decimal digits.
    pub open spec fn text(self) -> Seq<char> {
        match self {
            ItemValue::Str(s) => quoted(s),
            ItemValue::I64(x) => signed_decimal(x as int),
            ItemValue::I32(x) => signed_decimal(x as int),
            ItemValue::U64(x) => decimal(x as nat),
            ItemValue::U32(x) => decimal(x as nat),
        }
    }
}

impl ItemType {
    /// The payload as it is written in generated code: a string between
    /// double quotes, a number in decimal digits.
    pub fn to_string(&self) -> (s: String)
        ensures
            s@ == self@.text(),
    {
        match self {
            ItemType::Str(text) => {
                proof {
                    reveal_strlit("\"");
                }
                let mut s = "\"".to_owned();
                s.append(text.as_str());
                s.append("\"");
                assert(s@ =~= quoted(text@));
                s
            },
            ItemType::I64(x) => signed_decimal_string(*x),
            ItemType::I32(x) => signed_decimal_string(*x as i64),
            ItemType::U64(x) => decimal_string(*x as u128),
            ItemType::U32(x) => decimal_string(*x as u128),
        }
    }
}

fn digit_str(d: u8) -> (s: &'static str)
    requires
        d < 10,
    ensures
        s@ == seq![digit(d as nat)],
{
    proof {
        reveal_strlit("0");
        reveal_strlit("1");
        reveal_strlit("2");
        reveal_strlit("3");
        reveal_strlit("4");
        reveal_strlit("5");
        reveal_strlit("6");
        reveal_strlit("7");
        reveal_strlit("8");
        reveal_strlit("9");
    }
    let s = if d == 0 {
        "0"
    } else if d == 1 {
        "1"
    } else if d == 2 {
        "2"
    } else if d == 3 {
        "3"
    } else if d == 4 {
        "4"
    } else if d == 5 {
        "5"
    } else if d == 6 {
        "6"
    } else if d == 7 {
        "7"
    } else if d == 8 {
        "8"
    } else {
        "9"
    };
    assert(s@ =~= seq![digit(d as nat)]);
    s
}

/// `n` in decimal digits.
pub fn decimal_string(n: u128) -> (s: String)
    ensures
        s@ == decimal(n as nat),
    decreases n,
{
    if n < 10 {
        digit_str(n as u8).to_owned()
    } else {
        let mut s = decimal_string(n / 10);
        s.append(digit_str((n % 10) as u8));
        assert(s@ =~= decimal((n / 10) as nat).push(digit((n % 10) as nat)));
        s
    }
}

/// `x` in decimal digits, with a minus sign where it is negative.
pub fn signed_decimal_string(x: i64) -> (s: String)
    ensures
        s@ == signed_decimal(x as int),
{
    if x < 0 {
        proof {
            reveal_strlit("-");
        }
        let size: u128 = (-(x as i128)) as u128;
        let mut s = "-".to_owned();
        s.append(decimal_string(size).as_str());
        assert(s@ =~= seq!['-'] + decimal((-x) as nat));
        s
    } else {
        decimal_string(x as u128)
    }
}

} // verus!
