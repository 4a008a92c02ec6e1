use vstd::prelude::*;

use vstd::string::StringExecFns;

use crate::cell::Cell;
use crate::grid::Grid;

verus! {

/// The character of the decimal digit `d`.
pub open spec fn digit_char(d: int) -> char {
    if d == 0 {
        '0'
    } else if d == 1 {
        '1'
    } else if d == 2 {
        '2'
    } else if d == 3 {
        '3'
    } else if d == 4 {
        '4'
    } else if d == 5 {
        '5'
    } else if d == 6 {
        '6'
    } else if d == 7 {
        '7'
    } else if d == 8 {
        '8'
    } else {
        '9'
    }
}

/// The decimal numeral of `n`, without leading zeros.
pub open spec fn decimal(n: nat) -> Seq<char>
    decreases n,
{
    if n < 10 {
        seq![digit_char(n as int)]
    } else {
        decimal(n / 10).push(digit_char((n % 10) as int))
    }
}

fn digit_str(d: u8) -> (r: &'static str)
    requires
        d < 10,
    ensures
        r@ == seq![digit_char(d as int)],
{
    proof {
        reveal_strlit("0");
        reveal_strlit("1");
        reveal_strlit("2");
        reveal_strlit("3");
        reveal_strlit("4");
        reveal_strlit("5");
        reveal_strlit("6");
        reveal_strlit("7");
        reveal_strlit("8");
        reveal_strlit("9");
    }
    match d {
        0 => "0",
        1 => "1",
        2 => "2",
        3 => "3",
        4 => "4",
        5 => "5",
        6 => "6",
        7 => "7",
        8 => "8",
        _ => "9",
    }
}

/// Appends the decimal numeral of `n` to `s`.
fn push_decimal(s: &mut String, n: u8)
    ensures
        final(s)@ == old(s)@ + decimal(n as nat),
{
    proof {
        reveal_with_fuel(decimal, 3);
    }
    if n >= 100 {
        s.append(digit_str(n / 100));
    }
    if n >= 10 {
        s.append(digit_str(n / 10 % 10));
    }
    s.append(digit_str(n % 10));
    assert(final(s)@ =~= old(s)@ + decimal(n as nat));
}

impl Cell {
    /// The cell written as `(width, depth)`.
    pub open spec fn text(self) -> Seq<char> {
        seq!['('] + decimal(self.w() as nat) + seq![',', ' '] + decimal(self.d() as nat) + seq![')']
    }

    /// The cell written as `(width, depth)`, for instance `(10, 15)`.
    pub fn to_string(self) -> (r: String)
        ensures
            r@ == self.text(),
    {
        let mut s = String::new();
        proof {
            reveal_strlit("(");
            reveal_strlit(", ");
            reveal_strlit(")");
        }
        s.append("(");
        push_decimal(&mut s, self.global_width);
        s.append(", ");
        push_decimal(&mut s, self.global_depth);
        s.append(")");
        assert(s@ =~= self.text());
        s
    }
}

impl Grid {
    /// The grid written as `[start:end]`, each cell as `(width, depth)`.
    pub open spec fn text(self) -> Seq<char> {
        seq!['['] + self.start().text() + seq![':'] + self.end().text() + seq![']']
    }

    /// The grid written as `[start:end]`, for instance `[(0, 0):(9, 9)]`.
    pub fn to_string(self) -> (r: String)
        ensures
            r@ == self.text(),
    {
        let mut s = String::new();
        proof {
            reveal_strlit("[");
            reveal_strlit(":");
            reveal_strlit("]");
        }
        s.append("[");
        s.append(self.start.to_string().as_str());
        s.append(":");
        s.append(self.end.to_string().as_str());
        s.append("]");
        assert(s@ =~= self.text());
        s
    }
}

} // verus!
