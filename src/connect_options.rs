//! What a robot connects to a machine with.
use vstd::prelude::*;
use crate::molecules::{letter_of, Molecule};
use crate::sample::{rank_value, SampleRank};

verus! {

/// The argument of a connection: a sample id at the diagnosis machine or
/// the laboratory, a rank at the sample machine, a molecule kind at the
/// molecule machine.
#[derive(Clone, Copy, Debug, PartialEq, Eq, Structural)]
pub enum ConnectOptions {
    SampleId(u8),
    SampleRank(SampleRank),
    MoleculeType(Molecule),
}

/// The character of a decimal digit.
pub open spec fn digit_char(d: int) -> char {
    if d == 0 {
        '0'
    } else if d == 1 {
        '1'
    } else if d == 2 {
        '2'
    } else if d == 3 {
        '3'
    } else if d == 4 {
        '4'
    } else if d == 5 {
        '5'
    } else if d == 6 {
        '6'
    } else if d == 7 {
        '7'
    } else if d == 8 {
        '8'
    } else {
        '9'
    }
}

/// The decimal text of a natural number, without leading zeros.
pub open spec fn decimal(n: nat) -> Seq<char>
    decreases n,
{
    if n < 10 {
        seq![digit_char(n as int)]
    } else {
        decimal(n / 10).push(digit_char((n % 10) as int))
    }
}

/// The wire text of a connection argument.
pub open spec fn option_text(o: ConnectOptions) -> Seq<char> {
    match o {
        ConnectOptions::SampleId(id) => decimal(id as nat),
        ConnectOptions::SampleRank(rank) => decimal(rank_value(rank) as nat),
        ConnectOptions::MoleculeType(k) => seq![letter_of(k)],
    }
}

fn digit_str(d: u8) -> (r: &'static str)
    requires
        d < 10,
    ensures
        r@ == seq![digit_char(d as int)],
{
    proof {
        reveal_strlit("0");
        reveal_strlit("1");
        reveal_strlit("2");
        reveal_strlit("3");
        reveal_strlit("4");
        reveal_strlit("5");
        reveal_strlit("6");
        reveal_strlit("7");
        reveal_strlit("8");
        reveal_strlit("9");
    }
    let r = match d {
        0 => "0",
        1 => "1",
        2 => "2",
        3 => "3",
        4 => "4",
        5 => "5",
        6 => "6",
        7 => "7",
        8 => "8",
        _ => "9",
    };
    assert(r@ =~= seq![digit_char(d as int)]);
    r
}

/// The decimal text of `n`.
pub fn decimal_string(n: u8) -> (r: String)
    ensures
        r@ == decimal(n as nat),
{
    let mut s = String::new();
    if n >= 100 {
        s.append(digit_str(n / 100));
    }
    if n >= 10 {
        s.append(digit_str((n / 10) % 10));
    }
    s.append(digit_str(n % 10));
    proof {
        let m = n as nat;
        if m >= 100 {
            assert(decimal(m / 100) == seq![digit_char((m / 100) as int)]);
            assert((m / 10) / 10 == m / 100);
            assert(decimal(m / 10) == decimal(m / 100).push(digit_char(((m / 10) % 10) as int)));
        } else if m >= 10 {
            assert(decimal(m / 10) == seq![digit_char((m / 10) as int)]);
        }
        assert(s@ =~= decimal(m));
    }
    s
}

impl ConnectOptions {
    pub fn to_string(&self) -> (r: String)
        ensures
            r@ == option_text(*self),
    {
        match self {
            ConnectOptions::SampleRank(rank) => decimal_string(rank.as_value()),
            ConnectOptions::MoleculeType(molecule_type) => {
                let mut s = String::new();
                let letter = match molecule_type {
                    Molecule::A => "A",
                    Molecule::B => "B",
                    Molecule::C => "C",
                    Molecule::D => "D",
                    Molecule::E => "E",
                };
                proof {
                    reveal_strlit("A");
                    reveal_strlit("B");
                    reveal_strlit("C");
                    reveal_strlit("D");
                    reveal_strlit("E");
                }
                s.append(letter);
                assert(s@ =~= seq![letter_of(*molecule_type)]);
                s
            },
            ConnectOptions::SampleId(id) => decimal_string(*id),
        }
    }
}

} // verus!
