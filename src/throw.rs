use vstd::prelude::*;

verus! {

/// The classified outcome of one ball within a round.
#[derive(PartialEq, Eq, Debug, Clone, Copy, Structural)]
pub enum Throw {
    /// Some pins fell, but neither all that stood nor a strike.
    Hit(u8),
    /// The second ball cleared every pin the first left standing.
    Spare(u8),
    /// The first ball cleared all ten pins.
    Strike,
    /// No pin fell.
    Miss,
}

/// The character of the decimal digit `d`, for `d < 10`.
pub open spec fn digit_char(d: nat) -> char
    recommends
        d < 10,
{
    seq!['0', '1', '2', '3', '4', '5', '6', '7', '8', '9'][d as int]
}

/// The decimal digits of `n`, most significant first, without leading zeros.
pub open spec fn decimal(n: nat) -> Seq<char>
    decreases n,
{
    if n < 10 {
        seq![digit_char(n)]
    } else {
        decimal(n / 10).push(digit_char(n % 10))
    }
}

impl Throw {
    /// The display form of a throw: the count of a hit, `/` for a spare,
    /// `X` for a strike and `-` for a miss.
    pub open spec fn text(self) -> Seq<char> {
        match self {
            Throw::Hit(n) => decimal(n as nat),
            Throw::Spare(_) => seq!['/'],
            Throw::Strike => seq!['X'],
            Throw::Miss => seq!['-'],
        }
    }

    /// Renders the throw as its display form.
    pub fn render(&self) -> (r: String)
        ensures
            r@ == self.text(),
    {
        match self {
            Throw::Hit(n) => decimal_text(*n),
            Throw::Spare(_) => {
                proof {
                    reveal_strlit("/");
                }
                String::from_str("/")
            },
            Throw::Strike => {
                proof {
                    reveal_strlit("X");
                }
                String::from_str("X")
            },
            Throw::Miss => {
                proof {
                    reveal_strlit("-");
                }
                String::from_str("-")
            },
        }
    }
}

/// The one-character text of the digit `d`.
fn digit_text(d: u8) -> (r: &'static str)
    requires
        d < 10,
    ensures
        r@ == seq![digit_char(d as nat)],
{
    proof {
        reveal_strlit("0");
        reveal_strlit("1");
        reveal_strlit("2");
        reveal_strlit("3");
        reveal_strlit("4");
        reveal_strlit("5");
        reveal_strlit("6");
        reveal_strlit("7");
        reveal_strlit("8");
        reveal_strlit("9");
    }
    match d {
        0 => "0",
        1 => "1",
        2 => "2",
        3 => "3",
        4 => "4",
        5 => "5",
        6 => "6",
        7 => "7",
        8 => "8",
        _ => "9",
    }
}

/// The decimal digits of `n`.
fn decimal_text(n: u8) -> (r: String)
    ensures
        r@ == decimal(n as nat),
{
    let mut s = String::new();
    if n >= 100 {
        s.append(digit_text(n / 100));
    }
    if n >= 10 {
        s.append(digit_text((n / 10) % 10));
    }
    s.append(digit_text(n % 10));
    proof {
        let m = n as nat;
        if m >= 100 {
            assert(m / 10 / 10 == m / 100);
            assert(decimal(m / 100) == seq![digit_char(m / 100)]);
            assert(decimal(m / 10) == decimal(m / 100).push(digit_char((m / 10) % 10)));
        } else if m >= 10 {
            assert(decimal(m / 10) == seq![digit_char(m / 10)]);
        }
    }
    s
}

} // verus!
