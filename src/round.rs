use vstd::prelude::*;

use crate::throw::Throw;

verus! {

/// The number of pins standing at the start of a round.
pub const MAX_PINS: u8 = 10;

/// One round: up to two throws against ten pins.
#[derive(Clone, Debug)]
pub enum Round {
    /// No throw yet; all pins stand.
    First,
    /// One throw recorded, which left `remaining_pins` standing.
    Second { remaining_pins: u8, first_throw: Throw },
    /// The round is over: a strike alone, or two throws.
    Complete { throws: Vec<Throw> },
}

/// Why a throw could not be recorded.
#[derive(PartialEq, Eq, Debug, Clone, Copy, Structural)]
pub enum RoundError {
    /// More pins were rolled than stood: `rolled` against the `limit` standing.
    InvalidPinCount { rolled: u8, limit: u8 },
    /// The round has no throw left.
    RoundAlreadyComplete,
}

/// The mathematical state of a round.
pub ghost enum RoundState {
    Empty,
    OneThrown { remaining: nat, first: Throw },
    Complete { throws: Seq<Throw> },
}

impl View for Round {
    type V = RoundState;

    open spec fn view(&self) -> RoundState {
        match self {
            Round::First => RoundState::Empty,
            Round::Second { remaining_pins, first_throw } => RoundState::OneThrown {
                remaining: *remaining_pins as nat,
                first: *first_throw,
            },
            Round::Complete { throws } => RoundState::Complete { throws: throws@ },
        }
    }
}

/// The pins that a throw accounts for; a strike takes all ten.
pub open spec fn pins_of(t: Throw) -> nat {
    match t {
        Throw::Hit(n) => n as nat,
        Throw::Spare(n) => n as nat,
        Throw::Strike => MAX_PINS as nat,
        Throw::Miss => 0,
    }
}

/// A first throw that leaves the round open, with the pins it leaves standing.
pub open spec fn valid_opening(first: Throw, remaining: nat) -> bool {
    match first {
        Throw::Miss => remaining == MAX_PINS,
        Throw::Hit(n) => 1 <= n < MAX_PINS && remaining == MAX_PINS - n,
        _ => false,
    }
}

/// A second throw against `remaining` standing pins.
pub open spec fn valid_closing(remaining: nat, second: Throw) -> bool {
    match second {
        Throw::Miss => true,
        Throw::Hit(n) => 1 <= n < remaining,
        Throw::Spare(n) => n == remaining,
        Throw::Strike => false,
    }
}

/// The sum of the pins that the throws account for.
pub open spec fn pins_down(throws: Seq<Throw>) -> nat
    decreases throws.len(),
{
    if throws.len() == 0 {
        0
    } else {
        pins_down(throws.drop_last()) + pins_of(throws.last())
    }
}

/// The text of each throw, joined by `", "`.
pub open spec fn joined(throws: Seq<Throw>) -> Seq<char>
    decreases throws.len(),
{
    if throws.len() == 0 {
        seq![]
    } else if throws.len() == 1 {
        throws[0].text()
    } else {
        joined(throws.drop_last()) + seq![',', ' '] + throws.last().text()
    }
}

impl RoundState {
    /// A state that some sequence of accepted throws reaches from an empty round.
    pub open spec fn well_formed(self) -> bool {
        match self {
            RoundState::Empty => true,
            RoundState::OneThrown { remaining, first } => valid_opening(first, remaining),
            RoundState::Complete { throws } => {
                ||| throws == seq![Throw::Strike]
                ||| throws.len() == 2 && valid_opening(throws[0], (MAX_PINS - pins_of(throws[0])) as nat)
                    && valid_closing((MAX_PINS - pins_of(throws[0])) as nat, throws[1])
            },
        }
    }

    /// The state after `pins` more pins are rolled, or why that throw is refused.
    pub open spec fn after_throw(self, pins: u8) -> Result<RoundState, RoundError> {
        match self {
            RoundState::Empty => {
                if pins == 0 {
                    Ok(RoundState::OneThrown { remaining: MAX_PINS as nat, first: Throw::Miss })
                } else if pins < MAX_PINS {
                    Ok(RoundState::OneThrown { remaining: (MAX_PINS - pins) as nat, first: Throw::Hit(pins) })
                } else if pins == MAX_PINS {
                    Ok(RoundState::Complete { throws: seq![Throw::Strike] })
                } else {
                    Err(RoundError::InvalidPinCount { rolled: pins, limit: MAX_PINS })
                }
            },
            RoundState::OneThrown { remaining, first } => {
                if pins == 0 {
                    Ok(RoundState::Complete { throws: seq![first, Throw::Miss] })
                } else if pins < remaining {
                    Ok(RoundState::Complete { throws: seq![first, Throw::Hit(pins)] })
                } else if pins == remaining {
                    Ok(RoundState::Complete { throws: seq![first, Throw::Spare(pins)] })
                } else {
                    Err(RoundError::InvalidPinCount { rolled: pins, limit: remaining as u8 })
                }
            },
            RoundState::Complete { .. } => Err(RoundError::RoundAlreadyComplete),
        }
    }

    /// The most recent throw, if any.
    pub open spec fn last(self) -> Option<Throw> {
        match self {
            RoundState::Empty => None,
            RoundState::OneThrown { first, .. } => Some(first),
            RoundState::Complete { throws } => {
                if throws.len() == 0 {
                    None
                } else {
                    Some(throws.last())
                }
            },
        }
    }

    /// The display form: `[]`, `[<first>, ?]` while open, or the throws in brackets.
    pub open spec fn text(self) -> Seq<char> {
        match self {
            RoundState::Empty => seq!['[', ']'],
            RoundState::OneThrown { first, .. } => seq!['['] + first.text() + seq![',', ' ', '?', ']'],
            RoundState::Complete { throws } => seq!['['] + joined(throws) + seq![']'],
        }
    }
}

/// The model of a result of [`Round::role`].
pub open spec fn result_view(r: Result<Round, RoundError>) -> Result<RoundState, RoundError> {
    match r {
        Ok(next) => Ok(next@),
        Err(e) => Err(e),
    }
}

impl Round {
    /// An empty round.
    pub fn new() -> (r: Round)
        ensures
            r@ == RoundState::Empty,
    {
        Round::First
    }

    /// Records a throw of `rolled_pins`, giving the round that follows; the
    /// round itself is left as it was, whether or not the throw is accepted.
    pub fn role(&self, rolled_pins: u8) -> (r: Result<Round, RoundError>)
        ensures
            result_view(r) == self@.after_throw(rolled_pins),
            self@.well_formed() && r is Ok ==> r->Ok_0@.well_formed(),
    {
        match self {
            Round::Complete { .. } => Err(RoundError::RoundAlreadyComplete),
            Round::First => {
                if rolled_pins == 0 {
                    Ok(Round::Second { remaining_pins: MAX_PINS, first_throw: Throw::Miss })
                } else if rolled_pins < MAX_PINS {
                    Ok(
                        Round::Second {
                            remaining_pins: MAX_PINS - rolled_pins,
                            first_throw: Throw::Hit(rolled_pins),
                        },
                    )
                } else if rolled_pins == MAX_PINS {
                    let mut throws: Vec<Throw> = Vec::new();
                    throws.push(Throw::Strike);
                    proof {
                        assert(throws@ =~= seq![Throw::Strike]);
                    }
                    Ok(Round::Complete { throws })
                } else {
                    Err(RoundError::InvalidPinCount { rolled: rolled_pins, limit: MAX_PINS })
                }
            },
            Round::Second { remaining_pins, first_throw } => {
                let second = if rolled_pins == 0 {
                    Throw::Miss
                } else if rolled_pins < *remaining_pins {
                    Throw::Hit(rolled_pins)
                } else if rolled_pins == *remaining_pins {
                    Throw::Spare(rolled_pins)
                } else {
                    return Err(
                        RoundError::InvalidPinCount { rolled: rolled_pins, limit: *remaining_pins },
                    );
                };
                let mut throws: Vec<Throw> = Vec::new();
                throws.push(*first_throw);
                throws.push(second);
                proof {
                    assert(throws@ =~= seq![*first_throw, second]);
                }
                Ok(Round::Complete { throws })
            },
        }
    }

    /// The most recent throw of the round, if any.
    pub fn last_throw(&self) -> (r: Option<Throw>)
        ensures
            r == self@.last(),
    {
        match self {
            Round::First => None,
            Round::Second { first_throw, .. } => Some(*first_throw),
            Round::Complete { throws } => {
                if throws.len() == 0 {
                    None
                } else {
                    Some(throws[throws.len() - 1])
                }
            },
        }
    }

    /// Renders the round in its display form.
    pub fn render(&self) -> (r: String)
        ensures
            r@ == self@.text(),
    {
        proof {
            reveal_strlit("[]");
            reveal_strlit("[");
            reveal_strlit("]");
            reveal_strlit(", ?]");
        }
        match self {
            Round::First => String::from_str("[]"),
            Round::Second { first_throw, .. } => {
                let mut s = String::from_str("[");
                s.append(first_throw.render().as_str());
                s.append(", ?]");
                s
            },
            Round::Complete { throws } => {
                let mut s = String::from_str("[");
                let mut i: usize = 0;
                while i < throws.len()
                    invariant
                        0 <= i <= throws.len(),
                        s@ == seq!['['] + joined(throws@.subrange(0, i as int)),
                    decreases throws.len() - i,
                {
                    if i > 0 {
                        s.append(", ");
                    }
                    s.append(throws[i].render().as_str());
                    proof {
                        reveal_strlit(", ");
                        let done = throws@.subrange(0, i as int + 1);
                        assert(done.drop_last() =~= throws@.subrange(0, i as int));
                        assert(done.last() == throws@[i as int]);
                        assert(s@ =~= seq!['['] + joined(done));
                    }
                    i = i + 1;
                }
                proof {
                    assert(throws@.subrange(0, throws@.len() as int) =~= throws@);
                }
                s.append("]");
                s
            },
        }
    }
}

} // verus!
