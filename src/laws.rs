use vstd::prelude::*;

use crate::round::{pins_down, pins_of, valid_opening, RoundError, RoundState, MAX_PINS};
use crate::throw::Throw;

verus! {

/// On an empty round every count from zero to ten is accepted: zero is a
/// miss and one to nine a hit, both leaving the round open, and ten is a
/// strike that completes it.
pub proof fn lemma_first_throw_accepted(pins: u8)
    requires
        pins <= MAX_PINS,
    ensures
        pins == 0 ==> RoundState::Empty.after_throw(pins) == Ok::<RoundState, RoundError>(
            RoundState::OneThrown { remaining: 10, first: Throw::Miss },
        ),
        1 <= pins <= 9 ==> RoundState::Empty.after_throw(pins) == Ok::<RoundState, RoundError>(
            RoundState::OneThrown { remaining: (10 - pins) as nat, first: Throw::Hit(pins) },
        ),
        pins == 10 ==> RoundState::Empty.after_throw(pins) == Ok::<RoundState, RoundError>(
            RoundState::Complete { throws: seq![Throw::Strike] },
        ),
{
}

/// On an empty round a count over ten is refused as more than stand.
pub proof fn lemma_first_throw_too_many(pins: u8)
    requires
        pins > MAX_PINS,
    ensures
        RoundState::Empty.after_throw(pins) == Err::<RoundState, RoundError>(
            RoundError::InvalidPinCount { rolled: pins, limit: 10 },
        ),
{
}

/// After a valid first throw that left `remaining` pins standing, the second
/// throw completes the round: zero is a miss, fewer than `remaining` a hit,
/// exactly `remaining` a spare; more is refused as more than remain.
pub proof fn lemma_second_throw(remaining: nat, first: Throw, pins: u8)
    requires
        valid_opening(first, remaining),
    ensures
        ({
            let r = RoundState::OneThrown { remaining, first }.after_throw(pins);
            &&& pins == 0 ==> r == Ok::<RoundState, RoundError>(
                RoundState::Complete { throws: seq![first, Throw::Miss] },
            )
            &&& 0 < pins < remaining ==> r == Ok::<RoundState, RoundError>(
                RoundState::Complete { throws: seq![first, Throw::Hit(pins)] },
            )
            &&& pins == remaining ==> r == Ok::<RoundState, RoundError>(
                RoundState::Complete { throws: seq![first, Throw::Spare(pins)] },
            )
            &&& pins > remaining ==> r == Err::<RoundState, RoundError>(
                RoundError::InvalidPinCount { rolled: pins, limit: remaining as u8 },
            )
        }),
{
}

/// A complete round refuses every further throw, whatever its count.
pub proof fn lemma_complete_refuses(throws: Seq<Throw>, pins: u8)
    ensures
        (RoundState::Complete { throws }).after_throw(pins) == Err::<RoundState, RoundError>(
            RoundError::RoundAlreadyComplete,
        ),
{
}

/// An accepted throw on a well-formed round gives a well-formed round.
pub proof fn lemma_after_throw_well_formed(s: RoundState, pins: u8)
    requires
        s.well_formed(),
    ensures
        s.after_throw(pins) is Ok ==> s.after_throw(pins)->Ok_0.well_formed(),
{
}

/// In a well-formed round an open round has one to ten pins standing, which
/// with those of its first throw make ten, and a complete round never has
/// more than ten pins down.
pub proof fn lemma_pins_bounded(s: RoundState)
    requires
        s.well_formed(),
    ensures
        s matches RoundState::OneThrown { remaining, first } ==> 1 <= remaining <= 10
            && remaining + pins_of(first) == 10,
        s matches RoundState::Complete { throws } ==> pins_down(throws) <= 10,
{
    if let RoundState::Complete { throws } = s {
        if throws.len() == 2 {
            let head = throws.drop_last();
            assert(head.drop_last() =~= Seq::<Throw>::empty());
            assert(pins_down(head.drop_last()) == 0);
            assert(pins_down(head) == pins_of(throws[0]));
            assert(pins_down(throws) == pins_of(throws[0]) + pins_of(throws[1]));
        } else {
            assert(throws.drop_last() =~= Seq::<Throw>::empty());
            assert(pins_down(throws.drop_last()) == 0);
        }
    }
}

} // verus!
