//! Handing out slots at random.
use vstd::prelude::*;

verus! {

/// Calls `Rng::gen` on the generator of `rand::thread_rng`.
///
/// Nothing is claimed: any slot may come back. Should the system fail to seed the generator, the
/// call does not return.
#[verifier::external_body]
pub(crate) fn random_slot() -> u16 {
    rand::Rng::gen(&mut rand::thread_rng())
}

/// The draw that comes after `_depth` others. Any slot may come back.
pub fn random_draw(_depth: u32) -> u16 {
    random_slot()
}

/// A draw that misses is the last one if more than this many came before it.
pub const MAX_DEPTH: u32 = 1024;

/// What to do after a draw.
#[derive(Clone, Copy, Debug, PartialEq, Eq, Structural)]
pub enum Draw {
    /// Hand out the slot
    Use,
    /// Draw another one
    Again,
    /// Stop, with no slot to hand out
    GiveUp,
}

/// Judge the draw that comes after `depth` others.
pub fn judge_draw(depth: u32, vacant: bool) -> (draw: Draw)
    ensures
        draw == (if vacant {
            Draw::Use
        } else if depth > MAX_DEPTH {
            Draw::GiveUp
        } else {
            Draw::Again
        }),
{
    if vacant {
        Draw::Use
    } else if depth > MAX_DEPTH {
        Draw::GiveUp
    } else {
        Draw::Again
    }
}

/// Record `slot` as in use, unless it is already.
pub fn take_slot(slots: &mut Vec<u16>, slot: u16) -> (vacant: bool)
    ensures
        vacant == !old(slots)@.contains(slot),
        final(slots)@ == (if vacant {
            old(slots)@.push(slot)
        } else {
            old(slots)@
        }),
{
    let mut i: usize = 0;
    while i < slots.len()
        invariant
            i <= slots@.len(),
            slots@ == old(slots)@,
            forall|j: int| 0 <= j < i ==> slots@[j] != slot,
        decreases slots@.len() - i,
    {
        if slots[i] == slot {
            return false;
        }
        i += 1;
    }
    slots.push(slot);
    true
}

/// The draws are what `source` gave, the first one first.
pub open spec fn drawn<F: Fn(u32) -> u16>(source: F, draws: Seq<u16>) -> bool {
    forall|i: int|
        0 <= i < draws.len() ==> call_ensures(source, (i as u32,), #[trigger] draws[i])
}

/// The outcome of drawing from `source`: the first draw that is vacant, or none if as many draws as
/// are made all missed.
pub open spec fn settled<F: Fn(u32) -> u16>(
    source: F,
    vacant: spec_fn(u16) -> bool,
    slot: Option<u16>,
) -> bool {
    match slot {
        Some(slot) => exists|draws: Seq<u16>|
            {
                &&& #[trigger] drawn(source, draws)
                &&& 0 < draws.len() <= MAX_DEPTH + 2
                &&& forall|i: int| 0 <= i < draws.len() - 1 ==> !vacant(#[trigger] draws[i])
                &&& draws.last() == slot
                &&& vacant(slot)
            },
        None => exists|draws: Seq<u16>|
            {
                &&& #[trigger] drawn(source, draws)
                &&& draws.len() == MAX_DEPTH + 2
                &&& forall|i: int| 0 <= i < draws.len() ==> !vacant(#[trigger] draws[i])
            },
    }
}

/// The slots that are not in use.
pub open spec fn unused(slots: Seq<u16>) -> spec_fn(u16) -> bool {
    |s: u16| !slots.contains(s)
}

/// Draw slots from `source` until one is vacant, and record it as in use.
pub fn draw_from<F: Fn(u32) -> u16>(slots: &mut Vec<u16>, source: F) -> (slot: Option<u16>)
    requires
        forall|depth: u32| depth <= MAX_DEPTH + 1 ==> #[trigger] call_requires(source, (depth,)),
    ensures
        settled(source, unused(old(slots)@), slot),
        final(slots)@ == (match slot {
            Some(slot) => old(slots)@.push(slot),
            None => old(slots)@,
        }),
{
    let ghost vacancy = unused(old(slots)@);
    let ghost mut draws = Seq::<u16>::empty();
    let mut depth: u32 = 0;
    loop
        invariant
            depth <= MAX_DEPTH + 1,
            slots@ == old(slots)@,
            vacancy == unused(old(slots)@),
            draws.len() == depth,
            drawn(source, draws),
            forall|i: int| 0 <= i < draws.len() ==> !vacancy(#[trigger] draws[i]),
            forall|d: u32| d <= MAX_DEPTH + 1 ==> #[trigger] call_requires(source, (d,)),
        decreases MAX_DEPTH + 1 - depth,
    {
        let slot = source(depth);
        let vacant = take_slot(slots, slot);
        proof {
            draws = draws.push(slot);
            assert(drawn(source, draws));
        }
        match judge_draw(depth, vacant) {
            Draw::Use => {
                assert(draws.last() == slot);
                return Some(slot);
            },
            Draw::GiveUp => {
                return None;
            },
            Draw::Again => {},
        }
        depth += 1;
    }
}

/// Draw slots at random until one is vacant, and record it as in use.
///
/// There is none to hand out if every draw hit a slot that is in use, which takes at least one such
/// slot.
pub(crate) fn draw_slot(slots: &mut Vec<u16>) -> (slot: Option<u16>)
    ensures
        settled(random_draw, unused(old(slots)@), slot),
        match slot {
            Some(slot) => !old(slots)@.contains(slot) && final(slots)@ == old(slots)@.push(slot),
            None => old(slots)@.len() > 0 && final(slots)@ == old(slots)@,
        },
{
    let slot = draw_from(slots, random_draw);
    proof {
        if slot is None {
            all_draws_missed(random_draw, old(slots)@);
        }
    }
    slot
}

/// If no slot was found, as many draws as are made were made, and each of them hit a slot that is
/// in use.
pub proof fn all_draws_missed<F: Fn(u32) -> u16>(source: F, slots: Seq<u16>) -> (draws: Seq<u16>)
    requires
        settled(source, unused(slots), None),
    ensures
        draws.len() == 1026,
        forall|i: int|
            0 <= i < draws.len() ==> call_ensures(source, (i as u32,), #[trigger] draws[i])
                && slots.contains(draws[i]),
        slots.len() > 0,
{
    let draws = choose|draws: Seq<u16>|
        {
            &&& #[trigger] drawn(source, draws)
            &&& draws.len() == MAX_DEPTH + 2
            &&& forall|i: int|
                0 <= i < draws.len() ==> !(unused(slots))(#[trigger] draws[i])
        };
    assert forall|i: int| 0 <= i < draws.len() implies call_ensures(
        source,
        (i as u32,),
        #[trigger] draws[i],
    ) && slots.contains(draws[i]) by {
        assert(!(unused(slots))(draws[i]));
    }
    assert(slots.contains(draws[0]));
    draws
}

/// A slot that was found is vacant, and was drawn after draws that all hit slots that are in use.
pub proof fn vacant_draw_was_found<F: Fn(u32) -> u16>(
    source: F,
    slots: Seq<u16>,
    slot: u16,
) -> (draws: Seq<u16>)
    requires
        settled(source, unused(slots), Some(slot)),
    ensures
        !slots.contains(slot),
        0 < draws.len() <= 1026,
        draws[draws.len() - 1] == slot,
        forall|i: int|
            0 <= i < draws.len() ==> call_ensures(source, (i as u32,), #[trigger] draws[i]),
        forall|i: int| 0 <= i < draws.len() - 1 ==> slots.contains(#[trigger] draws[i]),
{
    let draws = choose|draws: Seq<u16>|
        {
            &&& #[trigger] drawn(source, draws)
            &&& 0 < draws.len() <= MAX_DEPTH + 2
            &&& forall|i: int|
                0 <= i < draws.len() - 1 ==> !(unused(slots))(#[trigger] draws[i])
            &&& draws.last() == slot
            &&& (unused(slots))(slot)
        };
    assert forall|i: int| 0 <= i < draws.len() - 1 implies slots.contains(#[trigger] draws[i]) by {
        assert(!(unused(slots))(draws[i]));
    }
    draws
}

} // verus!
