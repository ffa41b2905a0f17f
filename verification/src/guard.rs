//! The capability guard: per-channel and per-index rules, checked before
//! any command string is built or any byte is sent.

use vstd::prelude::*;
use crate::error::{Capability, Error};
use crate::types::{Channel, is_programmable};

verus! {

/// Whether a save/recall slot or timer-group index is in the accepted
/// range 1..=5.
pub open spec fn index_in_range(v: int) -> bool {
    1 <= v <= 5
}

/// Accepts a save/recall slot number 1..=5; any other value fails with
/// [`Error::RangeViolation`].
pub fn ensure_slot(slot: u8) -> (r: Result<(), Error>)
    ensures
        r is Ok <==> index_in_range(slot as int),
        r is Err ==> r == Err::<(), Error>(Error::RangeViolation),
{
    if 1 <= slot && slot <= 5 {
        Ok(())
    } else {
        Err(Error::RangeViolation)
    }
}

/// Accepts a timer-group index 1..=5; any other value fails with
/// [`Error::RangeViolation`].
pub fn ensure_group(group: u8) -> (r: Result<(), Error>)
    ensures
        r is Ok <==> index_in_range(group as int),
        r is Err ==> r == Err::<(), Error>(Error::RangeViolation),
{
    if 1 <= group && group <= 5 {
        Ok(())
    } else {
        Err(Error::RangeViolation)
    }
}

/// Accepts CH1 and CH2, the programmable channels; CH3 fails with the
/// programmable-channel [`Error::CapabilityViolation`] because it only
/// supports output on/off control.
pub fn guard_programmable(channel: Channel) -> (r: Result<(), Error>)
    ensures
        r is Ok <==> is_programmable(channel),
        r is Err ==> r == Err::<(), Error>(Error::CapabilityViolation(Capability::Programmable)),
{
    match channel {
        Channel::Ch1 | Channel::Ch2 => Ok(()),
        Channel::Ch3 => Err(Error::CapabilityViolation(Capability::Programmable)),
    }
}

} // verus!
