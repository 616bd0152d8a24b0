//! Parameters shared between the control loop and the audio callback.
//!
//! The audio callback runs at interrupt priority and cannot lock, so each
//! parameter lives in its own `AtomicU32` holding the bit pattern of an
//! `f32`. Reads and writes are individually atomic and the parameters are
//! independent, so tearing across parameters is not a concern. The float
//! encoding itself is done by the caller; this surface moves the bits.
use core::sync::atomic::AtomicU32;
use core::sync::atomic::Ordering;
use vstd::prelude::*;

verus! {

/// `0.4_f32.to_bits()`: default filter cutoff (param 1).
pub const PARAM1_DEFAULT_BITS: u32 = 0x3ECC_CCCD;

/// `0.7_f32.to_bits()`: default resonance (param 2).
pub const PARAM2_DEFAULT_BITS: u32 = 0x3F33_3333;

/// `0.2_f32.to_bits()`: default distortion drive (param 3).
pub const PARAM3_DEFAULT_BITS: u32 = 0x3E4C_CCCD;

/// `0.15_f32.to_bits()`: default envelope decay (param 4).
pub const PARAM4_DEFAULT_BITS: u32 = 0x3E19_999A;

/// One parameter slot: cutoff, resonance, drive and decay respectively.
#[derive(Debug, Clone, Copy, PartialEq, Eq, Structural)]
pub enum ParamSlot {
    Param1,
    Param2,
    Param3,
    Param4,
}

/// The controller numbers of the MIDI map: CC 74 filter cutoff, CC 71
/// resonance, CC 75 distortion drive, CC 72 decay / release time.
pub open spec fn controller_slot(controller: u8) -> Option<ParamSlot> {
    if controller == 74 {
        Some(ParamSlot::Param1)
    } else if controller == 71 {
        Some(ParamSlot::Param2)
    } else if controller == 75 {
        Some(ParamSlot::Param3)
    } else if controller == 72 {
        Some(ParamSlot::Param4)
    } else {
        None
    }
}

/// The parameter that a MIDI control change drives, if any.
pub fn slot_for_controller(controller: u8) -> (slot: Option<ParamSlot>)
    ensures
        slot == controller_slot(controller),
{
    match controller {
        74 => Some(ParamSlot::Param1),
        71 => Some(ParamSlot::Param2),
        75 => Some(ParamSlot::Param3),
        72 => Some(ParamSlot::Param4),
        _ => None,
    }
}

/// Four independent relaxed atomics, one per slot. A load returns whatever
/// the last store to that slot left, from either context; the contracts
/// state nothing of the values, which stay opaque to verification.
pub struct SharedParams {
    param1: AtomicU32,
    param2: AtomicU32,
    param3: AtomicU32,
    param4: AtomicU32,
}

impl SharedParams {
    /// Every slot holds its default value.
    pub fn new() -> Self {
        Self {
            param1: AtomicU32::new(PARAM1_DEFAULT_BITS),
            param2: AtomicU32::new(PARAM2_DEFAULT_BITS),
            param3: AtomicU32::new(PARAM3_DEFAULT_BITS),
            param4: AtomicU32::new(PARAM4_DEFAULT_BITS),
        }
    }

    /// The atomic that holds `slot`.
    spec fn cell(self, slot: ParamSlot) -> AtomicU32 {
        match slot {
            ParamSlot::Param1 => self.param1,
            ParamSlot::Param2 => self.param2,
            ParamSlot::Param3 => self.param3,
            ParamSlot::Param4 => self.param4,
        }
    }

    fn slot(&self, slot: ParamSlot) -> (a: &AtomicU32)
        ensures
            *a == self.cell(slot),
    {
        match slot {
            ParamSlot::Param1 => &self.param1,
            ParamSlot::Param2 => &self.param2,
            ParamSlot::Param3 => &self.param3,
            ParamSlot::Param4 => &self.param4,
        }
    }

    /// Store the bit pattern of a new value into `slot`.
    pub fn store_bits(&self, slot: ParamSlot, bits: u32) {
        self.slot(slot).store(bits, Ordering::Relaxed);
    }

    /// The bit pattern currently held by `slot`.
    pub fn load_bits(&self, slot: ParamSlot) -> u32 {
        self.slot(slot).load(Ordering::Relaxed)
    }
}

/// The MIDI map: CC 74 drives param 1 (cutoff), 71 param 2 (resonance),
/// 75 param 3 (drive) and 72 param 4 (decay); each slot has exactly one
/// controller and every other controller drives nothing.
pub proof fn lemma_controller_map(cc: u8)
    ensures
        (controller_slot(cc) == Some(ParamSlot::Param1)) <==> (cc == 74),
        (controller_slot(cc) == Some(ParamSlot::Param2)) <==> (cc == 71),
        (controller_slot(cc) == Some(ParamSlot::Param3)) <==> (cc == 75),
        (controller_slot(cc) == Some(ParamSlot::Param4)) <==> (cc == 72),
        (controller_slot(cc) is None) <==> (cc != 74 && cc != 71 && cc != 75 && cc != 72),
{
}

} // verus!
