//! Shared flags and counters that tasks and interrupt handlers exchange.
//!
//! Any task may change these cells at any time, so nothing is claimed of the values read from them.

use portable_atomic::AtomicBool;
use portable_atomic::AtomicU32;
use portable_atomic::AtomicU8;
use portable_atomic::Ordering;
use vstd::prelude::*;

verus! {

/// The boolean cell of the `portable-atomic` crate.
#[verifier::external_type_specification]
#[verifier::external_body]
pub struct ExAtomicBool(portable_atomic::AtomicBool);

/// The byte cell of the `portable-atomic` crate.
#[verifier::external_type_specification]
#[verifier::external_body]
pub struct ExAtomicU8(portable_atomic::AtomicU8);

/// The 32-bit cell of the `portable-atomic` crate.
#[verifier::external_type_specification]
#[verifier::external_body]
pub struct ExAtomicU32(portable_atomic::AtomicU32);

/// `AtomicBool::load`: some value that was stored.
#[verifier::external_body]
pub(crate) fn load_bool(cell: &AtomicBool) -> bool {
    cell.load(Ordering::Relaxed)
}

/// `AtomicU8::load`: some value that was stored.
#[verifier::external_body]
pub(crate) fn load_u8(cell: &AtomicU8) -> u8 {
    cell.load(Ordering::Relaxed)
}

/// `AtomicU8::store`: replaces the value with `Release` ordering.
#[verifier::external_body]
pub(crate) fn store_u8(cell: &AtomicU8, value: u8) {
    cell.store(value, Ordering::Release)
}

/// `AtomicU8::swap`: replaces the value and returns the one before, with `AcqRel` ordering.
#[verifier::external_body]
pub(crate) fn swap_u8(cell: &AtomicU8, value: u8) -> u8 {
    cell.swap(value, Ordering::AcqRel)
}

/// `AtomicU32::load`: some value that was stored.
#[verifier::external_body]
pub(crate) fn load_u32(cell: &AtomicU32) -> u32 {
    cell.load(Ordering::Relaxed)
}

/// `AtomicU32::store`: replaces the value.
#[verifier::external_body]
pub(crate) fn store_u32(cell: &AtomicU32, value: u32) {
    cell.store(value, Ordering::Relaxed)
}

/// `AtomicU32::fetch_add`: adds to the value, wrapping around, and returns the one before.
#[verifier::external_body]
pub(crate) fn add_u32(cell: &AtomicU32, value: u32) -> u32 {
    cell.fetch_add(value, Ordering::Relaxed)
}

} // verus!
