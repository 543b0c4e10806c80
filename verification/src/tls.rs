//! The one thread-local value the engine needs, on a target whose only
//! thread has no thread-local storage: a single cell the size of a pointer.

use vstd::prelude::*;

verus! {

/// The value of the slot before anything was stored in it.
pub const TLS_NULL: usize = 0;

/// The slot. It holds an address as a plain number.
pub struct TlsSlot {
    /// The address last stored, or [`TLS_NULL`].
    pub value: usize,
}

impl TlsSlot {
    /// A slot that holds [`TLS_NULL`].
    pub fn new() -> (slot: TlsSlot)
        ensures
            slot.value == TLS_NULL,
    {
        TlsSlot { value: TLS_NULL }
    }
}

/// Reads the slot. Reading changes nothing.
pub fn wasmtime_tls_get(slot: &TlsSlot) -> (value: usize)
    ensures
        value == slot.value,
{
    slot.value
}

/// Stores `value` in the slot. A later read returns it.
pub fn wasmtime_tls_set(slot: &mut TlsSlot, value: usize)
    ensures
        final(slot).value == value,
{
    slot.value = value;
}

} // verus!
