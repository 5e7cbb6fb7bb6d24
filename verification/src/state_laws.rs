//! What locking, purging and resource marks mean to a handle, and what saving
//! and restoring them gives back.

use crate::memory_model::{ManagerModel, LOCKED_BIT, PURGEABLE_BIT, RESOURCE_BIT};
use vstd::prelude::*;

verus! {

/// Only the properties of one handle may differ.
pub open spec fn only_properties_changed(
    before: ManagerModel,
    after: ManagerModel,
    handle: u32,
) -> bool {
    &&& after.owner == before.owner
    &&& after.classic == before.classic
    &&& after.classic_limit == before.classic_limit
    &&& after.ptr_to_handle == before.ptr_to_handle
    &&& after.native_ptrs == before.native_ptrs
    &&& after.native_handles == before.native_handles
    &&& after.records == before.records
    &&& after.native == before.native
    &&& after.dirty == before.dirty
    &&& after.application_limit == before.application_limit
    &&& forall|other: u32|
        other != handle ==> #[trigger] after.handle_state(other) == before.handle_state(other)
            && after.state(other) == before.state(other)
}

proof fn lemma_property_bits(bits: u8, saved: u8)
    by (bit_vector)
    ensures
        (bits | 0x80u8) & 0x80u8 != 0,
        (bits | 0x80u8) & 0x40u8 == bits & 0x40u8,
        (bits | 0x80u8) & 0x20u8 == bits & 0x20u8,
        (bits & !0x80u8) & 0x80u8 == 0,
        (bits & !0x80u8) & 0x40u8 == bits & 0x40u8,
        (bits & !0x80u8) & 0x20u8 == bits & 0x20u8,
        (bits | 0x40u8) & 0x40u8 != 0,
        (bits | 0x40u8) & 0x80u8 == bits & 0x80u8,
        (bits | 0x40u8) & 0x20u8 == bits & 0x20u8,
        (bits & !0x40u8) & 0x40u8 == 0,
        (bits & !0x40u8) & 0x80u8 == bits & 0x80u8,
        (bits & !0x40u8) & 0x20u8 == bits & 0x20u8,
        (bits | 0x20u8) & 0x20u8 != 0,
        (bits | 0x20u8) & 0x80u8 == bits & 0x80u8,
        (bits | 0x20u8) & 0x40u8 == bits & 0x40u8,
        (bits & !0x20u8) & 0x20u8 == 0,
        (bits & !0x20u8) & 0x80u8 == bits & 0x80u8,
        (bits & !0x20u8) & 0x40u8 == bits & 0x40u8,
        ((bits & 0x20u8) | (saved & 0xC0u8)) & 0x80u8 == saved & 0x80u8,
        ((bits & 0x20u8) | (saved & 0xC0u8)) & 0x40u8 == saved & 0x40u8,
        ((bits & 0x20u8) | (saved & 0xC0u8)) & 0x20u8 == bits & 0x20u8,
        (bits & !0xC0u8) & 0x80u8 == 0,
        (bits & !0xC0u8) & 0x40u8 == 0,
        (bits & !0xC0u8) & 0x20u8 == bits & 0x20u8,
        saved & 0x1Fu8 == 0 ==> ((saved & 0x20u8) | (saved & 0xC0u8)) == saved,
        (bits & 0x80u8 == 0) || (bits & 0x80u8 == 0x80u8),
        (bits & 0x40u8 == 0) || (bits & 0x40u8 == 0x40u8),
        (bits & 0x20u8 == 0) || (bits & 0x20u8 == 0x20u8),
        0u8 & 0x80u8 == 0,
        0u8 & 0x40u8 == 0,
        0u8 & 0x20u8 == 0,
{
}

/// The state byte of a known handle spells its properties: bit 7 the lock,
/// bit 6 the purge property, bit 5 the resource mark. A handle that was given
/// no state counts as purgeable and nothing else.
pub proof fn state_byte_spells_the_properties(manager: ManagerModel, handle: u32)
    ensures
        ({
            let properties = manager.handle_state(handle);
            &&& properties.handle == handle
            &&& manager.state(handle) matches Some(byte) ==> {
                &&& properties.locked == (byte & 0x80u8 == 0x80u8)
                &&& properties.no_purge == (byte & 0x40u8 == 0)
                &&& properties.resource == (byte & 0x20u8 == 0x20u8)
                &&& properties.high_locked ==> properties.locked
            }
            &&& manager.state(handle) is None ==> !properties.locked && !properties.high_locked
                && !properties.no_purge && !properties.resource
            &&& manager.native_handles.contains(handle) ==> manager.state(handle) is Some
            &&& manager.states.dom().contains(handle) ==> manager.state(handle) == Some(
                manager.states[handle],
            )
        }),
{
    lemma_property_bits(manager.state_or_clear(handle), 0);
    assert(0x40u8 & 0x80u8 == 0 && 0x40u8 & 0x40u8 == 0x40u8 && 0x40u8 & 0x20u8 == 0)
        by (bit_vector);
}

/// A locked handle is locked, high in the heap where it asked for that now or
/// before; its other properties and all other handles stay as they are.
pub proof fn locking_locks(manager: ManagerModel, handle: u32, high: bool)
    requires
        handle != 0,
    ensures
        ({
            let after = manager.lock(handle, high);
            let properties = after.handle_state(handle);
            &&& properties.locked
            &&& properties.high_locked == (high || (manager.high.dom().contains(handle)
                && manager.high[handle]))
            &&& manager.state(handle) is Some ==> {
                &&& properties.no_purge == manager.handle_state(handle).no_purge
                &&& properties.resource == manager.handle_state(handle).resource
            }
            &&& manager.state(handle) is None ==> properties.no_purge && !properties.resource
            &&& only_properties_changed(manager, after, handle)
        }),
{
    lemma_property_bits(manager.state_or_clear(handle), 0);
}

/// An unlocked handle is not locked and no longer high; its other properties
/// and all other handles stay as they are.
pub proof fn unlocking_unlocks(manager: ManagerModel, handle: u32)
    requires
        handle != 0,
    ensures
        ({
            let after = manager.unlock(handle);
            let properties = after.handle_state(handle);
            &&& !properties.locked && !properties.high_locked
            &&& !after.high.dom().contains(handle)
            &&& manager.state(handle) is Some ==> {
                &&& properties.no_purge == manager.handle_state(handle).no_purge
                &&& properties.resource == manager.handle_state(handle).resource
            }
            &&& manager.state(handle) is None ==> properties.no_purge && !properties.resource
            &&& only_properties_changed(manager, after, handle)
        }),
{
    lemma_property_bits(manager.state_or_clear(handle), 0);
}

/// A handle is purgeable exactly where it was last made so; its lock, its
/// resource mark and all other handles stay as they are.
pub proof fn purge_property_is_set(manager: ManagerModel, handle: u32, purgeable: bool)
    requires
        handle != 0,
    ensures
        ({
            let after = manager.set_purgeable(handle, purgeable);
            let properties = after.handle_state(handle);
            &&& properties.no_purge == !purgeable
            &&& properties.locked == manager.handle_state(handle).locked
            &&& properties.high_locked == manager.handle_state(handle).high_locked
            &&& properties.resource == manager.handle_state(handle).resource
            &&& only_properties_changed(manager, after, handle)
        }),
{
    lemma_property_bits(manager.state_or_clear(handle), 0);
    lemma_property_bits(PURGEABLE_BIT, 0);
    assert(0x40u8 & 0x80u8 == 0 && 0x40u8 & 0x20u8 == 0) by (bit_vector);
}

/// A handle is a resource exactly where it was last made so; its lock, its
/// purge property and all other handles stay as they are.
pub proof fn resource_mark_is_set(manager: ManagerModel, handle: u32, resource: bool)
    requires
        handle != 0,
    ensures
        ({
            let after = manager.set_resource(handle, resource);
            let properties = after.handle_state(handle);
            &&& properties.resource == resource
            &&& properties.locked == manager.handle_state(handle).locked
            &&& properties.high_locked == manager.handle_state(handle).high_locked
            &&& manager.state(handle) is Some ==> properties.no_purge == manager.handle_state(
                handle,
            ).no_purge
            &&& manager.state(handle) is None ==> properties.no_purge
            &&& only_properties_changed(manager, after, handle)
        }),
{
    lemma_property_bits(manager.state_or_clear(handle), 0);
    lemma_property_bits(PURGEABLE_BIT, 0);
    assert(0x40u8 & 0x80u8 == 0 && 0x40u8 & 0x20u8 == 0) by (bit_vector);
}

/// A resource handle is purgeable and a resource, and as locked as it was.
pub proof fn marked_handle_is_a_purgeable_resource(manager: ManagerModel, handle: u32)
    requires
        handle != 0,
    ensures
        ({
            let after = manager.mark_resource(handle);
            let properties = after.handle_state(handle);
            &&& properties.resource && !properties.no_purge
            &&& properties.locked == manager.handle_state(handle).locked
            &&& only_properties_changed(manager, after, handle)
        }),
{
    purge_property_is_set(manager, handle, true);
    resource_mark_is_set(manager.set_purgeable(handle, true), handle, true);
    assert forall|other: u32| other != handle implies #[trigger] manager.mark_resource(
        handle,
    ).handle_state(other) == manager.handle_state(other) && manager.mark_resource(handle).state(
        other,
    ) == manager.state(other) by {
        let purgeable = manager.set_purgeable(handle, true);
        assert(purgeable.handle_state(other) == manager.handle_state(other));
    }
}

/// Restoring a state byte gives a handle the lock and the purge property that
/// the byte spells; whether it is a resource does not depend on the byte.
pub proof fn restored_state_has_the_saved_properties(manager: ManagerModel, handle: u32, saved: u8)
    requires
        handle != 0,
    ensures
        ({
            let after = manager.restore_state(handle, saved);
            let properties = after.handle_state(handle);
            &&& properties.locked == (saved & LOCKED_BIT != 0)
            &&& properties.no_purge == (saved & PURGEABLE_BIT == 0)
            &&& properties.resource == manager.handle_state(handle).resource
            &&& saved & LOCKED_BIT == 0 ==> !properties.high_locked
            &&& saved & LOCKED_BIT != 0 ==> after.high == manager.high
            &&& only_properties_changed(manager, after, handle)
        }),
{
    lemma_property_bits(manager.state_or_clear(handle), saved);
    assert(0x40u8 & 0x20u8 == 0) by (bit_vector);
}

/// A saved state that is restored after the handle was locked, unlocked or
/// made purgeable or not is the state that was saved.
pub proof fn saved_state_is_restored(
    manager: ManagerModel,
    handle: u32,
    high: bool,
    purgeable: bool,
)
    requires
        handle != 0,
        manager.state(handle) is Some,
    ensures
        ({
            let saved = manager.state(handle)->0;
            let before = manager.handle_state(handle);
            let changes = seq![
                manager.lock(handle, high),
                manager.unlock(handle),
                manager.set_purgeable(handle, purgeable),
            ];
            forall|i: int|
                0 <= i < 3 ==> {
                    let after = (#[trigger] changes[i]).restore_state(handle, saved);
                    &&& after.handle_state(handle).locked == before.locked
                    &&& after.handle_state(handle).no_purge == before.no_purge
                    &&& after.handle_state(handle).resource == before.resource
                    &&& saved & 0x1Fu8 == 0 ==> after.state(handle) == Some(saved)
                }
        }),
{
    let saved = manager.state(handle)->0;
    let changes = seq![
        manager.lock(handle, high),
        manager.unlock(handle),
        manager.set_purgeable(handle, purgeable),
    ];
    lemma_property_bits(saved, saved);
    assert forall|i: int| 0 <= i < 3 implies {
        let after = (#[trigger] changes[i]).restore_state(handle, saved);
        &&& after.handle_state(handle).locked == manager.handle_state(handle).locked
        &&& after.handle_state(handle).no_purge == manager.handle_state(handle).no_purge
        &&& after.handle_state(handle).resource == manager.handle_state(handle).resource
        &&& saved & 0x1Fu8 == 0 ==> after.state(handle) == Some(saved)
    } by {
        let bits = changes[i].state_or_clear(handle);
        assert(bits & 0x20u8 == saved & 0x20u8);
        lemma_property_bits(bits, saved);
    }
}

/// A replaced block is neither locked, high nor purgeable, and a resource
/// where it was one; all other handles stay as they are.
pub proof fn cleared_handle_keeps_its_resource_mark(manager: ManagerModel, handle: u32)
    ensures
        ({
            let after = manager.clear_properties(handle);
            &&& after.state_or_clear(handle) & LOCKED_BIT == 0
            &&& after.state_or_clear(handle) & PURGEABLE_BIT == 0
            &&& after.state_or_clear(handle) & RESOURCE_BIT == manager.state_or_clear(handle)
                & RESOURCE_BIT
            &&& !after.handle_state(handle).locked && !after.handle_state(handle).high_locked
            &&& !after.high.dom().contains(handle)
            &&& only_properties_changed(manager, after, handle)
        }),
{
    lemma_property_bits(manager.state_or_clear(handle), 0);
    assert(0x40u8 & 0x80u8 == 0) by (bit_vector);
}

/// The null handle has no properties: nothing that is done to it changes
/// anything.
pub proof fn null_handle_has_no_properties(
    manager: ManagerModel,
    high: bool,
    purgeable: bool,
    resource: bool,
    saved: u8,
)
    ensures
        manager.lock(0, high) == manager,
        manager.unlock(0) == manager,
        manager.set_purgeable(0, purgeable) == manager,
        manager.set_resource(0, resource) == manager,
        manager.restore_state(0, saved) == manager,
{
}

} // verus!
