//! What the Memory Manager reports: the error that an operation answers is the
//! one that the heap remembers, and it says why the operation was refused.

use crate::bus::BusModel;
use crate::guest_memory::SpaceModel;
use crate::memory_model::{ManagerModel, ProcessNewHandleRequest};
use vstd::prelude::*;

verus! {

/// A reported error is remembered, and nothing but the report changes.
pub proof fn reported_error_is_remembered(manager: ManagerModel, error: i16)
    requires
        manager.native is Some,
    ensures
        ({
            let after = manager.mem_error(error);
            &&& after.last_error() == error
            &&& after.records == manager.records
            &&& after.states == manager.states
            &&& after.high == manager.high
            &&& after.ptr_to_handle == manager.ptr_to_handle
            &&& after.native_ptrs == manager.native_ptrs
            &&& after.native_handles == manager.native_handles
            &&& after.classic == manager.classic
            &&& after.native->0.ptrs == manager.native->0.ptrs
            &&& after.native->0.free_ptrs == manager.native->0.free_ptrs
            &&& after.native->0.free_handles == manager.native->0.free_handles
            &&& after.native->0.heap.heap_cursor == manager.native->0.heap.heap_cursor
            &&& after.native->0.heap.heap_limit == manager.native->0.heap.heap_limit
        }),
{
}

/// A fixed block is given out without an error, or refused because memory is
/// full; a refusal leaves the blocks as they are.
pub proof fn fixed_block_request_reports_why(
    manager: ManagerModel,
    space: SpaceModel,
    size: u32,
    clear: bool,
)
    requires
        manager.native is Some,
    ensures
        ({
            let (after, ready, ptr) = manager.new_native_ptr(space, size, clear);
            let blocks = manager.native->0.ptrs;
            ||| after.last_error() == 0 && after.native->0.ptrs.len() == blocks.len() + 1
                && after.native->0.ptrs.last().ptr == ptr && after.native->0.ptrs.last().size
                == size
            ||| after.last_error() == -108 && after.native->0.ptrs == blocks && ptr == 0 && ready
                == space
        }),
{
}

/// A handle is given out without an error; a request for which no place is
/// left is refused because memory is full.
pub proof fn handle_request_reports_why(
    manager: ManagerModel,
    space: SpaceModel,
    size: u32,
    clear: bool,
)
    requires
        manager.native is Some,
    ensures
        ({
            let (after, ready, handle) = manager.allocate_native_handle(space, size, clear);
            &&& handle != 0 ==> after.last_error() == 0
            &&& after.last_error() == 0 || after.last_error() == -108 && handle == 0
                && after.records == manager.records
            &&& size > u32::MAX - 15 ==> handle == 0 && after.last_error() == -108
            &&& crate::native_heap::native_size(size) is Some && manager.choose_handle(
                manager.native->0,
                space.exclusions,
                size,
                crate::native_heap::native_size(size)->0,
            ) is None ==> handle == 0 && after.last_error() == -108 && ready == space
        }),
{
}

/// What a handle request answers is what is remembered; a negative size is
/// refused because memory is full.
pub proof fn handle_request_answers_what_is_remembered(
    manager: ManagerModel,
    space: SpaceModel,
    bus: BusModel,
    request: ProcessNewHandleRequest,
)
    requires
        manager.native is Some,
    ensures
        ({
            let (after, _, result) = manager.new_handle_native(space, request);
            &&& after.last_error() == result.error
            &&& request.logical_size < 0 ==> result.error == -108 && result.handle == 0
        }),
        ({
            let (after, _, result) = manager.new_handle_classic(bus, request);
            &&& after.last_error() == result.error
            &&& request.logical_size < 0 ==> result.error == -108 && result.handle == 0
        }),
{
}

/// Disposing of a handle that the native heap does not know is no error and
/// changes nothing; one whose master pointer cannot be written stays.
pub proof fn disposal_reports_why(manager: ManagerModel, space: SpaceModel, handle: u32)
    requires
        manager.native is Some,
    ensures
        ({
            let (after, left, gone) = manager.dispose_native_handle(space, handle);
            &&& manager.record(handle) is None ==> after.last_error() == 0 && gone is None && left
                == space && after.records == manager.records
            &&& manager.record(handle) is Some && !space.accepts(handle as int, 4)
                ==> after.last_error() == -109 && gone is None && left == space && after.records
                == manager.records
            &&& manager.record(handle) is Some && space.accepts(handle as int, 4)
                ==> after.last_error() == 0 && gone == manager.record(handle)
        }),
{
}

/// What emptying a handle answers is what is remembered: an unknown handle is
/// nil, a locked one is not purged.
pub proof fn emptying_reports_why(manager: ManagerModel, space: SpaceModel, handle: u32)
    requires
        manager.native is Some,
    ensures
        ({
            let (after, left, error) = manager.empty_native(space, handle);
            &&& after.last_error() == error
            &&& manager.record(handle) is None ==> error == -109
            &&& manager.record(handle) is Some && manager.handle_state(handle).locked ==> error
                == -112
            &&& error != 0 ==> left == space && after.records == manager.records
        }),
{
    assert(64u8 & 128u8 == 0) by (bit_vector);
}

/// What a change of size answers is what is remembered, and an unknown handle
/// is nil.
pub proof fn resizing_reports_why(
    manager: ManagerModel,
    space: SpaceModel,
    handle: u32,
    ptr: u32,
    size: u32,
)
    requires
        manager.native is Some,
    ensures
        ({
            let (after, _, error) = manager.set_native_handle_size(space, handle, size);
            &&& after.last_error() == error
            &&& manager.record(handle) is None ==> error == -109
        }),
        ({
            let (after, _, error) = manager.set_native_ptr_size(space, ptr, size);
            after.last_error() == error
        }),
{
}

/// What an imported operation answers is what is remembered.
pub proof fn imported_operation_reports_why(
    manager: ManagerModel,
    space: SpaceModel,
    handle: u32,
    size: u32,
)
    requires
        manager.native is Some,
    ensures
        ({
            let (after, _, error) = manager.import_set_ptr_size(space, handle, size);
            after.last_error() == error
        }),
        ({
            let (after, _, error) = manager.import_empty(space, handle);
            after.last_error() == error
        }),
        ({
            let (after, _, copy) = manager.import_copy(space, handle);
            copy is Err ==> after.last_error() == copy->Err_0
        }),
        ({
            let (after, _, copy) = manager.import_copy(space, handle);
            copy is Ok ==> after.last_error() == 0
        }),
{
}

/// What a change of size of an imported handle answers is what is remembered.
pub proof fn imported_resizing_reports_why(
    manager: ManagerModel,
    space: SpaceModel,
    handle: u32,
    size: u32,
)
    requires
        manager.native is Some,
    ensures
        ({
            let (after, _, error) = manager.import_set_handle_size(space, handle, size);
            after.last_error() == error
        }),
{
}

/// What an operation on a handle of either heap answers is what is
/// remembered.
pub proof fn handle_operation_reports_why(
    manager: ManagerModel,
    bus: BusModel,
    handle: u32,
    size: u32,
)
    requires
        manager.native is Some,
    ensures
        ({
            let (after, _, error) = manager.set_ptr_size(bus, handle, size);
            after.last_error() == error
        }),
{
}

/// What emptying a handle of the native heap answers is what is remembered.
pub proof fn emptying_a_recorded_handle_reports_why(
    manager: ManagerModel,
    bus: BusModel,
    handle: u32,
)
    requires
        manager.native is Some,
        manager.record(handle) is Some,
    ensures
        ({
            let (after, _, error) = manager.empty_handle(bus, handle);
            after.last_error() == error
        }),
{
}

/// What a change of size of a handle answers is what is remembered.
pub proof fn resizing_a_handle_reports_why(
    manager: ManagerModel,
    bus: BusModel,
    handle: u32,
    size: u32,
)
    requires
        manager.native is Some,
        manager.record(handle) is Some,
        handle != 0,
    ensures
        ({
            let (after, _, error) = manager.set_handle_size(bus, handle, size);
            after.last_error() == error
        }),
{
}

/// A copy of bytes that is refused is remembered with the error that it
/// answers.
pub proof fn refused_copy_reports_why(
    manager: ManagerModel,
    bus: BusModel,
    space: SpaceModel,
    bytes: Seq<u8>,
)
    requires
        manager.native is Some,
    ensures
        bytes.len() > u32::MAX ==> manager.copy_to_native(space, bytes).0.last_error() == -108
            && manager.copy_to_native(space, bytes).2 == 0,
        ({
            let (after, _, copy) = manager.copy_to_classic(bus, bytes);
            copy is Err && bytes.len() <= u32::MAX ==> after.last_error() == copy->Err_0
        }),
{
}

/// A block is not moved for a handle that leads elsewhere than expected, nor
/// for more bytes than a block can hold; the answer says why, and the memory
/// stays as it is.
pub proof fn refused_relocation_reports_why(
    manager: ManagerModel,
    bus: BusModel,
    handle: u32,
    expected_ptr: u32,
    bytes: Seq<u8>,
    force: bool,
)
    requires
        manager.native is Some,
    ensures
        ({
            let (after, written, result) = manager.relocate(
                bus,
                handle,
                expected_ptr,
                bytes,
                force,
            );
            let stray = manager.record(handle) is None || bus.long(handle as int) != expected_ptr
                || manager.record(handle)->0.ptr != expected_ptr;
            &&& result is Err ==> after.last_error() == result->Err_0 && after.records
                == manager.records
            &&& result is Ok ==> after.last_error() == 0
            &&& stray ==> result is Err && result->Err_0 == -109 && written == bus
            &&& !stray && expected_ptr != 0 && bytes.len() > u32::MAX - 15 ==> result is Err
                && result->Err_0 == -108 && written == bus
        }),
{
}

} // verus!
