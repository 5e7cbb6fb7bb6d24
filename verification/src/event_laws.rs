//! Which handler an Apple event goes to.

use crate::apple_events::{AppleEventMap, ProcessAppleEventHandler};
use vstd::prelude::*;

verus! {

/// An event goes to the first handler in the order in which a handler can be
/// meant for it: the application's for exactly this event, for its class, for
/// its ID, for every event, and then the system's in the same order. Where no
/// such handler is installed it goes to none.
pub proof fn event_goes_to_the_first_match(
    handlers: AppleEventMap,
    event_class: u32,
    event_id: u32,
    wildcard: u32,
)
    ensures
        ({
            let keys = seq![
                (false, event_class, event_id),
                (false, event_class, wildcard),
                (false, wildcard, event_id),
                (false, wildcard, wildcard),
                (true, event_class, event_id),
                (true, event_class, wildcard),
                (true, wildcard, event_id),
                (true, wildcard, wildcard),
            ];
            let found = crate::apple_events::dispatched_handler(
                handlers,
                event_class,
                event_id,
                wildcard,
            );
            &&& forall|i: int|
                0 <= i < 8 && handlers.dom().contains(#[trigger] keys[i]) && (forall|j: int|
                    0 <= j < i ==> !handlers.dom().contains(#[trigger] keys[j])) ==> found == Some(
                    handlers[keys[i]],
                )
            &&& found is None <==> forall|i: int|
                0 <= i < 8 ==> !handlers.dom().contains(#[trigger] keys[i])
        }),
{
    let keys = seq![
        (false, event_class, event_id),
        (false, event_class, wildcard),
        (false, wildcard, event_id),
        (false, wildcard, wildcard),
        (true, event_class, event_id),
        (true, event_class, wildcard),
        (true, wildcard, event_id),
        (true, wildcard, wildcard),
    ];
    assert(keys[0] == (false, event_class, event_id));
    assert(keys[1] == (false, event_class, wildcard));
    assert(keys[2] == (false, wildcard, event_id));
    assert(keys[3] == (false, wildcard, wildcard));
    assert(keys[4] == (true, event_class, event_id));
    assert(keys[5] == (true, event_class, wildcard));
    assert(keys[6] == (true, wildcard, event_id));
    assert(keys[7] == (true, wildcard, wildcard));
}

/// A handler of the system for exactly one event answers it wherever no
/// handler of the application can be meant for it.
pub proof fn system_handler_answers_without_an_application_match(
    handlers: AppleEventMap,
    event_class: u32,
    event_id: u32,
    wildcard: u32,
    handler: ProcessAppleEventHandler,
)
    requires
        forall|class: u32, id: u32| #[trigger]
            handlers.dom().contains((false, class, id)) ==> !((class == event_class || class
                == wildcard) && (id == event_id || id == wildcard)),
    ensures
        crate::apple_events::dispatched_handler(
            handlers.insert((true, event_class, event_id), handler),
            event_class,
            event_id,
            wildcard,
        ) == Some(handler),
{
    let installed = handlers.insert((true, event_class, event_id), handler);
    event_goes_to_the_first_match(installed, event_class, event_id, wildcard);
    assert(!handlers.dom().contains((false, event_class, event_id)));
    assert(!handlers.dom().contains((false, event_class, wildcard)));
    assert(!handlers.dom().contains((false, wildcard, event_id)));
    assert(!handlers.dom().contains((false, wildcard, wildcard)));
}

/// A handler that can be meant for an event is never passed over for none, and
/// what an event goes to is an installed handler that can be meant for it.
pub proof fn dispatched_handler_is_meant_for_the_event(
    handlers: AppleEventMap,
    event_class: u32,
    event_id: u32,
    wildcard: u32,
    key: (bool, u32, u32),
)
    ensures
        ({
            let found = crate::apple_events::dispatched_handler(
                handlers,
                event_class,
                event_id,
                wildcard,
            );
            &&& handlers.dom().contains(key) && (key.1 == event_class || key.1 == wildcard) && (
            key.2 == event_id || key.2 == wildcard) ==> found is Some
            &&& found matches Some(handler) ==> exists|system: bool, class: u32, id: u32|
                #![trigger handlers.dom().contains((system, class, id))]
                handlers.dom().contains((system, class, id)) && handlers[(system, class, id)]
                    == handler && (class == event_class || class == wildcard) && (id == event_id
                    || id == wildcard)
        }),
{
    let found = crate::apple_events::dispatched_handler(handlers, event_class, event_id, wildcard);
    assert(key == (key.0, key.1, key.2));
    if found is Some {
        assert(exists|system: bool, class: u32, id: u32|
            #![trigger handlers.dom().contains((system, class, id))]
            handlers.dom().contains((system, class, id)) && handlers[(system, class, id)]
                == found->0 && (class == event_class || class == wildcard) && (id == event_id || id
                == wildcard)) by {
            assert(handlers.dom().contains((false, event_class, event_id))
                || handlers.dom().contains((false, event_class, wildcard))
                || handlers.dom().contains((false, wildcard, event_id))
                || handlers.dom().contains((false, wildcard, wildcard))
                || handlers.dom().contains((true, event_class, event_id))
                || handlers.dom().contains((true, event_class, wildcard))
                || handlers.dom().contains((true, wildcard, event_id))
                || handlers.dom().contains((true, wildcard, wildcard)));
        }
    }
}

} // verus!
