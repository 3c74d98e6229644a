//! The inbound event task's logic: one step consumes the next protocol
//! event and applies it to the progress store. The surrounding loop — owning
//! the read half of the connection, waiting for the next event, sending any
//! required reply — performs I/O and lives outside the verified core; it
//! translates each wire message into a `ServerEvent` and obeys the returned
//! step.

use vstd::prelude::*;
use crate::store::{ProgressStore, StoreModel};

verus! {

/// An inbound protocol event, as the connection's read half hands it over.
#[derive(Clone, Copy, PartialEq, Eq, Structural, Debug)]
pub enum ServerEvent {
    /// The server reports this location as checked (an echo of our own
    /// check, or a coupled check from another slot).
    LocationChecked(u64),
    /// The server delivers an item to this slot.
    ItemReceived(u64),
    /// The server asks for a status report.
    StatusQuery,
    /// A payload the translation layer could not make sense of.
    Malformed,
    /// The connection closed or failed fatally.
    Disconnected,
}

/// What the inbound loop must do after a step.
#[derive(Clone, Copy, PartialEq, Eq, Structural, Debug)]
pub enum InboundStep {
    /// Wait for the next event.
    Continue,
    /// Send a status report, then wait for the next event.
    RespondStatus,
    /// The connection is gone: end the loop and let the process wind down.
    Terminate,
}

/// The step each event kind demands of the loop: only a disconnect
/// terminates it, only a status query asks for a reply.
pub open spec fn step_of(ev: ServerEvent) -> InboundStep {
    match ev {
        ServerEvent::StatusQuery => InboundStep::RespondStatus,
        ServerEvent::Disconnected => InboundStep::Terminate,
        _ => InboundStep::Continue,
    }
}

/// How one event changes the store's content: a location update grows the
/// checked list by the id unless it was already present, an item receipt
/// appends to the item log, and every other event leaves the store as it
/// was. Identity and location map are never touched.
pub open spec fn event_effect(pre: StoreModel, post: StoreModel, ev: ServerEvent) -> bool {
    match ev {
        ServerEvent::LocationChecked(id) => post == (StoreModel {
            checked: if pre.checked.contains(id) {
                pre.checked
            } else {
                pre.checked.push(id)
            },
            ..pre
        }),
        ServerEvent::ItemReceived(item_id) => post == (StoreModel {
            items: pre.items.push(item_id),
            ..pre
        }),
        _ => post == pre,
    }
}

/// One step of the inbound task: dispatches a single event.
///
/// - A location update is applied to the store idempotently; a repeated id
///   changes nothing.
/// - A received item is appended to the item log.
/// - A status query touches no state and asks the loop to respond.
/// - A malformed event is skipped — never fatal, the loop continues.
/// - A disconnect touches no state and terminates the loop.
pub fn handle_event(store: &mut ProgressStore, ev: ServerEvent) -> (step: InboundStep)
    requires
        old(store).wf(),
    ensures
        final(store).wf(),
        step == step_of(ev),
        event_effect(old(store).model(), final(store).model(), ev),
        final(store).checked_set() == match ev {
            ServerEvent::LocationChecked(id) => old(store).checked_set().insert(id),
            _ => old(store).checked_set(),
        },
{
    match ev {
        ServerEvent::LocationChecked(id) => {
            store.mark_location_checked(id);
            InboundStep::Continue
        },
        ServerEvent::ItemReceived(item_id) => {
            store.record_item(item_id);
            InboundStep::Continue
        },
        ServerEvent::StatusQuery => InboundStep::RespondStatus,
        ServerEvent::Malformed => InboundStep::Continue,
        ServerEvent::Disconnected => InboundStep::Terminate,
    }
}

} // verus!
