//! Quit events: the request to stop the service, and where it is
//! delivered. A handler can be installed once; until a choice is made
//! known, events go to the channel.

use vstd::prelude::*;

verus! {

/// The request to stop the service.
#[derive(Clone, Copy, Debug, PartialEq, Eq, Structural)]
pub struct QuitEvent {}

/// What is known of the handler of quit events. The first choice made
/// stays.
#[derive(Clone, Copy, Debug, PartialEq, Eq, Structural)]
pub enum HandlerSlot {
    /// No choice was made yet.
    Unset,
    /// It was settled that there is no handler.
    Vacant,
    /// A handler is installed.
    Installed,
}

/// Where a quit event goes.
#[derive(Clone, Copy, Debug, PartialEq, Eq, Structural)]
pub enum QuitRoute {
    /// To the installed handler.
    Handler,
    /// Into the channel of quit events.
    Channel,
}

/// The slot after a handler, or none, was offered: an unset slot takes
/// the offer, a settled one stays.
pub open spec fn slot_after_offer(slot: HandlerSlot, handler_given: bool) -> HandlerSlot {
    match slot {
        HandlerSlot::Unset => if handler_given {
            HandlerSlot::Installed
        } else {
            HandlerSlot::Vacant
        },
        settled => settled,
    }
}

/// The slot after an event was sent: an unset slot is settled as vacant.
pub open spec fn slot_after_send(slot: HandlerSlot) -> HandlerSlot {
    slot_after_offer(slot, false)
}

/// Where an event goes for a slot: to the handler if one is installed,
/// else into the channel.
pub open spec fn route_for(slot: HandlerSlot) -> QuitRoute {
    match slot {
        HandlerSlot::Installed => QuitRoute::Handler,
        _ => QuitRoute::Channel,
    }
}

impl QuitEvent {
    /// Offers a handler, or settles that there is none. Only the first
    /// offer counts; the result says whether this one did.
    pub fn set_event_handler(slot: &mut HandlerSlot, handler_given: bool) -> (accepted: bool)
        ensures
            *final(slot) == slot_after_offer(*old(slot), handler_given),
            accepted == (*old(slot) == HandlerSlot::Unset),
    {
        match *slot {
            HandlerSlot::Unset => {
                if handler_given {
                    *slot = HandlerSlot::Installed;
                } else {
                    *slot = HandlerSlot::Vacant;
                }
                true
            },
            _ => false,
        }
    }

    /// Decides where an event goes, and settles an unset slot as vacant.
    pub fn send(slot: &mut HandlerSlot, event: QuitEvent) -> (route: QuitRoute)
        ensures
            *final(slot) == slot_after_send(*old(slot)),
            route == route_for(*old(slot)),
            route == route_for(*final(slot)),
    {
        match *slot {
            HandlerSlot::Installed => QuitRoute::Handler,
            HandlerSlot::Vacant => QuitRoute::Channel,
            HandlerSlot::Unset => {
                *slot = HandlerSlot::Vacant;
                QuitRoute::Channel
            },
        }
    }
}

/// Once a slot is settled, no offer and no event changes it, nor where
/// events go.
pub proof fn lemma_settled_slot_stays(slot: HandlerSlot, handler_given: bool)
    requires
        slot != HandlerSlot::Unset,
    ensures
        slot_after_offer(slot, handler_given) == slot,
        slot_after_send(slot) == slot,
        slot_after_offer(slot_after_offer(HandlerSlot::Unset, handler_given), !handler_given)
            == slot_after_offer(HandlerSlot::Unset, handler_given),
{
}

} // verus!
