//! The event consumer's decisions.

use vstd::prelude::*;
use crate::server::EventView;
use crate::server::ServerEvent;

verus! {

/// The consumer of the registry's events. It tears down a connection when
/// told that it is gone, and reacts to nothing else.
pub struct Service {}

impl Service {
    /// The handle to disconnect in response to `event`, if any: the handle
    /// of a `Disconnect` event, and nothing for every other event.
    pub fn reaction(event: &ServerEvent) -> (r: Option<usize>)
        ensures
            match event@ {
                EventView::Disconnect(h) => r == Some(h),
                _ => r is None,
            },
    {
        match event {
            ServerEvent::Disconnect(h) => Some(*h),
            _ => None,
        }
    }
}

} // verus!
