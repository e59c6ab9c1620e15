//! Notifications published to subscribers, and the request body wrapper of
//! the control plane.

use vstd::prelude::*;
use crate::monitor::RequestLog;

verus! {

/// One published event. Delivery is best effort: a subscriber that falls
/// behind misses events.
pub enum SseEvent {
    ProxyRequest(RequestLog),
    ConfigUpdated,
    AccountSwitched,
}

pub open spec fn event_type_spec(e: &SseEvent) -> Seq<char> {
    match e {
        SseEvent::ProxyRequest(_) => "ProxyRequest"@,
        SseEvent::ConfigUpdated => "ConfigUpdated"@,
        SseEvent::AccountSwitched => "AccountSwitched"@,
    }
}

impl SseEvent {
    /// The event's type tag as subscribers see it.
    pub fn event_type(&self) -> (r: &'static str)
        ensures
            r@ == event_type_spec(self),
    {
        match self {
            SseEvent::ProxyRequest(_) => "ProxyRequest",
            SseEvent::ConfigUpdated => "ConfigUpdated",
            SseEvent::AccountSwitched => "AccountSwitched",
        }
    }
}

/// A request body decoded from JSON.
pub struct AppJson<T>(pub T);

impl<T> AppJson<T> {
    pub fn into_inner(self) -> (r: T)
        ensures
            r == self.0,
    {
        self.0
    }
}

} // verus!
