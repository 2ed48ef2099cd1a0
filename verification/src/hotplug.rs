//! USB hotplug triggers.
//!
//! A hotplug event only tells that some USB device came or went; drive data
//! always comes from re-running the enumeration afterwards.
use vstd::prelude::*;

verus! {

/// A USB hotplug trigger emitted when any USB device connects or
/// disconnects.
#[derive(Debug, Clone, Copy, PartialEq, Eq)]
pub enum UsbHotplugEvent {
    /// A USB device was connected.
    Arrived,
    /// A USB device was disconnected.
    Left,
}

/// The trigger for a device connection (`true`) or disconnection (`false`).
pub fn event_for(connected: bool) -> (r: UsbHotplugEvent)
    ensures
        r == (if connected {
            UsbHotplugEvent::Arrived
        } else {
            UsbHotplugEvent::Left
        }),
{
    if connected {
        UsbHotplugEvent::Arrived
    } else {
        UsbHotplugEvent::Left
    }
}

} // verus!
