use flashkraft::hotplug::{event_for, UsbHotplugEvent};

#[test]
fn test_event_traits() {
    let a = UsbHotplugEvent::Arrived;
    let b = UsbHotplugEvent::Left;

    let a2 = a.clone();
    let b2 = b.clone();

    assert_eq!(a, a2);
    assert_eq!(b, b2);
    assert_ne!(a, b);

    assert!(format!("{a:?}").contains("Arrived"));
    assert!(format!("{b:?}").contains("Left"));
}

#[test]
fn test_variant_exhaustiveness() {
    for event in [UsbHotplugEvent::Arrived, UsbHotplugEvent::Left] {
        let label = match event {
            UsbHotplugEvent::Arrived => "arrived",
            UsbHotplugEvent::Left => "left",
        };
        assert!(!label.is_empty());
    }
}

#[test]
fn connection_maps_to_arrival_and_departure() {
    assert_eq!(event_for(true), UsbHotplugEvent::Arrived);
    assert_eq!(event_for(false), UsbHotplugEvent::Left);
}
