//! Classification, name filtering and enumeration of device snapshots.

use device_manager::udev::{
    determine_device_kind, exists_in_filesystem, is_input_device, is_output_device,
    str_starts_with, DeviceInfo, DeviceKind, Udev, UdevDevice,
};

fn record(
    sysname: &str,
    devnode: Option<&str>,
    mouse: bool,
    touchpad: bool,
    keyboard: bool,
    exists: bool,
) -> UdevDevice {
    UdevDevice {
        sysname: sysname.to_string(),
        devnode: devnode.map(|d| d.to_string()),
        has_mouse_property: mouse,
        has_touchpad_property: touchpad,
        has_keyboard_property: keyboard,
        exists,
    }
}

#[test]
fn kind_priority_is_mouse_touchpad_keyboard() {
    let all = record("event0", Some("/dev/input/event0"), true, true, true, true);
    assert_eq!(determine_device_kind(&all), DeviceKind::Mouse);
    let tp_kb = record("event0", Some("/dev/input/event0"), false, true, true, true);
    assert_eq!(determine_device_kind(&tp_kb), DeviceKind::Touchpad);
    let kb = record("event0", Some("/dev/input/event0"), false, false, true, true);
    assert_eq!(determine_device_kind(&kb), DeviceKind::Keyboard);
    let none = record("event0", Some("/dev/input/event0"), false, false, false, true);
    assert_eq!(determine_device_kind(&none), DeviceKind::Unknown);
}

#[test]
fn name_conventions() {
    assert!(is_input_device(&record("event5", None, false, false, false, true)));
    assert!(!is_input_device(&record("card0", None, false, false, false, true)));
    assert!(!is_input_device(&record("mouse2", None, false, false, false, true)));
    assert!(is_output_device(&record("card0", None, false, false, false, true)));
    assert!(is_output_device(&record("card17", None, false, false, false, true)));
    // Connector and render sub-nodes are not controller cards.
    assert!(!is_output_device(&record("card1-HDMI-A-1", None, false, false, false, true)));
    assert!(!is_output_device(&record("renderD128", None, false, false, false, true)));
    assert!(!is_output_device(&record("card", None, false, false, false, true)));
    assert!(!is_output_device(&record("event3", None, false, false, false, true)));
}

#[test]
fn starts_with_edges() {
    assert!(str_starts_with("event12", "event"));
    assert!(str_starts_with("event", "event"));
    assert!(!str_starts_with("even", "event"));
    assert!(str_starts_with("anything", ""));
    assert!(!str_starts_with("", "card"));
}

#[test]
fn existence_flag_is_read_back() {
    assert!(exists_in_filesystem(&record("event1", None, false, false, false, true)));
    assert!(!exists_in_filesystem(&record("event1", None, false, false, false, false)));
}

#[test]
fn input_enumeration_filters() {
    let udev = Udev::new();
    let snapshot = vec![
        // kept: a keyboard event node that exists
        record("event3", Some("/dev/input/event3"), false, false, true, true),
        // dropped: no recognized property, kind Unknown
        record("event4", Some("/dev/input/event4"), false, false, false, true),
        // dropped: correctly classified mouse, but not an event node by name
        record("mouse0", Some("/dev/input/mouse0"), true, false, false, true),
        // dropped: device node vanished from the filesystem
        record("event7", Some("/dev/input/event7"), false, true, false, false),
        // dropped: no device node advertised
        record("event8", None, true, false, false, true),
        // kept: a mouse event node that exists
        record("event5", Some("/dev/input/event5"), true, false, false, true),
    ];
    let found = udev.iterate_input_devices(&snapshot);
    assert_eq!(
        found,
        vec![
            DeviceInfo::new("/dev/input/event3", DeviceKind::Keyboard),
            DeviceInfo::new("/dev/input/event5", DeviceKind::Mouse),
        ]
    );
}

#[test]
fn output_enumeration_filters() {
    let udev = Udev::new();
    let snapshot = vec![
        record("card0", Some("/dev/dri/card0"), false, false, false, true),
        // dropped: render node, not a controller card by short name
        record("renderD128", Some("/dev/dri/renderD128"), false, false, false, true),
        // dropped: connector sub-node, even with an existing device node
        record("card0-HDMI-A-1", Some("/dev/dri/card0"), false, false, false, true),
        // dropped: node vanished
        record("card1", Some("/dev/dri/card1"), false, false, false, false),
        // dropped: no device node
        record("card2", None, false, false, false, true),
        // kept even though it carries input properties: only the name counts
        record("card3", Some("/dev/dri/card3"), true, false, true, true),
    ];
    let found = udev.iterate_drm_devices(&snapshot);
    assert_eq!(found, vec!["/dev/dri/card0".to_string(), "/dev/dri/card3".to_string()]);
}
