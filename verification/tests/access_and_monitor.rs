//! The privileged opener's decisions and the hotplug monitor's routing.

use device_manager::device_access::{
    OpenFollowUp, OsOpenError, RestrictedOpener, StatFollowUp,
};
use device_manager::device_monitor::DeviceMonitor;
use device_manager::error::Illusion;
use device_manager::signals::{Perceptron, Signaler, INPUTS_CHANGED, OUTPUTS_CHANGED};
use device_manager::udev::UdevDevice;

fn named_event(sysname: &str) -> UdevDevice {
    UdevDevice {
        sysname: sysname.to_string(),
        devnode: None,
        has_mouse_property: false,
        has_touchpad_property: false,
        has_keyboard_property: false,
        exists: true,
    }
}

#[test]
fn direct_open_needs_no_escalation() {
    let opener = RestrictedOpener::new();
    match opener.open_restricted("/dev/input/event3", Ok(7)) {
        OpenFollowUp::Done(Ok(fd)) => assert_eq!(fd, 7),
        other => panic!("expected the direct descriptor, got {:?}", other),
    }
}

#[test]
fn permission_failures_escalate() {
    let opener = RestrictedOpener::new();
    assert!(matches!(
        opener.open_restricted("/dev/input/event3", Err(OsOpenError::PermissionDenied)),
        OpenFollowUp::QueryDeviceNumber
    ));
    assert!(matches!(
        opener.open_restricted("/dev/input/event3", Err(OsOpenError::NotPermitted)),
        OpenFollowUp::QueryDeviceNumber
    ));
}

#[test]
fn other_os_errors_are_invalid_arguments_with_the_system_text() {
    let opener = RestrictedOpener::new();
    // 9 is the classic "bad file number"; the text must be the one the
    // system interface gives for that number, not anything of our own.
    match opener.open_restricted("/dev/input/event3", Err(OsOpenError::Other(9))) {
        OpenFollowUp::Done(Err(Illusion::InvalidArgument(text))) => {
            assert_eq!(text, nix::errno::Errno::from_raw(9).desc());
        },
        other => panic!("expected a final invalid-argument error, got {:?}", other),
    }
    match opener.open_restricted("/dev/input/event3", Err(OsOpenError::Other(2))) {
        OpenFollowUp::Done(Err(Illusion::InvalidArgument(text))) => {
            assert_eq!(text, nix::errno::Errno::from_raw(2).desc());
            assert_eq!(text, "No such file or directory");
        },
        other => panic!("expected a final invalid-argument error, got {:?}", other),
    }
}

#[test]
fn nonexistent_path_is_final_and_named() {
    let opener = RestrictedOpener::new();
    match opener.open_restricted("/dev/nope", Err(OsOpenError::InvalidPath)) {
        OpenFollowUp::Done(Err(Illusion::InvalidArgument(text))) => {
            assert_eq!(text, "Path '/dev/nope' does not exist!");
        },
        other => panic!("expected a final invalid-argument error, got {:?}", other),
    }
}

#[test]
fn device_number_goes_to_the_session_service() {
    let opener = RestrictedOpener::new();
    assert!(matches!(
        opener.resolve_stat("/dev/input/event3", Some(13319)),
        StatFollowUp::TakeDevice(13319)
    ));
    match opener.resolve_stat("/dev/input/event3", None) {
        StatFollowUp::Done(Err(Illusion::General(text))) => {
            assert_eq!(text, "Could not stat file '/dev/input/event3'");
        },
        other => panic!("expected a final general error, got {:?}", other),
    }
}

#[test]
fn escalation_answer_is_propagated_unchanged() {
    let opener = RestrictedOpener::new();
    match opener.finish_escalation(Ok(4)) {
        Ok(fd) => assert_eq!(fd, 4),
        Err(_) => panic!("a granted descriptor must come through"),
    }
    match opener.finish_escalation(Err(Illusion::General("denied by seat policy".to_string()))) {
        Err(Illusion::General(text)) => assert_eq!(text, "denied by seat policy"),
        other => panic!("the service's error must come through, got {:?}", other),
    }
}

#[test]
fn session_initialization_is_non_fatal() {
    let mut opener = RestrictedOpener::new();
    let failed = opener.initialize_ipc(Err(Illusion::General("no session bus".to_string())));
    assert!(failed.is_err());
    // Direct opens are unaffected afterwards.
    assert!(matches!(
        opener.open_restricted("/dev/input/event3", Ok(3)),
        OpenFollowUp::Done(Ok(3))
    ));
    let mut opener = RestrictedOpener::new();
    assert!(opener.initialize_ipc(Ok(())).is_ok());
}

#[test]
fn one_output_event_emits_exactly_one_outputs_changed() {
    let mut monitor = DeviceMonitor::new(5, Signaler::new());
    assert_eq!(monitor.get_fd(), 5);
    monitor.process_event(Some(&named_event("card1")));
    let emitted = monitor.take_emitted();
    assert_eq!(emitted, vec![(OUTPUTS_CHANGED, Perceptron::OutputsChanged)]);
}

#[test]
fn one_input_event_emits_exactly_one_inputs_changed() {
    let mut monitor = DeviceMonitor::new(5, Signaler::new());
    monitor.process_event(Some(&named_event("event12")));
    let emitted = monitor.take_emitted();
    assert_eq!(emitted, vec![(INPUTS_CHANGED, Perceptron::InputsChanged)]);
}

#[test]
fn unmatched_event_emits_nothing() {
    let mut monitor = DeviceMonitor::new(5, Signaler::new());
    monitor.process_event(Some(&named_event("usb3-1.2")));
    assert!(monitor.take_emitted().is_empty());
}

#[test]
fn connector_event_emits_nothing() {
    // A connector sub-node matches neither the input nor the output
    // naming convention, so the event is dropped silently.
    let mut monitor = DeviceMonitor::new(5, Signaler::new());
    monitor.process_event(Some(&named_event("card0-HDMI-A-1")));
    assert!(monitor.take_emitted().is_empty());
}

#[test]
fn spurious_wake_is_a_no_op() {
    let mut monitor = DeviceMonitor::new(5, Signaler::new());
    monitor.process_event(None);
    assert!(monitor.take_emitted().is_empty());
}

#[test]
fn mixed_input_event_still_counts_by_name() {
    // An event whose record carries an output-looking property set but an
    // input name routes by the name alone.
    let mut monitor = DeviceMonitor::new(5, Signaler::new());
    monitor.process_event(Some(&named_event("event0")));
    monitor.process_event(Some(&named_event("card0")));
    let emitted = monitor.take_emitted();
    assert_eq!(
        emitted,
        vec![
            (INPUTS_CHANGED, Perceptron::InputsChanged),
            (OUTPUTS_CHANGED, Perceptron::OutputsChanged),
        ]
    );
    assert!(monitor.take_emitted().is_empty());
}
