//! Reconciliation passes over the device registry, and the manager and
//! module around them.

use device_manager::device_manager::DeviceManager;
use device_manager::input_collector::InputCollector;
use device_manager::module::{DeviceManagerModule, ModuleAction};
use device_manager::signals::{Perceptron, Signaler, INPUTS_CHANGED, OUTPUTS_CHANGED};
use device_manager::udev::{DeviceInfo, DeviceKind, Udev, UdevDevice};

fn event_node(sysname: &str, devnode: &str, kind: DeviceKind) -> UdevDevice {
    UdevDevice {
        sysname: sysname.to_string(),
        devnode: Some(devnode.to_string()),
        has_mouse_property: kind == DeviceKind::Mouse,
        has_touchpad_property: kind == DeviceKind::Touchpad,
        has_keyboard_property: kind == DeviceKind::Keyboard,
        exists: true,
    }
}

#[test]
fn initial_scan_then_hotplug_scan() {
    let mut collector = InputCollector::new(Udev::new());
    let a = DeviceInfo::new("/dev/input/event3", DeviceKind::Keyboard);
    let b = DeviceInfo::new("/dev/input/event5", DeviceKind::Mouse);
    let c = DeviceInfo::new("/dev/input/event7", DeviceKind::Touchpad);

    // Initial scan over {A, B}: the registry is empty, so everything is added.
    let snapshot1 = vec![
        event_node("event3", "/dev/input/event3", DeviceKind::Keyboard),
        event_node("event5", "/dev/input/event5", DeviceKind::Mouse),
    ];
    let plan1 = collector.scan_devices(&snapshot1);
    assert_eq!(plan1.added, vec![a.clone(), b.clone()]);
    assert!(plan1.removed.is_empty());
    let deregistered = collector.apply_scan(&plan1, &vec![Some(1), Some(2)]);
    assert!(deregistered.is_empty());
    assert_eq!(collector.get_handle(&a), Some(1));
    assert_eq!(collector.get_handle(&b), Some(2));

    // Next scan over {B, C}: deregister A, register C, B untouched.
    let snapshot2 = vec![
        event_node("event5", "/dev/input/event5", DeviceKind::Mouse),
        event_node("event7", "/dev/input/event7", DeviceKind::Touchpad),
    ];
    let plan2 = collector.scan_devices(&snapshot2);
    assert_eq!(plan2.added, vec![c.clone()]);
    assert_eq!(plan2.removed, vec![a.clone()]);
    let deregistered = collector.apply_scan(&plan2, &vec![Some(3)]);
    assert_eq!(deregistered, vec![1]);
    assert_eq!(collector.get_handle(&a), None);
    assert_eq!(collector.get_handle(&b), Some(2));
    assert_eq!(collector.get_handle(&c), Some(3));

    let current = collector.collect_current_devices();
    assert_eq!(current, vec![b.clone(), c.clone()]);
}

#[test]
fn rescanning_an_unchanged_set_changes_nothing() {
    let mut collector = InputCollector::new(Udev::new());
    let snapshot = vec![
        event_node("event3", "/dev/input/event3", DeviceKind::Keyboard),
        event_node("event5", "/dev/input/event5", DeviceKind::Mouse),
    ];
    let plan = collector.scan_devices(&snapshot);
    collector.apply_scan(&plan, &vec![Some(10), Some(11)]);

    let again = collector.scan_devices(&snapshot);
    assert!(again.added.is_empty());
    assert!(again.removed.is_empty());
    let deregistered = collector.apply_scan(&again, &vec![]);
    assert!(deregistered.is_empty());
    let kbd = DeviceInfo::new("/dev/input/event3", DeviceKind::Keyboard);
    let mouse = DeviceInfo::new("/dev/input/event5", DeviceKind::Mouse);
    assert_eq!(collector.get_handle(&kbd), Some(10));
    assert_eq!(collector.get_handle(&mouse), Some(11));
}

#[test]
fn failed_driver_is_skipped_and_retried_next_pass() {
    let mut collector = InputCollector::new(Udev::new());
    let snapshot = vec![
        event_node("event3", "/dev/input/event3", DeviceKind::Keyboard),
        event_node("event5", "/dev/input/event5", DeviceKind::Mouse),
    ];
    let plan = collector.scan_devices(&snapshot);
    // The mouse's driver could not be initialized.
    collector.apply_scan(&plan, &vec![Some(1), None]);
    let kbd = DeviceInfo::new("/dev/input/event3", DeviceKind::Keyboard);
    let mouse = DeviceInfo::new("/dev/input/event5", DeviceKind::Mouse);
    assert_eq!(collector.get_handle(&kbd), Some(1));
    assert_eq!(collector.get_handle(&mouse), None);

    // It stays in the difference, so the next pass plans it again.
    let retry = collector.scan_devices(&snapshot);
    assert_eq!(retry.added, vec![mouse.clone()]);
    assert!(retry.removed.is_empty());
}

#[test]
fn duplicate_enumeration_entries_collapse() {
    let collector = InputCollector::new(Udev::new());
    let kbd = DeviceInfo::new("/dev/input/event3", DeviceKind::Keyboard);
    let plan = collector.plan_scan(&vec![kbd.clone(), kbd.clone(), kbd.clone()]);
    assert_eq!(plan.added, vec![kbd]);
    assert!(plan.removed.is_empty());
}

#[test]
fn lost_device_never_registered_is_tolerated() {
    let mut collector = InputCollector::new(Udev::new());
    let ghost_device = DeviceInfo::new("/dev/input/event9", DeviceKind::Mouse);
    assert_eq!(collector.handle_lost_device(&ghost_device), None);
    assert!(!collector.is_registered(&ghost_device));
}

#[test]
fn manager_runs_output_and_input_scans() {
    let manager = DeviceManager::new();
    let snapshot = vec![
        event_node("event3", "/dev/input/event3", DeviceKind::Keyboard),
        UdevDevice {
            sysname: "card0".to_string(),
            devnode: Some("/dev/dri/card0".to_string()),
            has_mouse_property: false,
            has_touchpad_property: false,
            has_keyboard_property: false,
            exists: true,
        },
    ];
    let outputs = manager.scan_output_devices(&snapshot);
    assert_eq!(outputs, vec!["/dev/dri/card0".to_string()]);
    let plan = manager.scan_input_devices(&snapshot);
    assert_eq!(plan.added, vec![DeviceInfo::new("/dev/input/event3", DeviceKind::Keyboard)]);
    assert!(plan.removed.is_empty());
}

#[test]
fn manager_wraps_a_started_monitor_and_degrades_on_failure() {
    let manager = DeviceManager::new();
    match manager.initialize_device_monitor(Ok(9), Signaler::new()) {
        Ok(monitor) => assert_eq!(monitor.get_fd(), 9),
        Err(_) => panic!("a live subscription must become a monitor"),
    }
    let failure = device_manager::error::Illusion::General("no subscription".to_string());
    assert!(manager.initialize_device_monitor(Err(failure), Signaler::new()).is_err());
}

#[test]
fn module_subscribes_and_routes() {
    let mut module = DeviceManagerModule::new();
    assert!(module.manager.is_none());
    let signals = module.initialize();
    assert_eq!(signals, vec![INPUTS_CHANGED, OUTPUTS_CHANGED]);
    assert!(module.manager.is_some());
    assert_eq!(module.execute(&Perceptron::InputsChanged), ModuleAction::RescanInputs);
    assert_eq!(module.execute(&Perceptron::OutputsChanged), ModuleAction::RescanOutputs);
    assert_eq!(module.execute(&Perceptron::Custom(17)), ModuleAction::Ignore);
    module.finalize();
}
