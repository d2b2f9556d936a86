//! The device database model: classification of input devices and filtering
//! of enumeration snapshots.
//!
//! The operating system's device database is an opaque external input.  The
//! enclosing process queries it and hands this library a snapshot: one
//! `UdevDevice` record per attached device, carrying exactly the facts the
//! logic reads — the short system name, the advertised device-node path,
//! the three input-class property flags, and whether the node still exists
//! on the filesystem.  Everything decided from a snapshot is verified here.

use vstd::prelude::*;

use crate::device_monitor::DeviceMonitor;
use crate::signals::Signaler;

verus! {

/// Raw file descriptor handed over by the operating system.
pub type RawFd = i32;

/// Kind of an input device, decided from its advertised properties.
#[derive(Clone, Copy, PartialEq, Eq, Structural, Hash, Debug)]
pub enum DeviceKind {
    Mouse,
    Touchpad,
    Keyboard,
    Unknown,
}

/// Mathematical identity of an input device: the pair a registry entry is
/// keyed by.
#[verifier::ext_equal]
pub ghost struct DeviceId {
    pub devnode: Seq<char>,
    pub device_kind: DeviceKind,
}

/// An input device as the registry and the reconciliation logic see it.
#[derive(Debug)]
pub struct DeviceInfo {
    pub devnode: String,
    pub device_kind: DeviceKind,
}

impl View for DeviceInfo {
    type V = DeviceId;

    open spec fn view(&self) -> DeviceId {
        DeviceId { devnode: self.devnode@, device_kind: self.device_kind }
    }
}

impl PartialEq for DeviceInfo {
    fn eq(&self, other: &Self) -> (r: bool) {
        self.devnode == other.devnode && self.device_kind == other.device_kind
    }
}

impl Eq for DeviceInfo {

}

impl vstd::std_specs::cmp::PartialEqSpecImpl for DeviceInfo {
    open spec fn obeys_eq_spec() -> bool {
        true
    }

    open spec fn eq_spec(&self, other: &Self) -> bool {
        self@ == other@
    }
}

impl Clone for DeviceInfo {
    fn clone(&self) -> (r: Self)
        ensures
            r == *self,
    {
        DeviceInfo { devnode: self.devnode.clone(), device_kind: self.device_kind }
    }
}

impl DeviceInfo {
    /// Constructs a new `DeviceInfo`.
    pub fn new(devnode: &str, device_kind: DeviceKind) -> (r: DeviceInfo)
        ensures
            r@ == (DeviceId { devnode: devnode@, device_kind }),
    {
        DeviceInfo { devnode: devnode.to_owned(), device_kind }
    }
}

/// One record of a device-database snapshot.
#[derive(Debug)]
pub struct UdevDevice {
    /// Short system name of the device entry, such as `event3` or `card0`.
    pub sysname: String,
    /// Path of the device node, if the entry advertises one.
    pub devnode: Option<String>,
    /// Whether the database marks the device as a mouse.
    pub has_mouse_property: bool,
    /// Whether the database marks the device as a touchpad.
    pub has_touchpad_property: bool,
    /// Whether the database marks the device as a keyboard.
    pub has_keyboard_property: bool,
    /// Whether the device node still existed on the filesystem when the
    /// snapshot was taken; enumeration can race with device teardown.
    pub exists: bool,
}

/// Mathematical content of one snapshot record.
#[verifier::ext_equal]
pub ghost struct UdevRecord {
    pub sysname: Seq<char>,
    pub devnode: Option<Seq<char>>,
    pub has_mouse_property: bool,
    pub has_touchpad_property: bool,
    pub has_keyboard_property: bool,
    pub exists: bool,
}

impl View for UdevDevice {
    type V = UdevRecord;

    open spec fn view(&self) -> UdevRecord {
        UdevRecord {
            sysname: self.sysname@,
            devnode: match self.devnode {
                Some(d) => Some(d@),
                None => None,
            },
            has_mouse_property: self.has_mouse_property,
            has_touchpad_property: self.has_touchpad_property,
            has_keyboard_property: self.has_keyboard_property,
            exists: self.exists,
        }
    }
}

/// The kind a record's property flags advertise, in fixed priority order:
/// mouse first, then touchpad, then keyboard; no flag means `Unknown`.
pub open spec fn spec_device_kind(r: UdevRecord) -> DeviceKind {
    if r.has_mouse_property {
        DeviceKind::Mouse
    } else if r.has_touchpad_property {
        DeviceKind::Touchpad
    } else if r.has_keyboard_property {
        DeviceKind::Keyboard
    } else {
        DeviceKind::Unknown
    }
}

/// Whether a short system name follows the input-event naming convention.
pub open spec fn spec_is_input_name(s: Seq<char>) -> bool {
    "event"@.is_prefix_of(s)
}

/// Whether a character is a decimal digit.
pub open spec fn spec_is_decimal_digit(c: char) -> bool {
    '0' <= c && c <= '9'
}

/// Whether a short system name follows the display-controller card naming
/// convention: `card` followed by decimal digits and nothing else.
/// Connector sub-nodes such as `card0-HDMI-A-1` and render nodes such as
/// `renderD128` do not match.
pub open spec fn spec_is_output_name(s: Seq<char>) -> bool {
    &&& "card"@.is_prefix_of(s)
    &&& s.len() > "card"@.len()
    &&& forall|i: int| "card"@.len() <= i < s.len() ==> spec_is_decimal_digit(s[i])
}

/// Whether an input enumeration pass keeps this record: it must classify to
/// a known kind, be an event node by name, advertise a device node, and
/// that node must still exist.
pub open spec fn spec_input_accepted(r: UdevRecord) -> bool {
    &&& spec_device_kind(r) != DeviceKind::Unknown
    &&& spec_is_input_name(r.sysname)
    &&& r.devnode is Some
    &&& r.exists
}

/// The registry key an accepted input record maps to.
pub open spec fn spec_input_info(r: UdevRecord) -> DeviceId {
    DeviceId { devnode: r.devnode.unwrap(), device_kind: spec_device_kind(r) }
}

/// Whether an output enumeration pass keeps this record: a controller card
/// by name, with a device node that still exists.
pub open spec fn spec_output_accepted(r: UdevRecord) -> bool {
    &&& spec_is_output_name(r.sysname)
    &&& r.devnode is Some
    &&& r.exists
}

/// The input devices an enumeration snapshot yields, in snapshot order.
pub open spec fn spec_input_devices(s: Seq<UdevRecord>) -> Seq<DeviceId>
    decreases s.len(),
{
    if s.len() == 0 {
        Seq::empty()
    } else {
        let rest = spec_input_devices(s.drop_last());
        if spec_input_accepted(s.last()) {
            rest.push(spec_input_info(s.last()))
        } else {
            rest
        }
    }
}

/// The output device nodes an enumeration snapshot yields, in snapshot
/// order.
pub open spec fn spec_output_devices(s: Seq<UdevRecord>) -> Seq<Seq<char>>
    decreases s.len(),
{
    if s.len() == 0 {
        Seq::empty()
    } else {
        let rest = spec_output_devices(s.drop_last());
        if spec_output_accepted(s.last()) {
            rest.push(s.last().devnode.unwrap())
        } else {
            rest
        }
    }
}

/// Law: an input enumeration pass yields a device exactly when some
/// snapshot record is accepted and maps to it.  So a candidate is excluded
/// — whatever else it advertises — when it classifies to `Unknown`, when
/// its short name is not an event name, when it advertises no device
/// node, or when that node no longer exists on the filesystem.
pub proof fn lemma_input_pass_membership(s: Seq<UdevRecord>, k: DeviceId)
    ensures
        spec_input_devices(s).contains(k) <==> (exists|i: int|
            0 <= i < s.len() && #[trigger] spec_input_accepted(s[i]) && spec_input_info(s[i])
                == k),
    decreases s.len(),
{
    if s.len() > 0 {
        lemma_input_pass_membership(s.drop_last(), k);
        let rest = spec_input_devices(s.drop_last());
        let yields = spec_input_devices(s);
        if yields.contains(k) {
            let j = choose|j: int| 0 <= j < yields.len() && yields[j] == k;
            if j < rest.len() {
                assert(rest[j] == k);
                assert(rest.contains(k));
                let i = choose|i: int|
                    0 <= i < s.drop_last().len() && #[trigger] spec_input_accepted(
                        s.drop_last()[i],
                    ) && spec_input_info(s.drop_last()[i]) == k;
                assert(s.drop_last()[i] == s[i]);
                assert(spec_input_accepted(s[i]) && spec_input_info(s[i]) == k);
            } else {
                assert(spec_input_accepted(s[s.len() - 1]) && spec_input_info(s[s.len() - 1])
                    == k);
            }
        }
        if exists|i: int|
            0 <= i < s.len() && #[trigger] spec_input_accepted(s[i]) && spec_input_info(s[i])
                == k {
            let i = choose|i: int|
                0 <= i < s.len() && #[trigger] spec_input_accepted(s[i]) && spec_input_info(s[i])
                    == k;
            if i < s.len() - 1 {
                assert(s.drop_last()[i] == s[i]);
                assert(spec_input_accepted(s.drop_last()[i]) && spec_input_info(s.drop_last()[i])
                    == k);
                assert(rest.contains(k));
                let j = choose|j: int| 0 <= j < rest.len() && rest[j] == k;
                assert(yields[j] == k);
            } else {
                assert(yields[yields.len() - 1] == k);
            }
            assert(yields.contains(k));
        }
    }
}

/// Law: an output enumeration pass yields a device node exactly when some
/// snapshot record is accepted and advertises it.  So a candidate is
/// excluded when its short name is not a controller-card name, when it
/// advertises no device node, or when that node no longer exists.
pub proof fn lemma_output_pass_membership(s: Seq<UdevRecord>, node: Seq<char>)
    ensures
        spec_output_devices(s).contains(node) <==> (exists|i: int|
            0 <= i < s.len() && #[trigger] spec_output_accepted(s[i]) && s[i].devnode.unwrap()
                == node),
    decreases s.len(),
{
    if s.len() > 0 {
        lemma_output_pass_membership(s.drop_last(), node);
        let rest = spec_output_devices(s.drop_last());
        let yields = spec_output_devices(s);
        if yields.contains(node) {
            let j = choose|j: int| 0 <= j < yields.len() && yields[j] == node;
            if j < rest.len() {
                assert(rest[j] == node);
                assert(rest.contains(node));
                let i = choose|i: int|
                    0 <= i < s.drop_last().len() && #[trigger] spec_output_accepted(
                        s.drop_last()[i],
                    ) && s.drop_last()[i].devnode.unwrap() == node;
                assert(s.drop_last()[i] == s[i]);
                assert(spec_output_accepted(s[i]) && s[i].devnode.unwrap() == node);
            } else {
                assert(spec_output_accepted(s[s.len() - 1]) && s[s.len() - 1].devnode.unwrap()
                    == node);
            }
        }
        if exists|i: int|
            0 <= i < s.len() && #[trigger] spec_output_accepted(s[i]) && s[i].devnode.unwrap()
                == node {
            let i = choose|i: int|
                0 <= i < s.len() && #[trigger] spec_output_accepted(s[i]) && s[i].devnode.unwrap()
                    == node;
            if i < s.len() - 1 {
                assert(s.drop_last()[i] == s[i]);
                assert(spec_output_accepted(s.drop_last()[i]) && s.drop_last()[i].devnode.unwrap()
                    == node);
                assert(rest.contains(node));
                let j = choose|j: int| 0 <= j < rest.len() && rest[j] == node;
                assert(yields[j] == node);
            } else {
                assert(yields[yields.len() - 1] == node);
            }
            assert(yields.contains(node));
        }
    }
}

/// The views of a sequence of snapshot records.
pub open spec fn record_views(s: Seq<UdevDevice>) -> Seq<UdevRecord> {
    s.map_values(|d: UdevDevice| d@)
}

/// The views of a sequence of devices.
pub open spec fn device_views(s: Seq<DeviceInfo>) -> Seq<DeviceId> {
    s.map_values(|d: DeviceInfo| d@)
}

/// Whether `s` starts with `prefix`.
pub fn str_starts_with(s: &str, prefix: &str) -> (r: bool)
    ensures
        r == prefix@.is_prefix_of(s@),
{
    let n: usize = prefix.unicode_len();
    if s.unicode_len() < n {
        return false;
    }
    let mut i: usize = 0;
    while i < n
        invariant
            0 <= i <= n,
            n == prefix@.len(),
            n <= s@.len(),
            forall|j: int| 0 <= j < i ==> s@[j] == prefix@[j],
        decreases n - i,
    {
        if s.get_char(i) != prefix.get_char(i) {
            return false;
        }
        i = i + 1;
    }
    assert(prefix@ =~= s@.subrange(0, n as int));
    true
}

/// Checks whether the device node recorded for this entry still existed on
/// the filesystem when the snapshot was taken.
pub fn exists_in_filesystem(device: &UdevDevice) -> (r: bool)
    ensures
        r == device@.exists,
{
    device.exists
}

/// Checks whether the record is an input event device by its short name.
pub fn is_input_device(device: &UdevDevice) -> (r: bool)
    ensures
        r == spec_is_input_name(device@.sysname),
{
    str_starts_with(device.sysname.as_str(), "event")
}

/// Checks whether the record is an output display-controller device by its
/// short name: a card with a number, not a connector or render sub-node.
pub fn is_output_device(device: &UdevDevice) -> (r: bool)
    ensures
        r == spec_is_output_name(device@.sysname),
{
    let sysname = device.sysname.as_str();
    if !str_starts_with(sysname, "card") {
        return false;
    }
    let n: usize = "card".unicode_len();
    let len: usize = sysname.unicode_len();
    if len <= n {
        return false;
    }
    let mut i: usize = n;
    while i < len
        invariant
            n <= i <= len,
            n == "card"@.len(),
            len == sysname@.len(),
            sysname@ == device@.sysname,
            "card"@.is_prefix_of(sysname@),
            forall|j: int| n <= j < i ==> spec_is_decimal_digit(sysname@[j]),
        decreases len - i,
    {
        let c = sysname.get_char(i);
        if c < '0' || c > '9' {
            proof {
                assert(!spec_is_decimal_digit(device@.sysname[i as int]));
            }
            return false;
        }
        i = i + 1;
    }
    true
}

/// Reads a record's property flags and determines the device kind.
pub fn determine_device_kind(device: &UdevDevice) -> (k: DeviceKind)
    ensures
        k == spec_device_kind(device@),
{
    if device.has_mouse_property {
        DeviceKind::Mouse
    } else if device.has_touchpad_property {
        DeviceKind::Touchpad
    } else if device.has_keyboard_property {
        DeviceKind::Keyboard
    } else {
        DeviceKind::Unknown
    }
}

/// Access to the device database, read one snapshot at a time.
#[derive(Clone, Copy)]
pub struct Udev {}

impl Udev {
    /// Constructs a new `Udev`.
    pub fn new() -> (r: Udev) {
        Udev {  }
    }

    /// Walks an input enumeration snapshot and returns the devices that
    /// survive classification and filtering, in snapshot order.
    pub fn iterate_input_devices(&self, devices: &Vec<UdevDevice>) -> (found: Vec<DeviceInfo>)
        ensures
            device_views(found@) == spec_input_devices(record_views(devices@)),
    {
        let mut found: Vec<DeviceInfo> = Vec::new();
        let mut i: usize = 0;
        while i < devices.len()
            invariant
                0 <= i <= devices@.len(),
                device_views(found@) == spec_input_devices(record_views(devices@.subrange(0, i as int))),
            decreases devices@.len() - i,
        {
            let device = &devices[i];
            let device_kind = determine_device_kind(device);
            let mut keep = false;
            let mut info: Option<DeviceInfo> = None;
            if !matches!(device_kind, DeviceKind::Unknown) && is_input_device(device) {
                match &device.devnode {
                    Some(devnode) => {
                        if exists_in_filesystem(device) {
                            keep = true;
                            info = Some(DeviceInfo::new(devnode.as_str(), device_kind));
                        }
                    },
                    None => {},
                }
            }
            proof {
                let recs = record_views(devices@.subrange(0, i + 1 as int));
                assert(recs.drop_last() =~= record_views(devices@.subrange(0, i as int)));
                assert(recs.last() == devices@[i as int]@);
            }
            match info {
                Some(d) => {
                    assert(keep);
                    found.push(d);
                    proof {
                        assert(device_views(found@) =~= device_views(found@.drop_last()).push(
                            found@.last()@,
                        ));
                    }
                },
                None => {
                    assert(!keep);
                },
            }
            i = i + 1;
        }
        proof {
            assert(devices@.subrange(0, devices@.len() as int) =~= devices@);
        }
        found
    }

    /// Walks an output enumeration snapshot and returns the device nodes of
    /// the display controllers found, in snapshot order.
    pub fn iterate_drm_devices(&self, devices: &Vec<UdevDevice>) -> (found: Vec<String>)
        ensures
            found@.map_values(|s: String| s@) == spec_output_devices(record_views(devices@)),
    {
        let mut found: Vec<String> = Vec::new();
        let mut i: usize = 0;
        while i < devices.len()
            invariant
                0 <= i <= devices@.len(),
                found@.map_values(|s: String| s@) == spec_output_devices(
                    record_views(devices@.subrange(0, i as int)),
                ),
            decreases devices@.len() - i,
        {
            let device = &devices[i];
            let mut node: Option<String> = None;
            if is_output_device(device) {
                match &device.devnode {
                    Some(devnode) => {
                        if exists_in_filesystem(device) {
                            node = Some(devnode.clone());
                        }
                    },
                    None => {},
                }
            }
            proof {
                let recs = record_views(devices@.subrange(0, i + 1 as int));
                assert(recs.drop_last() =~= record_views(devices@.subrange(0, i as int)));
                assert(recs.last() == devices@[i as int]@);
            }
            match node {
                Some(d) => {
                    found.push(d);
                    proof {
                        assert(found@.map_values(|s: String| s@) =~= found@.drop_last().map_values(
                            |s: String| s@,
                        ).push(found@.last()@));
                    }
                },
                None => {},
            }
            i = i + 1;
        }
        proof {
            assert(devices@.subrange(0, devices@.len() as int) =~= devices@);
        }
        found
    }

    /// Wraps an already-established hotplug subscription, identified by its
    /// pollable descriptor, together with the signaler into a monitor ready
    /// for registration with the reactor.  Creating, filtering and
    /// activating the subscription itself is the enclosing process's work;
    /// this library only takes over a subscription that succeeded.
    pub fn start_device_monitor(&self, monitor_fd: RawFd, signaler: Signaler) -> (m: DeviceMonitor)
        ensures
            m.fd() == monitor_fd,
            m.signaler()@ == signaler@,
    {
        DeviceMonitor::new(monitor_fd, signaler)
    }
}

} // verus!
