//! The cache of discovered devices, keyed by bus path.
use vstd::prelude::*;
use crate::arg::{ArgValue, Properties};
use crate::device::{BleDevice, DeviceView, alias_of, discovered_device};
use crate::service_data::decoded_service_data;

verus! {

/// Whether some device of `devices` has the path `path`.
pub open spec fn has_path(devices: Seq<DeviceView>, path: Seq<char>) -> bool {
    exists|i: int| 0 <= i < devices.len() && #[trigger] devices[i].path == path
}

/// The index of the device with the path `path`.
pub open spec fn index_of(devices: Seq<DeviceView>, path: Seq<char>) -> int
    recommends
        has_path(devices, path),
{
    choose|i: int| 0 <= i < devices.len() && #[trigger] devices[i].path == path
}

/// No two devices share a path.
pub open spec fn paths_unique(devices: Seq<DeviceView>) -> bool {
    forall|i: int, j: int|
        0 <= i < devices.len() && 0 <= j < devices.len() && i != j ==> #[trigger] devices[i].path
            != #[trigger] devices[j].path
}

/// The registry after a discovery signal for `path`: a known device gets the
/// service data of `props` and keeps its path and name; an unknown one is
/// added at the end.
pub open spec fn upserted(devices: Seq<DeviceView>, path: Seq<char>, props: Seq<(String, ArgValue)>) -> Seq<DeviceView> {
    if has_path(devices, path) {
        let i = index_of(devices, path);
        devices.update(i, DeviceView { service_data: decoded_service_data(props), ..devices[i] })
    } else {
        devices.push(discovered_device(path, props))
    }
}

/// The devices seen so far, at most one for each bus path. Nothing is ever
/// removed.
pub struct DeviceRegistry {
    devices: Vec<BleDevice>,
}

impl View for DeviceRegistry {
    type V = Seq<DeviceView>;

    closed spec fn view(&self) -> Seq<DeviceView> {
        self.devices@.map_values(|d: BleDevice| d@)
    }
}

impl DeviceRegistry {
    #[verifier::type_invariant]
    spec fn paths_are_unique(&self) -> bool {
        paths_unique(self@)
    }

    /// An empty registry.
    pub fn new() -> (r: DeviceRegistry)
        ensures
            r@ == Seq::<DeviceView>::empty(),
    {
        let r = DeviceRegistry { devices: Vec::new() };
        assert(r@ =~= Seq::<DeviceView>::empty());
        r
    }

    /// Moves the devices out, leaving the registry empty.
    fn take_devices(&mut self) -> (r: Vec<BleDevice>)
        ensures
            r@.map_values(|d: BleDevice| d@) == old(self)@,
            final(self)@.len() == 0,
    {
        let mut devices: Vec<BleDevice> = Vec::new();
        std::mem::swap(&mut self.devices, &mut devices);
        devices
    }

    /// The number of devices.
    pub fn len(&self) -> (r: usize)
        ensures
            r == self@.len(),
    {
        self.devices.len()
    }

    /// The device at index `i`.
    pub fn device(&self, i: usize) -> (r: &BleDevice)
        requires
            i < self@.len(),
        ensures
            r@ == self@[i as int],
    {
        &self.devices[i]
    }

    /// The index of the device at `path`, if it was seen.
    pub fn find(&self, path: &String) -> (r: Option<usize>)
        ensures
            match r {
                Some(i) => i < self@.len() && self@[i as int].path == path@ && i == index_of(self@, path@),
                None => !has_path(self@, path@),
            },
    {
        proof {
            use_type_invariant(self);
        }
        let mut i: usize = 0;
        while i < self.devices.len()
            invariant
                paths_unique(self@),
                i <= self@.len(),
                self@.len() == self.devices@.len(),
                forall|m: int| 0 <= m < i ==> self@[m].path != path@,
            decreases self.devices.len() - i,
        {
            if self.devices[i].path == *path {
                proof {
                    assert(self@[i as int].path == path@);
                    assert(has_path(self@, path@));
                    let j = index_of(self@, path@);
                    assert(self@[j].path == path@);
                    assert(j == i);
                }
                return Some(i);
            }
            i = i + 1;
        }
        None
    }

    /// Records a discovery signal for `path`: updates the service data of the
    /// known device there, or adds a new device. Returns the device's index
    /// and whether it is new.
    pub fn upsert(&mut self, path: String, input_interface: &Properties) -> (r: (usize, bool))
        ensures
            paths_unique(final(self)@),
            final(self)@ == upserted(old(self)@, path@, input_interface@),
            r.1 == !has_path(old(self)@, path@),
            r.0 < final(self)@.len(),
            final(self)@[r.0 as int].path == path@,
    {
        proof {
            use_type_invariant(&*self);
        }
        match self.find(&path) {
            Some(i) => {
                let ghost before = self@;
                let mut devices = self.take_devices();
                devices[i].update_service_data(input_interface);
                proof {
                    assert(devices@.map_values(|d: BleDevice| d@) =~= upserted(before, path@, input_interface@));
                    lemma_upserted_unique(before, path@, input_interface@);
                }
                self.devices = devices;
                (i, false)
            },
            None => {
                let ghost before = self@;
                let mut devices = self.take_devices();
                let n = devices.len();
                devices.push(BleDevice::new(path, input_interface));
                proof {
                    assert(devices@.map_values(|d: BleDevice| d@) =~= upserted(before, path@, input_interface@));
                    lemma_upserted_unique(before, path@, input_interface@);
                }
                self.devices = devices;
                (n, true)
            },
        }
    }

    /// Records a property change for `path`: replaces the service data of the
    /// device there and returns its index; an unseen path changes nothing.
    pub fn update(&mut self, path: &String, changed: &Properties) -> (r: Option<usize>)
        ensures
            paths_unique(final(self)@),
            match r {
                Some(i) => has_path(old(self)@, path@) && i == index_of(old(self)@, path@)
                    && final(self)@ == upserted(old(self)@, path@, changed@),
                None => !has_path(old(self)@, path@) && final(self)@ == old(self)@,
            },
    {
        proof {
            use_type_invariant(&*self);
        }
        match self.find(path) {
            Some(i) => {
                let ghost before = self@;
                let mut devices = self.take_devices();
                devices[i].update_service_data(changed);
                proof {
                    assert(devices@.map_values(|d: BleDevice| d@) =~= upserted(before, path@, changed@));
                    lemma_upserted_unique(before, path@, changed@);
                }
                self.devices = devices;
                Some(i)
            },
            None => None,
        }
    }
}

/// Recording a discovery signal keeps paths unique.
proof fn lemma_upserted_unique(devices: Seq<DeviceView>, path: Seq<char>, props: Seq<(String, ArgValue)>)
    requires
        paths_unique(devices),
    ensures
        paths_unique(upserted(devices, path, props)),
{
}

/// A second discovery signal for a known path replaces the service data only:
/// the device keeps the path and the name it was first seen with.
pub proof fn lemma_upsert_twice_keeps_identity(
    devices: Seq<DeviceView>,
    path: Seq<char>,
    first: Seq<(String, ArgValue)>,
    second: Seq<(String, ArgValue)>,
)
    requires
        paths_unique(devices),
    ensures
        ({
            let once = upserted(devices, path, first);
            let twice = upserted(once, path, second);
            let i = index_of(twice, path);
            &&& has_path(twice, path)
            &&& twice.len() == once.len()
            &&& twice[i].path == path
            &&& twice[i].local_name == (if has_path(devices, path) {
                devices[index_of(devices, path)].local_name
            } else {
                alias_of(first)
            })
            &&& twice[i].service_data == decoded_service_data(second)
        }),
{
    let once = upserted(devices, path, first);
    if has_path(devices, path) {
        let i = index_of(devices, path);
        assert(once[i].path == path);
    } else {
        assert(once[devices.len() as int].path == path);
    }
    let k = index_of(once, path);
    assert(paths_unique(once));
    let twice = upserted(once, path, second);
    assert(twice[k].path == path);
}

} // verus!
