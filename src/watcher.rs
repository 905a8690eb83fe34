//! The handlers of the two bus signals: devices announced, device properties
//! changed.
use vstd::prelude::*;
use vstd::string::StringExecFns;
use crate::arg::{Properties, find_property, property_value};
use crate::device::discovered_device;
use crate::dispatcher::{ChangeDispatcher, TargetConfig, dispatched};
use crate::registry::{DeviceRegistry, has_path, index_of, upserted};

verus! {

/// The bus interface of a BLE device.
pub open spec fn device_interface() -> Seq<char> {
    "org.bluez.Device1"@
}

/// The device registry and the change dispatcher that the signal handlers
/// share.
pub struct SensorWatcher {
    pub registry: DeviceRegistry,
    pub dispatcher: ChangeDispatcher,
}

impl SensorWatcher {
    /// A watcher for `target` that has seen no device.
    pub fn new(target: TargetConfig) -> (r: SensorWatcher)
        ensures
            r.registry@.len() == 0,
            r.dispatcher.name() == target.device_name@,
            r.dispatcher.uuid() == target.service_uuid@,
            r.dispatcher.last() == (0u16, 0u16),
    {
        SensorWatcher { registry: DeviceRegistry::new(), dispatcher: ChangeDispatcher::new(target) }
    }

    /// Handles an "InterfacesAdded" signal for `object_path`. When it carries
    /// the device interface, the device is recorded; a device seen for the
    /// first time is handed to the dispatcher. Returns whether the observer is
    /// owed a call.
    pub fn on_interfaces_added(&mut self, object_path: String, interfaces: &Vec<(String, Properties)>) -> (notify: bool)
        ensures
            match property_value(interfaces@, device_interface()) {
                None => !notify && final(self).registry@ == old(self).registry@ && final(self).dispatcher
                    == old(self).dispatcher,
                Some(props) => {
                    &&& final(self).registry@ == upserted(old(self).registry@, object_path@, props@)
                    &&& if has_path(old(self).registry@, object_path@) {
                        !notify && final(self).dispatcher == old(self).dispatcher
                    } else {
                        dispatched(
                            old(self).dispatcher,
                            discovered_device(object_path@, props@),
                            notify,
                            final(self).dispatcher,
                        )
                    }
                },
            },
    {
        let interface = String::from_str("org.bluez.Device1");
        match find_property(interfaces, &interface) {
            None => false,
            Some(props) => {
                let ghost path = object_path@;
                let (i, is_new) = self.registry.upsert(object_path, props);
                if is_new {
                    proof {
                        assert(self.registry@ == old(self).registry@.push(discovered_device(path, props@)));
                        assert(self.registry@[i as int] == discovered_device(path, props@)) by {
                            if i < old(self).registry@.len() {
                                assert(old(self).registry@[i as int].path == path);
                            }
                        }
                    }
                    self.dispatcher.on_device_update(self.registry.device(i))
                } else {
                    false
                }
            },
        }
    }

    /// Handles a "PropertiesChanged" signal for `object_path`. For the device
    /// interface of a known device, its service data is replaced by what the
    /// changed properties carry and the device is handed to the dispatcher; an
    /// unknown path or another interface changes nothing. Returns whether the
    /// observer is owed a call.
    pub fn on_properties_changed(&mut self, object_path: &String, interface_name: &String, changed: &Properties) -> (notify: bool)
        ensures
            if interface_name@ == device_interface() && has_path(old(self).registry@, object_path@) {
                let devices = upserted(old(self).registry@, object_path@, changed@);
                &&& final(self).registry@ == devices
                &&& dispatched(
                    old(self).dispatcher,
                    devices[index_of(old(self).registry@, object_path@)],
                    notify,
                    final(self).dispatcher,
                )
            } else {
                !notify && final(self).registry@ == old(self).registry@ && final(self).dispatcher
                    == old(self).dispatcher
            },
    {
        let interface = String::from_str("org.bluez.Device1");
        if *interface_name != interface {
            return false;
        }
        match self.registry.update(object_path, changed) {
            Some(i) => self.dispatcher.on_device_update(self.registry.device(i)),
            None => false,
        }
    }
}

} // verus!
