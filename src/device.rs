//! A discovered BLE peripheral.
use vstd::prelude::*;
use vstd::string::StringExecFns;
use crate::arg::{ArgValue, Properties, find_property, property_value};
use crate::service_data::{ServiceData, decoded_service_data, parse_service_data};

verus! {

/// What a device is: its bus path, its advertised name and its service data.
pub ghost struct DeviceView {
    pub path: Seq<char>,
    pub local_name: Seq<char>,
    pub service_data: Map<Seq<char>, Seq<u8>>,
}

/// The name a device is known by when its properties give none.
pub open spec fn unknown_name() -> Seq<char> {
    "<unknown>"@
}

/// The name that a device's properties give: its "Alias" when that is text.
pub open spec fn alias_of(props: Seq<(String, ArgValue)>) -> Seq<char> {
    match property_value(props, "Alias"@) {
        Some(ArgValue::Text(name)) => name@,
        _ => unknown_name(),
    }
}

/// The device that a first discovery signal for `path` describes.
pub open spec fn discovered_device(path: Seq<char>, props: Seq<(String, ArgValue)>) -> DeviceView {
    DeviceView {
        path,
        local_name: alias_of(props),
        service_data: decoded_service_data(props),
    }
}

/// A high-level BLE device representation.
pub struct BleDevice {
    /// The bus object path of the device.
    pub path: String,
    /// The local name advertised by the device.
    pub local_name: String,
    /// The service data advertised by the device.
    pub service_data: ServiceData,
}

impl View for BleDevice {
    type V = DeviceView;

    open spec fn view(&self) -> DeviceView {
        DeviceView { path: self.path@, local_name: self.local_name@, service_data: self.service_data@ }
    }
}

impl BleDevice {
    /// Builds the device at `device_path` out of the properties of its device
    /// interface: the name from "Alias" (or `<unknown>`), the service data from
    /// "ServiceData".
    pub fn new(device_path: String, input_interface: &Properties) -> (r: BleDevice)
        ensures
            r@ == discovered_device(device_path@, input_interface@),
    {
        let alias = String::from_str("Alias");
        let local_name = match find_property(input_interface, &alias) {
            Some(ArgValue::Text(name)) => name.clone(),
            _ => String::from_str("<unknown>"),
        };
        let service_data = parse_service_data(input_interface);
        BleDevice { path: device_path, local_name, service_data }
    }

    /// Replaces the service data with what `update_data` carries; the path and
    /// the name stay.
    pub fn update_service_data(&mut self, update_data: &Properties)
        ensures
            final(self)@ == (DeviceView { service_data: decoded_service_data(update_data@), ..old(self)@ }),
    {
        self.service_data = parse_service_data(update_data);
    }
}

} // verus!
