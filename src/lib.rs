//! Advertisement ingestion for a BLE temperature/humidity sensor: decoding of
//! the vendor payload, a path-keyed device registry, change dispatch and the
//! bookkeeping of the bus subscriptions.
pub mod payload;
pub mod mijiabt_data;
pub mod arg;
pub mod service_data;
pub mod device;
pub mod registry;
pub mod dispatcher;
pub mod watcher;
pub mod subscription;
pub mod scan;

pub use device::BleDevice;
pub use mijiabt_data::{MijiaBtData, MijiaBtDataDto};
