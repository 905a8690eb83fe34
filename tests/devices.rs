use mijiabt::arg::{find_property, ArgValue, Properties};
use mijiabt::registry::DeviceRegistry;
use mijiabt::service_data::{parse_service_data, ServiceData};
use mijiabt::BleDevice;

const UUID: &str = "0000fe95-0000-1000-8000-00805f9b34fb";

fn text(s: &str) -> ArgValue {
    ArgValue::Text(s.to_string())
}

fn bytes(b: &[u8]) -> ArgValue {
    ArgValue::Items(b.iter().map(|x| ArgValue::Number(*x as u64)).collect())
}

/// A service-data value: a variant around the byte array.
fn wrapped(inner: ArgValue) -> ArgValue {
    ArgValue::Items(vec![inner])
}

fn service_data_prop(entries: Vec<(&str, ArgValue)>) -> (String, ArgValue) {
    let mut items = Vec::new();
    for (k, v) in entries {
        items.push(text(k));
        items.push(v);
    }
    ("ServiceData".to_string(), ArgValue::Items(items))
}

fn props(alias: Option<&str>, data: Vec<(&str, ArgValue)>) -> Properties {
    let mut p = Vec::new();
    if let Some(a) = alias {
        p.push(("Alias".to_string(), text(a)));
    }
    p.push(("RSSI".to_string(), ArgValue::Other));
    p.push(service_data_prop(data));
    p
}

fn key(s: &str) -> String {
    s.to_string()
}

#[test]
fn find_property_takes_first_match() {
    let p: Properties = vec![
        ("A".to_string(), ArgValue::Number(1)),
        ("B".to_string(), ArgValue::Number(2)),
        ("A".to_string(), ArgValue::Number(3)),
    ];
    assert!(matches!(find_property(&p, &key("A")), Some(ArgValue::Number(1))));
    assert!(matches!(find_property(&p, &key("B")), Some(ArgValue::Number(2))));
    assert!(find_property(&p, &key("C")).is_none());
}

#[test]
fn service_data_map_insert_and_get() {
    let mut m = ServiceData::new();
    assert!(!m.contains_key(&key("a")));
    m.insert(key("a"), vec![1, 2]);
    m.insert(key("b"), vec![3]);
    m.insert(key("a"), vec![9]);
    assert_eq!(m.get(&key("a")), Some(&vec![9]));
    assert_eq!(m.get(&key("b")), Some(&vec![3]));
    assert!(m.get(&key("c")).is_none());
}

#[test]
fn codec_decodes_wrapped_bytes() {
    let p = props(None, vec![(UUID, wrapped(bytes(&[0x50, 0x20, 0xAA]))), ("other", wrapped(bytes(&[])))]);
    let sd = parse_service_data(&p);
    assert_eq!(sd.get(&key(UUID)), Some(&vec![0x50, 0x20, 0xAA]));
    assert_eq!(sd.get(&key("other")), Some(&vec![]));
}

#[test]
fn codec_drops_non_numeric_bytes_and_truncates() {
    let inner = ArgValue::Items(vec![ArgValue::Number(1), text("x"), ArgValue::Number(258), ArgValue::Other]);
    let p = props(None, vec![(UUID, wrapped(inner))]);
    let sd = parse_service_data(&p);
    assert_eq!(sd.get(&key(UUID)), Some(&vec![1, 2]));
}

#[test]
fn codec_without_service_data_is_empty() {
    let p: Properties = vec![("Alias".to_string(), text("x"))];
    let sd = parse_service_data(&p);
    assert!(!sd.contains_key(&key(UUID)));
}

#[test]
fn codec_skips_malformed_entries() {
    let items = vec![
        ArgValue::Number(5),
        wrapped(bytes(&[1])),
        text("flat"),
        bytes(&[1, 2]),
        text("good"),
        wrapped(bytes(&[7])),
        text("dangling"),
    ];
    let p: Properties = vec![("ServiceData".to_string(), ArgValue::Items(items))];
    let sd = parse_service_data(&p);
    assert!(!sd.contains_key(&key("flat")));
    assert!(!sd.contains_key(&key("dangling")));
    assert_eq!(sd.get(&key("good")), Some(&vec![7]));
}

#[test]
fn codec_service_data_not_a_dictionary() {
    let p: Properties = vec![("ServiceData".to_string(), text("nope"))];
    let sd = parse_service_data(&p);
    assert!(!sd.contains_key(&key("nope")));
}

#[test]
fn device_new_reads_alias() {
    let d = BleDevice::new(key("/org/bluez/hci0/dev_A"), &props(Some("MJ_HT_V1"), vec![(UUID, wrapped(bytes(&[1])))]));
    assert_eq!(d.path, "/org/bluez/hci0/dev_A");
    assert_eq!(d.local_name, "MJ_HT_V1");
    assert_eq!(d.service_data.get(&key(UUID)), Some(&vec![1]));
}

#[test]
fn device_new_without_alias_is_unknown() {
    let d = BleDevice::new(key("/p"), &props(None, vec![]));
    assert_eq!(d.local_name, "<unknown>");
    let p: Properties = vec![("Alias".to_string(), ArgValue::Number(3))];
    let d2 = BleDevice::new(key("/p"), &p);
    assert_eq!(d2.local_name, "<unknown>");
}

#[test]
fn device_update_service_data_replaces_map() {
    let mut d = BleDevice::new(key("/p"), &props(Some("n"), vec![("a", wrapped(bytes(&[1])))]));
    d.update_service_data(&props(Some("other"), vec![("b", wrapped(bytes(&[2])))]));
    assert_eq!(d.local_name, "n");
    assert!(!d.service_data.contains_key(&key("a")));
    assert_eq!(d.service_data.get(&key("b")), Some(&vec![2]));
}

#[test]
fn upsert_same_path_twice_keeps_name_and_path() {
    let mut r = DeviceRegistry::new();
    let (i, new1) = r.upsert(key("/p"), &props(Some("first"), vec![(UUID, wrapped(bytes(&[1])))]));
    assert!(new1);
    let (j, new2) = r.upsert(key("/p"), &props(Some("second"), vec![(UUID, wrapped(bytes(&[2, 3])))]));
    assert!(!new2);
    assert_eq!(i, j);
    assert_eq!(r.len(), 1);
    let d = r.device(j);
    assert_eq!(d.path, "/p");
    assert_eq!(d.local_name, "first");
    assert_eq!(d.service_data.get(&key(UUID)), Some(&vec![2, 3]));
}

#[test]
fn registry_keeps_distinct_paths() {
    let mut r = DeviceRegistry::new();
    r.upsert(key("/a"), &props(Some("a"), vec![]));
    r.upsert(key("/b"), &props(Some("b"), vec![]));
    r.upsert(key("/a"), &props(Some("c"), vec![]));
    assert_eq!(r.len(), 2);
    assert_eq!(r.find(&key("/b")), Some(1));
    assert_eq!(r.find(&key("/a")), Some(0));
    assert_eq!(r.find(&key("/c")), None);
}

#[test]
fn registry_update_of_unseen_path_is_noop() {
    let mut r = DeviceRegistry::new();
    r.upsert(key("/a"), &props(Some("a"), vec![]));
    assert_eq!(r.update(&key("/z"), &props(None, vec![("u", wrapped(bytes(&[1])))])), None);
    assert_eq!(r.len(), 1);
    assert_eq!(r.update(&key("/a"), &props(None, vec![("u", wrapped(bytes(&[1])))])), Some(0));
    assert_eq!(r.device(0).service_data.get(&key("u")), Some(&vec![1]));
    assert_eq!(r.device(0).local_name, "a");
}
