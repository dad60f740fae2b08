use bluebus::adapter::{AddressType, BluetoothAdapter};
use bluebus::bus::{StoredProperty, StubBus};
use bluebus::error::BluetoothError;
use bluebus::variant::PropertyVariant;

const ADAPTER_IFACE: &str = "org.bluez.Adapter1";
const HCI0: &str = "/org/bluez/hci0";

fn stub_with_adapter() -> StubBus {
    let mut bus = StubBus::new();
    bus.adapters.push(HCI0.to_string());
    bus
}

fn seed(bus: &mut StubBus, name: &str, value: PropertyVariant) {
    bus.properties.push(StoredProperty {
        interface: ADAPTER_IFACE.to_string(),
        path: HCI0.to_string(),
        name: name.to_string(),
        value,
    });
}

#[test]
fn init_picks_the_first_enumerated_adapter() {
    let mut bus = stub_with_adapter();
    bus.adapters.push("/org/bluez/hci1".to_string());
    let adapter = BluetoothAdapter::init(&bus).unwrap();
    assert_eq!(adapter.get_id(), HCI0.to_string());
}

#[test]
fn init_without_adapter_is_a_lookup_failure() {
    let bus = StubBus::new();
    assert_eq!(
        BluetoothAdapter::init(&bus).unwrap_err(),
        BluetoothError::RemoteLookupFailure
    );
}

#[test]
fn create_adapter_requires_an_enumerated_path() {
    let bus = stub_with_adapter();
    let adapter = BluetoothAdapter::create_adapter(&bus, HCI0).unwrap();
    assert_eq!(adapter.get_id(), HCI0.to_string());
    assert_eq!(
        BluetoothAdapter::create_adapter(&bus, "/org/bluez/hci9").unwrap_err(),
        BluetoothError::RemoteLookupFailure
    );
}

#[test]
fn device_enumeration_is_scoped_to_the_adapter() {
    let mut bus = stub_with_adapter();
    bus.devices.push((HCI0.to_string(), "/org/bluez/hci0/dev_AA".to_string()));
    bus.devices.push(("/org/bluez/hci1".to_string(), "/org/bluez/hci1/dev_BB".to_string()));
    bus.devices.push((HCI0.to_string(), "/org/bluez/hci0/dev_CC".to_string()));
    let adapter = BluetoothAdapter::init(&bus).unwrap();
    assert_eq!(
        adapter.get_device_list(&bus).unwrap(),
        vec![
            "/org/bluez/hci0/dev_AA".to_string(),
            "/org/bluez/hci0/dev_CC".to_string()
        ]
    );
    assert_eq!(
        adapter.get_first_device(&bus).unwrap(),
        "/org/bluez/hci0/dev_AA".to_string()
    );
}

#[test]
fn first_device_of_empty_list_is_a_lookup_failure() {
    let bus = stub_with_adapter();
    let adapter = BluetoothAdapter::init(&bus).unwrap();
    assert_eq!(
        adapter.get_first_device(&bus).unwrap_err(),
        BluetoothError::RemoteLookupFailure
    );
}

#[test]
fn addata_enumeration_returns_first_entry() {
    let mut bus = stub_with_adapter();
    bus.addata.push((HCI0.to_string(), "/org/bluez/hci0/ad_01".to_string()));
    let adapter = BluetoothAdapter::init(&bus).unwrap();
    assert_eq!(adapter.get_addata(&bus).unwrap(), "/org/bluez/hci0/ad_01".to_string());
    let empty = stub_with_adapter();
    assert_eq!(
        adapter.get_addata(&empty).unwrap_err(),
        BluetoothError::RemoteLookupFailure
    );
}

#[test]
fn string_and_bool_and_u32_getters_decode_their_tags() {
    let mut bus = stub_with_adapter();
    seed(&mut bus, "Address", PropertyVariant::Text("00:11:22:33:44:55".to_string()));
    seed(&mut bus, "Name", PropertyVariant::Text("test-adapter".to_string()));
    seed(&mut bus, "Alias", PropertyVariant::Text("alias".to_string()));
    seed(&mut bus, "Class", PropertyVariant::UnsignedInt32(0x1F00));
    seed(&mut bus, "Powered", PropertyVariant::Boolean(true));
    seed(&mut bus, "Discoverable", PropertyVariant::Boolean(false));
    seed(&mut bus, "Pairable", PropertyVariant::Boolean(true));
    seed(&mut bus, "PairableTimeout", PropertyVariant::UnsignedInt32(120));
    seed(&mut bus, "DiscoverableTimeout", PropertyVariant::UnsignedInt32(180));
    seed(&mut bus, "Discovering", PropertyVariant::Boolean(false));
    let adapter = BluetoothAdapter::init(&bus).unwrap();
    assert_eq!(adapter.get_address(&bus).unwrap(), "00:11:22:33:44:55".to_string());
    assert_eq!(adapter.get_name(&bus).unwrap(), "test-adapter".to_string());
    assert_eq!(adapter.get_alias(&bus).unwrap(), "alias".to_string());
    assert_eq!(adapter.get_class(&bus).unwrap(), 0x1F00);
    assert!(adapter.is_powered(&bus).unwrap());
    assert!(!adapter.is_discoverable(&bus).unwrap());
    assert!(adapter.is_pairable(&bus).unwrap());
    assert_eq!(adapter.get_pairable_timeout(&bus).unwrap(), 120);
    assert_eq!(adapter.get_discoverable_timeout(&bus).unwrap(), 180);
    assert!(!adapter.is_discovering(&bus).unwrap());
}

#[test]
fn missing_property_is_a_lookup_failure() {
    let bus = stub_with_adapter();
    let adapter = BluetoothAdapter::init(&bus).unwrap();
    assert_eq!(
        adapter.get_address(&bus).unwrap_err(),
        BluetoothError::RemoteLookupFailure
    );
}

#[test]
fn wrong_tag_is_a_type_decode_failure() {
    let mut bus = stub_with_adapter();
    seed(&mut bus, "Powered", PropertyVariant::Text("yes".to_string()));
    seed(&mut bus, "Class", PropertyVariant::Boolean(true));
    seed(&mut bus, "Address", PropertyVariant::UnsignedInt32(7));
    let adapter = BluetoothAdapter::init(&bus).unwrap();
    assert_eq!(
        adapter.is_powered(&bus).unwrap_err(),
        BluetoothError::TypeDecodeFailure
    );
    assert_eq!(
        adapter.get_class(&bus).unwrap_err(),
        BluetoothError::TypeDecodeFailure
    );
    assert_eq!(
        adapter.get_address(&bus).unwrap_err(),
        BluetoothError::TypeDecodeFailure
    );
}

#[test]
fn write_then_read_echoes_the_written_value() {
    let mut bus = stub_with_adapter();
    let adapter = BluetoothAdapter::init(&bus).unwrap();
    adapter.set_alias(&mut bus, "fresh-alias".to_string()).unwrap();
    assert_eq!(adapter.get_alias(&bus).unwrap(), "fresh-alias".to_string());
    adapter.set_powered(&mut bus, true).unwrap();
    assert!(adapter.is_powered(&bus).unwrap());
    adapter.set_discoverable(&mut bus, true).unwrap();
    assert!(adapter.is_discoverable(&bus).unwrap());
    adapter.set_pairable(&mut bus, false).unwrap();
    assert!(!adapter.is_pairable(&bus).unwrap());
    adapter.set_pairable_timeout(&mut bus, 90).unwrap();
    assert_eq!(adapter.get_pairable_timeout(&bus).unwrap(), 90);
    adapter.set_discoverable_timeout(&mut bus, 45).unwrap();
    assert_eq!(adapter.get_discoverable_timeout(&bus).unwrap(), 45);
}

#[test]
fn rewriting_a_property_replaces_the_stored_value() {
    let mut bus = stub_with_adapter();
    let adapter = BluetoothAdapter::init(&bus).unwrap();
    adapter.set_alias(&mut bus, "first".to_string()).unwrap();
    adapter.set_alias(&mut bus, "second".to_string()).unwrap();
    assert_eq!(adapter.get_alias(&bus).unwrap(), "second".to_string());
}

#[test]
fn silent_bus_drops_writes() {
    let mut bus = stub_with_adapter();
    bus.echo_writes = false;
    let adapter = BluetoothAdapter::init(&bus).unwrap();
    adapter.set_alias(&mut bus, "ghostly".to_string()).unwrap();
    assert_eq!(
        adapter.get_alias(&bus).unwrap_err(),
        BluetoothError::RemoteLookupFailure
    );
}

#[test]
fn delayed_bus_times_out_and_not_lookup_failure() {
    let mut bus = stub_with_adapter();
    seed(&mut bus, "Powered", PropertyVariant::Boolean(true));
    bus.delay_ms = 60_000;
    let adapter = BluetoothAdapter::init(&bus).unwrap();
    assert_eq!(adapter.is_powered(&bus).unwrap_err(), BluetoothError::Timeout);
    assert_eq!(
        adapter.set_powered(&mut bus, true).unwrap_err(),
        BluetoothError::Timeout
    );
    assert_eq!(
        adapter.set_alias(&mut bus, "x".to_string()).unwrap_err(),
        BluetoothError::Timeout
    );
    assert_eq!(
        adapter
            .connect_device(&bus, "AA:BB:CC:DD:EE:FF", AddressType::Public, 1000)
            .unwrap_err(),
        BluetoothError::Timeout
    );
    assert_eq!(
        adapter.remove_device(&bus, "/org/bluez/hci0/dev_AA").unwrap_err(),
        BluetoothError::Timeout
    );
}

#[test]
fn delay_within_the_bound_still_answers() {
    let mut bus = stub_with_adapter();
    seed(&mut bus, "Powered", PropertyVariant::Boolean(true));
    bus.delay_ms = 900;
    let adapter = BluetoothAdapter::init(&bus).unwrap();
    assert!(adapter.is_powered(&bus).unwrap());
    // set_powered runs at its long bound, so a delay past the default
    // bound but under the power bound still completes.
    bus.delay_ms = 5_000;
    adapter.set_powered(&mut bus, false).unwrap();
}

#[test]
fn offline_bus_is_a_lookup_failure_everywhere() {
    let mut bus = stub_with_adapter();
    seed(&mut bus, "Powered", PropertyVariant::Boolean(true));
    bus.offline = true;
    assert_eq!(
        BluetoothAdapter::init(&bus).unwrap_err(),
        BluetoothError::RemoteLookupFailure
    );
    bus.offline = false;
    let adapter = BluetoothAdapter::init(&bus).unwrap();
    bus.offline = true;
    assert_eq!(
        adapter.is_powered(&bus).unwrap_err(),
        BluetoothError::RemoteLookupFailure
    );
    assert_eq!(
        adapter.set_powered(&mut bus, true).unwrap_err(),
        BluetoothError::RemoteLookupFailure
    );
    assert_eq!(
        adapter
            .connect_device(&bus, "AA:BB:CC:DD:EE:FF", AddressType::Public, 1000)
            .unwrap_err(),
        BluetoothError::RemoteLookupFailure
    );
}

#[test]
fn uuids_decode_as_a_list_of_texts() {
    let mut bus = stub_with_adapter();
    seed(
        &mut bus,
        "UUIDs",
        PropertyVariant::Sequence(vec![
            PropertyVariant::Text("0000110a-0000-1000-8000-00805f9b34fb".to_string()),
            PropertyVariant::Text("0000110b-0000-1000-8000-00805f9b34fb".to_string()),
        ]),
    );
    let adapter = BluetoothAdapter::init(&bus).unwrap();
    assert_eq!(
        adapter.get_uuids(&bus).unwrap(),
        vec![
            "0000110a-0000-1000-8000-00805f9b34fb".to_string(),
            "0000110b-0000-1000-8000-00805f9b34fb".to_string()
        ]
    );
}

#[test]
fn uuids_with_a_non_text_item_is_a_type_decode_failure() {
    let mut bus = stub_with_adapter();
    seed(
        &mut bus,
        "UUIDs",
        PropertyVariant::Sequence(vec![
            PropertyVariant::Text("0000110a".to_string()),
            PropertyVariant::UnsignedInt32(1),
        ]),
    );
    let adapter = BluetoothAdapter::init(&bus).unwrap();
    assert_eq!(
        adapter.get_uuids(&bus).unwrap_err(),
        BluetoothError::TypeDecodeFailure
    );
}

#[test]
fn modalias_getters_project_the_parsed_tuple() {
    let mut bus = stub_with_adapter();
    seed(&mut bus, "Modalias", PropertyVariant::Text("usb:v1D6Bp0246d0537".to_string()));
    let adapter = BluetoothAdapter::init(&bus).unwrap();
    let (source, vendor, product, device) = adapter.get_modalias(&bus).unwrap();
    assert_eq!(source, "usb".to_string());
    assert_eq!(vendor, 0x1D6B);
    assert_eq!(product, 0x0246);
    assert_eq!(device, 0x0537);
    assert_eq!(adapter.get_vendor_id_source(&bus).unwrap(), "usb".to_string());
    assert_eq!(adapter.get_vendor_id(&bus).unwrap(), 0x1D6B);
    assert_eq!(adapter.get_product_id(&bus).unwrap(), 0x0246);
    assert_eq!(adapter.get_device_id(&bus).unwrap(), 0x0537);
}

#[test]
fn malformed_modalias_property_surfaces_as_such() {
    let mut bus = stub_with_adapter();
    seed(&mut bus, "Modalias", PropertyVariant::Text("garbage".to_string()));
    let adapter = BluetoothAdapter::init(&bus).unwrap();
    assert_eq!(
        adapter.get_modalias(&bus).unwrap_err(),
        BluetoothError::MalformedModalias
    );
}

#[test]
fn connect_device_builds_the_documented_dictionary() {
    let bus = stub_with_adapter();
    let adapter = BluetoothAdapter::init(&bus).unwrap();
    let reply = adapter
        .connect_device(&bus, "AA:BB:CC:DD:EE:FF", AddressType::Random, 15_000)
        .unwrap();
    assert_eq!(reply.method, "ConnectDevice".to_string());
    assert_eq!(reply.args.len(), 1);
    let expected = PropertyVariant::DictionaryOfVariants(vec![
        (
            "Address".to_string(),
            PropertyVariant::NestedVariant(Box::new(PropertyVariant::Text(
                "AA:BB:CC:DD:EE:FF".to_string(),
            ))),
        ),
        (
            "AddressType".to_string(),
            PropertyVariant::NestedVariant(Box::new(PropertyVariant::Text(
                "random".to_string(),
            ))),
        ),
    ]);
    assert_eq!(reply.args[0], expected);
}

#[test]
fn remove_device_succeeds_on_a_reachable_bus() {
    let bus = stub_with_adapter();
    let adapter = BluetoothAdapter::init(&bus).unwrap();
    adapter.remove_device(&bus, "/org/bluez/hci0/dev_AA").unwrap();
}
