use vstd::prelude::*;
use crate::bus::{spec_call_outcome, spec_read, write_transition, BusReply, StubBus};
use crate::error::BluetoothError;
use crate::modalias;
use crate::modalias::spec_parse;
use crate::text::str_eq;
use crate::variant::{all_texts, spec_boolean, spec_text, spec_u32, text_content, PropertyVariant};

verus! {

/// Timeout bound handed to the bus for every ordinary round trip.
pub const DEFAULT_TIMEOUT_MS: i32 = 1000;

/// Timeout bound for powering the adapter, which takes the remote side
/// far longer than an ordinary property write.
pub const POWER_TIMEOUT_MS: i32 = 10000;

/// The fixed interface name every adapter accessor is scoped to.
pub open spec fn spec_adapter_interface() -> Seq<char> {
    "org.bluez.Adapter1"@
}

fn adapter_interface() -> (r: &'static str)
    ensures
        r@ == spec_adapter_interface(),
{
    "org.bluez.Adapter1"
}

/// A remote object accessor scoped to one adapter object on the bus: it
/// carries the adapter's object path, borrows the shared bus handle for
/// each call, and never owns the connection.
#[derive(Clone, Debug)]
pub struct BluetoothAdapter {
    object_path: String,
}

impl View for BluetoothAdapter {
    type V = Seq<char>;

    closed spec fn view(&self) -> Seq<char> {
        self.object_path@
    }
}

/// Outcome of a property read against an adapter object, at the default
/// round-trip bound.
pub open spec fn spec_read_adapter(bus: StubBus, path: Seq<char>, name: Seq<char>) -> Result<
    PropertyVariant,
    BluetoothError,
> {
    spec_read(bus, spec_adapter_interface(), path, name, DEFAULT_TIMEOUT_MS)
}

/// A property read asserted to carry the Text tag: a read failure passes
/// through, any other tag is a typed failure.
pub open spec fn spec_string_prop(bus: StubBus, path: Seq<char>, name: Seq<char>) -> Result<
    Seq<char>,
    BluetoothError,
> {
    match spec_read_adapter(bus, path, name) {
        Ok(v) => match spec_text(v) {
            Some(s) => Ok(s),
            None => Err(BluetoothError::TypeDecodeFailure),
        },
        Err(e) => Err(e),
    }
}

/// A property read asserted to carry the Boolean tag.
pub open spec fn spec_bool_prop(bus: StubBus, path: Seq<char>, name: Seq<char>) -> Result<
    bool,
    BluetoothError,
> {
    match spec_read_adapter(bus, path, name) {
        Ok(v) => match spec_boolean(v) {
            Some(b) => Ok(b),
            None => Err(BluetoothError::TypeDecodeFailure),
        },
        Err(e) => Err(e),
    }
}

/// A property read asserted to carry the UnsignedInt32 tag.
pub open spec fn spec_u32_prop(bus: StubBus, path: Seq<char>, name: Seq<char>) -> Result<
    u32,
    BluetoothError,
> {
    match spec_read_adapter(bus, path, name) {
        Ok(v) => match spec_u32(v) {
            Some(n) => Ok(n),
            None => Err(BluetoothError::TypeDecodeFailure),
        },
        Err(e) => Err(e),
    }
}

/// The Modalias property parsed into (source, vendor, product, device).
pub open spec fn spec_modalias_prop(bus: StubBus, path: Seq<char>) -> Result<
    (Seq<char>, u32, u32, u32),
    BluetoothError,
> {
    match spec_string_prop(bus, path, "Modalias"@) {
        Ok(m) => match spec_parse(m) {
            Some(t) => Ok(t),
            None => Err(BluetoothError::MalformedModalias),
        },
        Err(e) => Err(e),
    }
}

/// The object paths registered under `owner`, in registration order.
pub open spec fn paths_under(pairs: Seq<(String, String)>, owner: Seq<char>) -> Seq<String>
    decreases pairs.len(),
{
    if pairs.len() == 0 {
        Seq::empty()
    } else {
        let prefix = paths_under(pairs.drop_last(), owner);
        if pairs.last().0@ == owner {
            prefix.push(pairs.last().1)
        } else {
            prefix
        }
    }
}

/// The address kind named in a ConnectDevice invocation: a closed
/// two-value set.
#[derive(Clone, Copy, Debug, PartialEq, Eq, Structural)]
pub enum AddressType {
    Public,
    Random,
}

/// The lowercase wire spelling of an address kind.
pub open spec fn spec_address_type(t: AddressType) -> Seq<char> {
    match t {
        AddressType::Public => "public"@,
        AddressType::Random => "random"@,
    }
}

impl BluetoothAdapter {
    fn new(object_path: &str) -> (r: BluetoothAdapter)
        ensures
            r@ == object_path@,
    {
        BluetoothAdapter { object_path: object_path.to_owned() }
    }

    /// The first adapter the bus enumerates, or a lookup failure when the
    /// bus is unreachable or enumerates none.
    pub fn init(bus: &StubBus) -> (r: Result<BluetoothAdapter, BluetoothError>)
        ensures
            match r {
                Ok(a) => !bus.offline && bus.adapters@.len() > 0 && a@ == bus.adapters@[0]@,
                Err(e) => e == BluetoothError::RemoteLookupFailure && (bus.offline
                    || bus.adapters@.len() == 0),
            },
    {
        if bus.offline {
            return Err(BluetoothError::RemoteLookupFailure);
        }
        if bus.adapters.is_empty() {
            return Err(BluetoothError::RemoteLookupFailure);
        }
        Ok(BluetoothAdapter::new(bus.adapters[0].as_str()))
    }

    /// The adapter at the given object path, provided the bus enumerates
    /// that path.
    pub fn create_adapter(bus: &StubBus, object_path: &str) -> (r: Result<
        BluetoothAdapter,
        BluetoothError,
    >)
        ensures
            match r {
                Ok(a) => !bus.offline && a@ == object_path@ && (exists|i: int|
                    0 <= i < bus.adapters@.len() && bus.adapters@[i]@ == object_path@),
                Err(e) => e == BluetoothError::RemoteLookupFailure && (bus.offline || (forall|
                    i: int,
                |
                    0 <= i < bus.adapters@.len() ==> bus.adapters@[i]@ != object_path@)),
            },
    {
        if bus.offline {
            return Err(BluetoothError::RemoteLookupFailure);
        }
        let n = bus.adapters.len();
        let mut i: usize = 0;
        while i < n
            invariant
                n == bus.adapters.len(),
                i <= n,
                !bus.offline,
                forall|j: int| 0 <= j < i ==> bus.adapters@[j]@ != object_path@,
            decreases n - i,
        {
            if str_eq(bus.adapters[i].as_str(), object_path) {
                proof {
                    assert(bus.adapters@[i as int]@ == object_path@);
                }
                return Ok(BluetoothAdapter::new(object_path));
            }
            i += 1;
        }
        Err(BluetoothError::RemoteLookupFailure)
    }

    /// The object path this accessor is scoped to.
    pub fn get_id(&self) -> (r: String)
        ensures
            r@ == self@,
    {
        self.object_path.clone()
    }

    /// Every device object path the bus enumerates under this adapter, in
    /// registration order.
    pub fn get_device_list(&self, bus: &StubBus) -> (r: Result<Vec<String>, BluetoothError>)
        ensures
            match r {
                Ok(v) => !bus.offline && v@ == paths_under(bus.devices@, self@),
                Err(e) => e == BluetoothError::RemoteLookupFailure && bus.offline,
            },
    {
        if bus.offline {
            return Err(BluetoothError::RemoteLookupFailure);
        }
        let n = bus.devices.len();
        let mut out: Vec<String> = Vec::new();
        let mut i: usize = 0;
        proof {
            assert(bus.devices@.take(0) =~= Seq::<(String, String)>::empty());
        }
        while i < n
            invariant
                n == bus.devices.len(),
                i <= n,
                out@ == paths_under(bus.devices@.take(i as int), self@),
            decreases n - i,
        {
            proof {
                assert(bus.devices@.take(i as int + 1).drop_last() =~= bus.devices@.take(i as int));
                assert(bus.devices@.take(i as int + 1).last() == bus.devices@[i as int]);
            }
            if str_eq(bus.devices[i].0.as_str(), self.object_path.as_str()) {
                out.push(bus.devices[i].1.clone());
            }
            i += 1;
        }
        proof {
            assert(bus.devices@.take(n as int) =~= bus.devices@);
        }
        Ok(out)
    }

    /// The first device object path enumerated under this adapter.
    pub fn get_first_device(&self, bus: &StubBus) -> (r: Result<String, BluetoothError>)
        ensures
            match r {
                Ok(p) => !bus.offline && paths_under(bus.devices@, self@).len() > 0 && p
                    == paths_under(bus.devices@, self@)[0],
                Err(e) => e == BluetoothError::RemoteLookupFailure && (bus.offline || paths_under(
                    bus.devices@,
                    self@,
                ).len() == 0),
            },
    {
        let mut devices = self.get_device_list(bus)?;
        if devices.is_empty() {
            return Err(BluetoothError::RemoteLookupFailure);
        }
        Ok(devices.remove(0))
    }

    /// The first advertising-data object path enumerated under this
    /// adapter.
    pub fn get_addata(&self, bus: &StubBus) -> (r: Result<String, BluetoothError>)
        ensures
            match r {
                Ok(p) => !bus.offline && paths_under(bus.addata@, self@).len() > 0 && p
                    == paths_under(bus.addata@, self@)[0],
                Err(e) => e == BluetoothError::RemoteLookupFailure && (bus.offline || paths_under(
                    bus.addata@,
                    self@,
                ).len() == 0),
            },
    {
        if bus.offline {
            return Err(BluetoothError::RemoteLookupFailure);
        }
        let n = bus.addata.len();
        let mut out: Vec<String> = Vec::new();
        let mut i: usize = 0;
        proof {
            assert(bus.addata@.take(0) =~= Seq::<(String, String)>::empty());
        }
        while i < n
            invariant
                n == bus.addata.len(),
                i <= n,
                out@ == paths_under(bus.addata@.take(i as int), self@),
            decreases n - i,
        {
            proof {
                assert(bus.addata@.take(i as int + 1).drop_last() =~= bus.addata@.take(i as int));
                assert(bus.addata@.take(i as int + 1).last() == bus.addata@[i as int]);
            }
            if str_eq(bus.addata[i].0.as_str(), self.object_path.as_str()) {
                out.push(bus.addata[i].1.clone());
            }
            i += 1;
        }
        proof {
            assert(bus.addata@.take(n as int) =~= bus.addata@);
        }
        if out.is_empty() {
            return Err(BluetoothError::RemoteLookupFailure);
        }
        Ok(out.remove(0))
    }

    fn get_property<'a>(&self, bus: &'a StubBus, prop: &str) -> (r: Result<
        &'a PropertyVariant,
        BluetoothError,
    >)
        ensures
            match r {
                Ok(v) => spec_read_adapter(*bus, self@, prop@) == Ok::<
                    PropertyVariant,
                    BluetoothError,
                >(*v),
                Err(e) => spec_read_adapter(*bus, self@, prop@) == Err::<
                    PropertyVariant,
                    BluetoothError,
                >(e),
            },
    {
        bus.read_property(
            adapter_interface(),
            self.object_path.as_str(),
            prop,
            DEFAULT_TIMEOUT_MS,
        )
    }

    fn set_property(
        &self,
        bus: &mut StubBus,
        prop: &str,
        value: PropertyVariant,
        timeout_ms: i32,
    ) -> (r: Result<(), BluetoothError>)
        ensures
            r == spec_call_outcome(*old(bus), timeout_ms),
            write_transition(
                *old(bus),
                *final(bus),
                spec_adapter_interface(),
                self@,
                prop@,
                value,
                timeout_ms,
            ),
    {
        bus.write_property(
            adapter_interface(),
            self.object_path.as_str(),
            prop,
            value,
            timeout_ms,
        )
    }

    fn call_method(
        &self,
        bus: &StubBus,
        method: &str,
        args: Vec<PropertyVariant>,
        timeout_ms: i32,
    ) -> (r: Result<BusReply, BluetoothError>)
        ensures
            match r {
                Ok(reply) => spec_call_outcome(*bus, timeout_ms) is Ok && reply.method@ == method@
                    && reply.args == args,
                Err(e) => spec_call_outcome(*bus, timeout_ms) == Err::<(), BluetoothError>(e),
            },
    {
        bus.invoke_method(
            adapter_interface(),
            self.object_path.as_str(),
            method,
            args,
            timeout_ms,
        )
    }

    fn read_string_property(&self, bus: &StubBus, prop: &str) -> (r: Result<
        String,
        BluetoothError,
    >)
        ensures
            match r {
                Ok(s) => spec_string_prop(*bus, self@, prop@) == Ok::<Seq<char>, BluetoothError>(
                    s@,
                ),
                Err(e) => spec_string_prop(*bus, self@, prop@) == Err::<Seq<char>, BluetoothError>(
                    e,
                ),
            },
    {
        match self.get_property(bus, prop) {
            Ok(v) => match v {
                PropertyVariant::Text(s) => Ok(s.clone()),
                _ => Err(BluetoothError::TypeDecodeFailure),
            },
            Err(e) => Err(e),
        }
    }

    fn read_bool_property(&self, bus: &StubBus, prop: &str) -> (r: Result<bool, BluetoothError>)
        ensures
            match r {
                Ok(b) => spec_bool_prop(*bus, self@, prop@) == Ok::<bool, BluetoothError>(b),
                Err(e) => spec_bool_prop(*bus, self@, prop@) == Err::<bool, BluetoothError>(e),
            },
    {
        match self.get_property(bus, prop) {
            Ok(v) => match v {
                PropertyVariant::Boolean(b) => Ok(*b),
                _ => Err(BluetoothError::TypeDecodeFailure),
            },
            Err(e) => Err(e),
        }
    }

    fn read_u32_property(&self, bus: &StubBus, prop: &str) -> (r: Result<u32, BluetoothError>)
        ensures
            match r {
                Ok(n) => spec_u32_prop(*bus, self@, prop@) == Ok::<u32, BluetoothError>(n),
                Err(e) => spec_u32_prop(*bus, self@, prop@) == Err::<u32, BluetoothError>(e),
            },
    {
        match self.get_property(bus, prop) {
            Ok(v) => match v {
                PropertyVariant::UnsignedInt32(n) => Ok(*n),
                _ => Err(BluetoothError::TypeDecodeFailure),
            },
            Err(e) => Err(e),
        }
    }

    /// The adapter's Address property.
    pub fn get_address(&self, bus: &StubBus) -> (r: Result<String, BluetoothError>)
        ensures
            match r {
                Ok(s) => spec_string_prop(*bus, self@, "Address"@) == Ok::<
                    Seq<char>,
                    BluetoothError,
                >(s@),
                Err(e) => spec_string_prop(*bus, self@, "Address"@) == Err::<
                    Seq<char>,
                    BluetoothError,
                >(e),
            },
    {
        self.read_string_property(bus, "Address")
    }

    /// The adapter's Name property.
    pub fn get_name(&self, bus: &StubBus) -> (r: Result<String, BluetoothError>)
        ensures
            match r {
                Ok(s) => spec_string_prop(*bus, self@, "Name"@) == Ok::<Seq<char>, BluetoothError>(
                    s@,
                ),
                Err(e) => spec_string_prop(*bus, self@, "Name"@) == Err::<
                    Seq<char>,
                    BluetoothError,
                >(e),
            },
    {
        self.read_string_property(bus, "Name")
    }

    /// The adapter's Alias property.
    pub fn get_alias(&self, bus: &StubBus) -> (r: Result<String, BluetoothError>)
        ensures
            match r {
                Ok(s) => spec_string_prop(*bus, self@, "Alias"@) == Ok::<
                    Seq<char>,
                    BluetoothError,
                >(s@),
                Err(e) => spec_string_prop(*bus, self@, "Alias"@) == Err::<
                    Seq<char>,
                    BluetoothError,
                >(e),
            },
    {
        self.read_string_property(bus, "Alias")
    }

    /// Writes the adapter's Alias property.
    pub fn set_alias(&self, bus: &mut StubBus, value: String) -> (r: Result<(), BluetoothError>)
        ensures
            r == spec_call_outcome(*old(bus), DEFAULT_TIMEOUT_MS),
            write_transition(
                *old(bus),
                *final(bus),
                spec_adapter_interface(),
                self@,
                "Alias"@,
                PropertyVariant::Text(value),
                DEFAULT_TIMEOUT_MS,
            ),
    {
        self.set_property(bus, "Alias", PropertyVariant::Text(value), DEFAULT_TIMEOUT_MS)
    }

    /// The adapter's Class property.
    pub fn get_class(&self, bus: &StubBus) -> (r: Result<u32, BluetoothError>)
        ensures
            match r {
                Ok(n) => spec_u32_prop(*bus, self@, "Class"@) == Ok::<u32, BluetoothError>(n),
                Err(e) => spec_u32_prop(*bus, self@, "Class"@) == Err::<u32, BluetoothError>(e),
            },
    {
        self.read_u32_property(bus, "Class")
    }

    /// The adapter's Powered property.
    pub fn is_powered(&self, bus: &StubBus) -> (r: Result<bool, BluetoothError>)
        ensures
            match r {
                Ok(b) => spec_bool_prop(*bus, self@, "Powered"@) == Ok::<bool, BluetoothError>(b),
                Err(e) => spec_bool_prop(*bus, self@, "Powered"@) == Err::<bool, BluetoothError>(
                    e,
                ),
            },
    {
        self.read_bool_property(bus, "Powered")
    }

    /// Writes the adapter's Powered property, at the long power-up bound.
    pub fn set_powered(&self, bus: &mut StubBus, value: bool) -> (r: Result<(), BluetoothError>)
        ensures
            r == spec_call_outcome(*old(bus), POWER_TIMEOUT_MS),
            write_transition(
                *old(bus),
                *final(bus),
                spec_adapter_interface(),
                self@,
                "Powered"@,
                PropertyVariant::Boolean(value),
                POWER_TIMEOUT_MS,
            ),
    {
        self.set_property(bus, "Powered", PropertyVariant::Boolean(value), POWER_TIMEOUT_MS)
    }

    /// The adapter's Discoverable property.
    pub fn is_discoverable(&self, bus: &StubBus) -> (r: Result<bool, BluetoothError>)
        ensures
            match r {
                Ok(b) => spec_bool_prop(*bus, self@, "Discoverable"@) == Ok::<
                    bool,
                    BluetoothError,
                >(b),
                Err(e) => spec_bool_prop(*bus, self@, "Discoverable"@) == Err::<
                    bool,
                    BluetoothError,
                >(e),
            },
    {
        self.read_bool_property(bus, "Discoverable")
    }

    /// Writes the adapter's Discoverable property.
    pub fn set_discoverable(&self, bus: &mut StubBus, value: bool) -> (r: Result<
        (),
        BluetoothError,
    >)
        ensures
            r == spec_call_outcome(*old(bus), DEFAULT_TIMEOUT_MS),
            write_transition(
                *old(bus),
                *final(bus),
                spec_adapter_interface(),
                self@,
                "Discoverable"@,
                PropertyVariant::Boolean(value),
                DEFAULT_TIMEOUT_MS,
            ),
    {
        self.set_property(bus, "Discoverable", PropertyVariant::Boolean(value), DEFAULT_TIMEOUT_MS)
    }

    /// The adapter's Pairable property.
    pub fn is_pairable(&self, bus: &StubBus) -> (r: Result<bool, BluetoothError>)
        ensures
            match r {
                Ok(b) => spec_bool_prop(*bus, self@, "Pairable"@) == Ok::<bool, BluetoothError>(b),
                Err(e) => spec_bool_prop(*bus, self@, "Pairable"@) == Err::<bool, BluetoothError>(
                    e,
                ),
            },
    {
        self.read_bool_property(bus, "Pairable")
    }

    /// Writes the adapter's Pairable property.
    pub fn set_pairable(&self, bus: &mut StubBus, value: bool) -> (r: Result<(), BluetoothError>)
        ensures
            r == spec_call_outcome(*old(bus), DEFAULT_TIMEOUT_MS),
            write_transition(
                *old(bus),
                *final(bus),
                spec_adapter_interface(),
                self@,
                "Pairable"@,
                PropertyVariant::Boolean(value),
                DEFAULT_TIMEOUT_MS,
            ),
    {
        self.set_property(bus, "Pairable", PropertyVariant::Boolean(value), DEFAULT_TIMEOUT_MS)
    }

    /// The adapter's PairableTimeout property.
    pub fn get_pairable_timeout(&self, bus: &StubBus) -> (r: Result<u32, BluetoothError>)
        ensures
            match r {
                Ok(n) => spec_u32_prop(*bus, self@, "PairableTimeout"@) == Ok::<
                    u32,
                    BluetoothError,
                >(n),
                Err(e) => spec_u32_prop(*bus, self@, "PairableTimeout"@) == Err::<
                    u32,
                    BluetoothError,
                >(e),
            },
    {
        self.read_u32_property(bus, "PairableTimeout")
    }

    /// Writes the adapter's PairableTimeout property.
    pub fn set_pairable_timeout(&self, bus: &mut StubBus, value: u32) -> (r: Result<
        (),
        BluetoothError,
    >)
        ensures
            r == spec_call_outcome(*old(bus), DEFAULT_TIMEOUT_MS),
            write_transition(
                *old(bus),
                *final(bus),
                spec_adapter_interface(),
                self@,
                "PairableTimeout"@,
                PropertyVariant::UnsignedInt32(value),
                DEFAULT_TIMEOUT_MS,
            ),
    {
        self.set_property(
            bus,
            "PairableTimeout",
            PropertyVariant::UnsignedInt32(value),
            DEFAULT_TIMEOUT_MS,
        )
    }

    /// The adapter's DiscoverableTimeout property.
    pub fn get_discoverable_timeout(&self, bus: &StubBus) -> (r: Result<u32, BluetoothError>)
        ensures
            match r {
                Ok(n) => spec_u32_prop(*bus, self@, "DiscoverableTimeout"@) == Ok::<
                    u32,
                    BluetoothError,
                >(n),
                Err(e) => spec_u32_prop(*bus, self@, "DiscoverableTimeout"@) == Err::<
                    u32,
                    BluetoothError,
                >(e),
            },
    {
        self.read_u32_property(bus, "DiscoverableTimeout")
    }

    /// Writes the adapter's DiscoverableTimeout property.
    pub fn set_discoverable_timeout(&self, bus: &mut StubBus, value: u32) -> (r: Result<
        (),
        BluetoothError,
    >)
        ensures
            r == spec_call_outcome(*old(bus), DEFAULT_TIMEOUT_MS),
            write_transition(
                *old(bus),
                *final(bus),
                spec_adapter_interface(),
                self@,
                "DiscoverableTimeout"@,
                PropertyVariant::UnsignedInt32(value),
                DEFAULT_TIMEOUT_MS,
            ),
    {
        self.set_property(
            bus,
            "DiscoverableTimeout",
            PropertyVariant::UnsignedInt32(value),
            DEFAULT_TIMEOUT_MS,
        )
    }

    /// The adapter's Discovering property.
    pub fn is_discovering(&self, bus: &StubBus) -> (r: Result<bool, BluetoothError>)
        ensures
            match r {
                Ok(b) => spec_bool_prop(*bus, self@, "Discovering"@) == Ok::<
                    bool,
                    BluetoothError,
                >(b),
                Err(e) => spec_bool_prop(*bus, self@, "Discovering"@) == Err::<
                    bool,
                    BluetoothError,
                >(e),
            },
    {
        self.read_bool_property(bus, "Discovering")
    }

    /// The adapter's UUIDs property: an array of text items, each naming
    /// one service. Any item of another tag is a typed failure.
    pub fn get_uuids(&self, bus: &StubBus) -> (r: Result<Vec<String>, BluetoothError>)
        ensures
            match r {
                Ok(list) => spec_read_adapter(*bus, self@, "UUIDs"@) matches Ok(v) && v matches
                PropertyVariant::Sequence(items) && all_texts(items@) && list@.len()
                    == items@.len() && (forall|j: int|
                    0 <= j < items@.len() ==> list@[j]@ == text_content(items@[j])),
                Err(e) => match spec_read_adapter(*bus, self@, "UUIDs"@) {
                    Ok(v) => e == BluetoothError::TypeDecodeFailure && !(v matches
                    PropertyVariant::Sequence(items) && all_texts(items@)),
                    Err(e2) => e == e2,
                },
            },
    {
        let v = match self.get_property(bus, "UUIDs") {
            Ok(v) => v,
            Err(e) => {
                return Err(e);
            },
        };
        match v {
            PropertyVariant::Sequence(items) => {
                let n = items.len();
                let mut out: Vec<String> = Vec::new();
                let mut i: usize = 0;
                while i < n
                    invariant
                        n == items.len(),
                        i <= n,
                        spec_read_adapter(*bus, self@, "UUIDs"@) matches Ok(v2) && v2 matches
                        PropertyVariant::Sequence(items2) && items2@ == items@,
                        forall|j: int| 0 <= j < i ==> items@[j] is Text,
                        out@.len() == i,
                        forall|j: int| 0 <= j < i ==> out@[j]@ == text_content(items@[j]),
                    decreases n - i,
                {
                    match &items[i] {
                        PropertyVariant::Text(s) => {
                            out.push(s.clone());
                        },
                        _ => {
                            proof {
                                assert(!(items@[i as int] is Text));
                            }
                            return Err(BluetoothError::TypeDecodeFailure);
                        },
                    }
                    i += 1;
                }
                Ok(out)
            },
            _ => Err(BluetoothError::TypeDecodeFailure),
        }
    }

    /// The adapter's Modalias property, parsed into its source tag and
    /// vendor, product and device identifiers.
    pub fn get_modalias(&self, bus: &StubBus) -> (r: Result<
        (String, u32, u32, u32),
        BluetoothError,
    >)
        ensures
            match r {
                Ok(t) => spec_modalias_prop(*bus, self@) matches Ok(u) && t.0@ == u.0 && t.1 == u.1
                    && t.2 == u.2 && t.3 == u.3,
                Err(e) => spec_modalias_prop(*bus, self@) == Err::<
                    (Seq<char>, u32, u32, u32),
                    BluetoothError,
                >(e),
            },
    {
        let m = match self.read_string_property(bus, "Modalias") {
            Ok(m) => m,
            Err(e) => {
                return Err(e);
            },
        };
        modalias::parse(m.as_str())
    }

    /// The source tag of the adapter's Modalias property.
    pub fn get_vendor_id_source(&self, bus: &StubBus) -> (r: Result<String, BluetoothError>)
        ensures
            match r {
                Ok(s) => spec_modalias_prop(*bus, self@) matches Ok(u) && s@ == u.0,
                Err(e) => spec_modalias_prop(*bus, self@) == Err::<
                    (Seq<char>, u32, u32, u32),
                    BluetoothError,
                >(e),
            },
    {
        let (vendor_id_source, _, _, _) = self.get_modalias(bus)?;
        Ok(vendor_id_source)
    }

    /// The vendor identifier of the adapter's Modalias property.
    pub fn get_vendor_id(&self, bus: &StubBus) -> (r: Result<u32, BluetoothError>)
        ensures
            match r {
                Ok(n) => spec_modalias_prop(*bus, self@) matches Ok(u) && n == u.1,
                Err(e) => spec_modalias_prop(*bus, self@) == Err::<
                    (Seq<char>, u32, u32, u32),
                    BluetoothError,
                >(e),
            },
    {
        let (_, vendor_id, _, _) = self.get_modalias(bus)?;
        Ok(vendor_id)
    }

    /// The product identifier of the adapter's Modalias property.
    pub fn get_product_id(&self, bus: &StubBus) -> (r: Result<u32, BluetoothError>)
        ensures
            match r {
                Ok(n) => spec_modalias_prop(*bus, self@) matches Ok(u) && n == u.2,
                Err(e) => spec_modalias_prop(*bus, self@) == Err::<
                    (Seq<char>, u32, u32, u32),
                    BluetoothError,
                >(e),
            },
    {
        let (_, _, product_id, _) = self.get_modalias(bus)?;
        Ok(product_id)
    }

    /// The device identifier of the adapter's Modalias property.
    pub fn get_device_id(&self, bus: &StubBus) -> (r: Result<u32, BluetoothError>)
        ensures
            match r {
                Ok(n) => spec_modalias_prop(*bus, self@) matches Ok(u) && n == u.3,
                Err(e) => spec_modalias_prop(*bus, self@) == Err::<
                    (Seq<char>, u32, u32, u32),
                    BluetoothError,
                >(e),
            },
    {
        let (_, _, _, device_id) = self.get_modalias(bus)?;
        Ok(device_id)
    }

    /// Invokes RemoveDevice with the device's object path as its one
    /// positional argument.
    pub fn remove_device(&self, bus: &StubBus, device: &str) -> (r: Result<(), BluetoothError>)
        ensures
            r == spec_call_outcome(*bus, DEFAULT_TIMEOUT_MS),
    {
        let mut args: Vec<PropertyVariant> = Vec::new();
        args.push(PropertyVariant::ObjectPathReference(device.to_owned()));
        match self.call_method(bus, "RemoveDevice", args, DEFAULT_TIMEOUT_MS) {
            Ok(_) => Ok(()),
            Err(e) => Err(e),
        }
    }

    /// Invokes ConnectDevice with one dictionary argument naming the
    /// target address and its address kind.
    pub fn connect_device(
        &self,
        bus: &StubBus,
        address: &str,
        address_type: AddressType,
        timeout_ms: i32,
    ) -> (r: Result<BusReply, BluetoothError>)
        ensures
            match r {
                Ok(reply) => spec_call_outcome(*bus, timeout_ms) is Ok && reply.method@
                    == "ConnectDevice"@ && reply.args@.len() == 1 && (reply.args@[0] matches
                PropertyVariant::DictionaryOfVariants(entries) && entries@.len() == 2
                    && entries@[0].0@ == "Address"@ && (entries@[0].1 matches
                PropertyVariant::NestedVariant(a) && *a matches PropertyVariant::Text(s) && s@
                    == address@) && entries@[1].0@ == "AddressType"@ && (entries@[1].1 matches
                PropertyVariant::NestedVariant(t) && *t matches PropertyVariant::Text(s2) && s2@
                    == spec_address_type(address_type))),
                Err(e) => spec_call_outcome(*bus, timeout_ms) == Err::<(), BluetoothError>(e),
            },
    {
        let type_str: &str = match address_type {
            AddressType::Public => "public",
            AddressType::Random => "random",
        };
        let mut entries: Vec<(String, PropertyVariant)> = Vec::new();
        entries.push(
            (
                "Address".to_owned(),
                PropertyVariant::NestedVariant(Box::new(PropertyVariant::Text(address.to_owned()))),
            ),
        );
        entries.push(
            (
                "AddressType".to_owned(),
                PropertyVariant::NestedVariant(
                    Box::new(PropertyVariant::Text(type_str.to_owned())),
                ),
            ),
        );
        let mut args: Vec<PropertyVariant> = Vec::new();
        args.push(PropertyVariant::DictionaryOfVariants(entries));
        self.call_method(bus, "ConnectDevice", args, timeout_ms)
    }
}

} // verus!
