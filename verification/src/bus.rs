use vstd::prelude::*;
use crate::error::BluetoothError;
use crate::text::str_eq;
use crate::variant::PropertyVariant;

verus! {

/// One property cell of the stub bus: the value stored for an (interface,
/// object path, property name) triple.
#[derive(Debug)]
pub struct StoredProperty {
    pub interface: String,
    pub path: String,
    pub name: String,
    pub value: PropertyVariant,
}

/// The opaque reply message of a remote method invocation. The stub bus
/// echoes the invoked method name and its positional arguments back.
#[derive(Debug, PartialEq)]
pub struct BusReply {
    pub method: String,
    pub args: Vec<PropertyVariant>,
}

/// An in-memory stand-in for the shared bus connection, the external
/// collaborator every accessor call goes through. A test configures it:
///
/// - `delay_ms` is how long the remote side takes to answer; a call whose
///   caller-supplied bound lies below it fails with `Timeout`.
/// - `offline` makes the bus answer every timely call with a bus-level
///   error, surfaced as `RemoteLookupFailure`.
/// - `echo_writes` decides whether a written property value is stored, so
///   that a later read of the same name echoes it back.
///
/// Every operation is a single synchronous round trip; the stub keeps no
/// queue and retries nothing.
pub struct StubBus {
    pub adapters: Vec<String>,
    pub devices: Vec<(String, String)>,
    pub addata: Vec<(String, String)>,
    pub properties: Vec<StoredProperty>,
    pub delay_ms: i32,
    pub offline: bool,
    pub echo_writes: bool,
}

/// Whether a stored property cell carries the given key triple.
pub open spec fn key_matches(
    e: StoredProperty,
    interface: Seq<char>,
    path: Seq<char>,
    name: Seq<char>,
) -> bool {
    e.interface@ == interface && e.path@ == path && e.name@ == name
}

/// The value of the first cell carrying the given key, if any.
pub open spec fn store_get(
    props: Seq<StoredProperty>,
    interface: Seq<char>,
    path: Seq<char>,
    name: Seq<char>,
) -> Option<PropertyVariant>
    decreases props.len(),
{
    if props.len() == 0 {
        None
    } else if key_matches(props[0], interface, path, name) {
        Some(props[0].value)
    } else {
        store_get(props.drop_first(), interface, path, name)
    }
}

/// Outcome of a property read: the timeout bound is checked against the
/// configured delay first, a bus-level fault comes second, and only a
/// reachable, timely bus looks the property up.
pub open spec fn spec_read(
    bus: StubBus,
    interface: Seq<char>,
    path: Seq<char>,
    name: Seq<char>,
    timeout_ms: i32,
) -> Result<PropertyVariant, BluetoothError> {
    if bus.delay_ms > timeout_ms {
        Err(BluetoothError::Timeout)
    } else if bus.offline {
        Err(BluetoothError::RemoteLookupFailure)
    } else {
        match store_get(bus.properties@, interface, path, name) {
            Some(v) => Ok(v),
            None => Err(BluetoothError::RemoteLookupFailure),
        }
    }
}

/// Outcome of a property write or method invocation: `Timeout` past the
/// bound, `RemoteLookupFailure` on an unreachable bus, success otherwise.
pub open spec fn spec_call_outcome(bus: StubBus, timeout_ms: i32) -> Result<(), BluetoothError> {
    if bus.delay_ms > timeout_ms {
        Err(BluetoothError::Timeout)
    } else if bus.offline {
        Err(BluetoothError::RemoteLookupFailure)
    } else {
        Ok(())
    }
}

/// How a property write changes the stub: the configuration and the
/// enumeration lists never move; on a successful write to an echoing bus
/// the named cell holds the written value and every other key reads as
/// before; any other write leaves the store untouched.
pub open spec fn write_transition(
    before: StubBus,
    after: StubBus,
    interface: Seq<char>,
    path: Seq<char>,
    name: Seq<char>,
    value: PropertyVariant,
    timeout_ms: i32,
) -> bool {
    &&& after.adapters == before.adapters
    &&& after.devices == before.devices
    &&& after.addata == before.addata
    &&& after.delay_ms == before.delay_ms
    &&& after.offline == before.offline
    &&& after.echo_writes == before.echo_writes
    &&& if spec_call_outcome(before, timeout_ms) is Ok && before.echo_writes {
        &&& store_get(after.properties@, interface, path, name) == Some(value)
        &&& forall|i2: Seq<char>, p2: Seq<char>, n2: Seq<char>|
            !(i2 == interface && p2 == path && n2 == name) ==> store_get(
                after.properties@,
                i2,
                p2,
                n2,
            ) == store_get(before.properties@, i2, p2, n2)
    } else {
        after.properties == before.properties
    }
}

proof fn lemma_store_get_update(
    props: Seq<StoredProperty>,
    i: int,
    entry: StoredProperty,
    interface: Seq<char>,
    path: Seq<char>,
    name: Seq<char>,
)
    requires
        0 <= i < props.len(),
        key_matches(props[i], interface, path, name),
        forall|j: int| 0 <= j < i ==> !key_matches(props[j], interface, path, name),
        key_matches(entry, interface, path, name),
    ensures
        store_get(props.update(i, entry), interface, path, name) == Some(entry.value),
        forall|i2: Seq<char>, p2: Seq<char>, n2: Seq<char>|
            !(i2 == interface && p2 == path && n2 == name) ==> store_get(
                props.update(i, entry),
                i2,
                p2,
                n2,
            ) == store_get(props, i2, p2, n2),
    decreases props.len(),
{
    let upd = props.update(i, entry);
    if i == 0 {
        assert(upd[0] == entry);
        assert(upd.drop_first() =~= props.drop_first());
        assert forall|i2: Seq<char>, p2: Seq<char>, n2: Seq<char>|
            !(i2 == interface && p2 == path && n2 == name) implies store_get(upd, i2, p2, n2)
            == store_get(props, i2, p2, n2) by {
            assert(store_get(upd.drop_first(), i2, p2, n2) == store_get(
                props.drop_first(),
                i2,
                p2,
                n2,
            ));
        }
    } else {
        assert forall|j: int|
            0 <= j < i - 1 implies !key_matches(
            props.drop_first()[j],
            interface,
            path,
            name,
        ) by {
            assert(props.drop_first()[j] == props[j + 1]);
        }
        lemma_store_get_update(props.drop_first(), i - 1, entry, interface, path, name);
        assert(upd[0] == props[0]);
        assert(upd.drop_first() =~= props.drop_first().update(i - 1, entry));
        assert(store_get(upd, interface, path, name) == Some(entry.value));
        assert forall|i2: Seq<char>, p2: Seq<char>, n2: Seq<char>|
            !(i2 == interface && p2 == path && n2 == name) implies store_get(upd, i2, p2, n2)
            == store_get(props, i2, p2, n2) by {
            assert(store_get(props.drop_first().update(i - 1, entry), i2, p2, n2) == store_get(
                props.drop_first(),
                i2,
                p2,
                n2,
            ));
        }
    }
}

proof fn lemma_store_get_push(
    props: Seq<StoredProperty>,
    entry: StoredProperty,
    interface: Seq<char>,
    path: Seq<char>,
    name: Seq<char>,
)
    requires
        forall|j: int| 0 <= j < props.len() ==> !key_matches(props[j], interface, path, name),
        key_matches(entry, interface, path, name),
    ensures
        store_get(props.push(entry), interface, path, name) == Some(entry.value),
        forall|i2: Seq<char>, p2: Seq<char>, n2: Seq<char>|
            !(i2 == interface && p2 == path && n2 == name) ==> store_get(
                props.push(entry),
                i2,
                p2,
                n2,
            ) == store_get(props, i2, p2, n2),
    decreases props.len(),
{
    let pushed = props.push(entry);
    if props.len() == 0 {
        assert(pushed[0] == entry);
        assert(pushed.drop_first() =~= Seq::<StoredProperty>::empty());
        assert forall|i2: Seq<char>, p2: Seq<char>, n2: Seq<char>|
            !(i2 == interface && p2 == path && n2 == name) implies store_get(pushed, i2, p2, n2)
            == store_get(props, i2, p2, n2) by {
            assert(store_get(Seq::<StoredProperty>::empty(), i2, p2, n2) is None);
        }
    } else {
        assert forall|j: int|
            0 <= j < props.drop_first().len() implies !key_matches(
            props.drop_first()[j],
            interface,
            path,
            name,
        ) by {
            assert(props.drop_first()[j] == props[j + 1]);
        }
        lemma_store_get_push(props.drop_first(), entry, interface, path, name);
        assert(pushed[0] == props[0]);
        assert(pushed.drop_first() =~= props.drop_first().push(entry));
        assert(store_get(pushed, interface, path, name) == Some(entry.value));
        assert forall|i2: Seq<char>, p2: Seq<char>, n2: Seq<char>|
            !(i2 == interface && p2 == path && n2 == name) implies store_get(pushed, i2, p2, n2)
            == store_get(props, i2, p2, n2) by {
            assert(store_get(props.drop_first().push(entry), i2, p2, n2) == store_get(
                props.drop_first(),
                i2,
                p2,
                n2,
            ));
        }
    }
}

impl StubBus {
    /// A fresh bus: nothing enumerable, nothing stored, answering at once,
    /// reachable, and echoing writes.
    pub fn new() -> (r: StubBus)
        ensures
            r.adapters@ == Seq::<String>::empty(),
            r.devices@ == Seq::<(String, String)>::empty(),
            r.addata@ == Seq::<(String, String)>::empty(),
            r.properties@ == Seq::<StoredProperty>::empty(),
            r.delay_ms == 0,
            !r.offline,
            r.echo_writes,
    {
        StubBus {
            adapters: Vec::new(),
            devices: Vec::new(),
            addata: Vec::new(),
            properties: Vec::new(),
            delay_ms: 0,
            offline: false,
            echo_writes: true,
        }
    }

    /// Issues a synchronous property read against the bus.
    pub fn read_property(
        &self,
        interface: &str,
        path: &str,
        name: &str,
        timeout_ms: i32,
    ) -> (r: Result<&PropertyVariant, BluetoothError>)
        ensures
            match r {
                Ok(v) => spec_read(*self, interface@, path@, name@, timeout_ms)
                    == Ok::<PropertyVariant, BluetoothError>(*v),
                Err(e) => spec_read(*self, interface@, path@, name@, timeout_ms)
                    == Err::<PropertyVariant, BluetoothError>(e),
            },
    {
        if self.delay_ms > timeout_ms {
            return Err(BluetoothError::Timeout);
        }
        if self.offline {
            return Err(BluetoothError::RemoteLookupFailure);
        }
        let n = self.properties.len();
        let mut i: usize = 0;
        proof {
            assert(self.properties@.skip(0) =~= self.properties@);
        }
        while i < n
            invariant
                n == self.properties.len(),
                i <= n,
                self.delay_ms <= timeout_ms,
                !self.offline,
                store_get(self.properties@, interface@, path@, name@) == store_get(
                    self.properties@.skip(i as int),
                    interface@,
                    path@,
                    name@,
                ),
            decreases n - i,
        {
            let e = &self.properties[i];
            if str_eq(e.interface.as_str(), interface) && str_eq(e.path.as_str(), path) && str_eq(
                e.name.as_str(),
                name,
            ) {
                proof {
                    assert(self.properties@.skip(i as int)[0] == self.properties@[i as int]);
                    assert(key_matches(self.properties@[i as int], interface@, path@, name@));
                    assert(store_get(self.properties@.skip(i as int), interface@, path@, name@)
                        == Some(self.properties@[i as int].value));
                }
                return Ok(&self.properties[i].value);
            }
            proof {
                assert(self.properties@.skip(i as int)[0] == self.properties@[i as int]);
                assert(self.properties@.skip(i as int).drop_first() =~= self.properties@.skip(
                    i as int + 1,
                ));
            }
            i += 1;
        }
        proof {
            assert(self.properties@.skip(n as int) =~= Seq::<StoredProperty>::empty());
        }
        Err(BluetoothError::RemoteLookupFailure)
    }

    /// Issues a synchronous property write against the bus, blocking at
    /// most `timeout_ms` for the round trip.
    pub fn write_property(
        &mut self,
        interface: &str,
        path: &str,
        name: &str,
        value: PropertyVariant,
        timeout_ms: i32,
    ) -> (r: Result<(), BluetoothError>)
        ensures
            r == spec_call_outcome(*old(self), timeout_ms),
            write_transition(
                *old(self),
                *final(self),
                interface@,
                path@,
                name@,
                value,
                timeout_ms,
            ),
    {
        if self.delay_ms > timeout_ms {
            return Err(BluetoothError::Timeout);
        }
        if self.offline {
            return Err(BluetoothError::RemoteLookupFailure);
        }
        if !self.echo_writes {
            return Ok(());
        }
        let entry = StoredProperty {
            interface: interface.to_owned(),
            path: path.to_owned(),
            name: name.to_owned(),
            value,
        };
        let n = self.properties.len();
        let mut i: usize = 0;
        while i < n
            invariant
                n == self.properties.len(),
                i <= n,
                self == old(self),
                self.delay_ms <= timeout_ms,
                !self.offline,
                self.echo_writes,
                key_matches(entry, interface@, path@, name@),
                entry.value == value,
                forall|j: int|
                    0 <= j < i ==> !key_matches(self.properties@[j], interface@, path@, name@),
            decreases n - i,
        {
            let e = &self.properties[i];
            if str_eq(e.interface.as_str(), interface) && str_eq(e.path.as_str(), path) && str_eq(
                e.name.as_str(),
                name,
            ) {
                proof {
                    assert(key_matches(self.properties@[i as int], interface@, path@, name@));
                    lemma_store_get_update(
                        self.properties@,
                        i as int,
                        entry,
                        interface@,
                        path@,
                        name@,
                    );
                }
                self.properties[i] = entry;
                proof {
                    assert(self.properties@ == old(self).properties@.update(i as int, entry));
                    assert(store_get(self.properties@, interface@, path@, name@) == Some(
                        entry.value,
                    ));
                }
                return Ok(());
            }
            i += 1;
        }
        proof {
            lemma_store_get_push(self.properties@, entry, interface@, path@, name@);
        }
        self.properties.push(entry);
        Ok(())
    }

    /// Issues a synchronous remote method invocation with positional
    /// arguments, blocking at most `timeout_ms` for the reply.
    pub fn invoke_method(
        &self,
        interface: &str,
        path: &str,
        method: &str,
        args: Vec<PropertyVariant>,
        timeout_ms: i32,
    ) -> (r: Result<BusReply, BluetoothError>)
        ensures
            match r {
                Ok(reply) => spec_call_outcome(*self, timeout_ms) is Ok && reply.method@
                    == method@ && reply.args == args,
                Err(e) => spec_call_outcome(*self, timeout_ms) == Err::<(), BluetoothError>(e),
            },
    {
        if self.delay_ms > timeout_ms {
            return Err(BluetoothError::Timeout);
        }
        if self.offline {
            return Err(BluetoothError::RemoteLookupFailure);
        }
        Ok(BusReply { method: method.to_owned(), args })
    }
}

/// Law (round trip): a property write followed immediately by a read of
/// the same name echoes the written value back, whenever the stub is
/// configured to echo writes, is reachable, and neither round trip
/// exceeds its bound.
pub proof fn lemma_write_read_round_trip(
    before: StubBus,
    after: StubBus,
    interface: Seq<char>,
    path: Seq<char>,
    name: Seq<char>,
    value: PropertyVariant,
    write_timeout_ms: i32,
    read_timeout_ms: i32,
)
    requires
        before.echo_writes,
        !before.offline,
        before.delay_ms <= write_timeout_ms,
        before.delay_ms <= read_timeout_ms,
        write_transition(before, after, interface, path, name, value, write_timeout_ms),
    ensures
        spec_read(after, interface, path, name, read_timeout_ms) == Ok::<
            PropertyVariant,
            BluetoothError,
        >(value),
{
}

/// Law (timeout dominance): any read, write or invocation against a bus
/// whose delay lies past the supplied bound fails with `Timeout`, never
/// with `RemoteLookupFailure`.
pub proof fn lemma_timeout_dominates(
    bus: StubBus,
    interface: Seq<char>,
    path: Seq<char>,
    name: Seq<char>,
    timeout_ms: i32,
)
    requires
        bus.delay_ms > timeout_ms,
    ensures
        spec_read(bus, interface, path, name, timeout_ms) == Err::<
            PropertyVariant,
            BluetoothError,
        >(BluetoothError::Timeout),
        spec_call_outcome(bus, timeout_ms) == Err::<(), BluetoothError>(BluetoothError::Timeout),
{
}

} // verus!
