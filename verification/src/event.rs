use vstd::prelude::*;
use crate::variant::{
    bag_get, lemma_bag_get_absent, lemma_bag_get_unique, spec_boolean, spec_bytes, spec_i16,
    unique_keys, PropertyBag, PropertyVariant,
};

verus! {

/// The domain event produced for one classified property-changed signal.
///
/// An event is an immutable snapshot: it carries the originating object
/// path and the decoded payload, and no reference back to the bus.
/// `NoRecognizedProperty` is the normal, ignorable outcome of a well-formed
/// signal in which no recognized property carries its expected tag; it is
/// not an error.
#[derive(Clone, Debug, PartialEq)]
pub enum BluetoothEvent {
    Powered { object_path: String, powered: bool },
    Discovering { object_path: String, discovering: bool },
    Connected { object_path: String, connected: bool },
    ServicesResolved { object_path: String, services_resolved: bool },
    Value { object_path: String, value: Vec<u8> },
    RSSI { object_path: String, rssi: i16 },
    NoRecognizedProperty,
}

/// The mathematical shape of a `BluetoothEvent`: the same variants over
/// character and byte sequences.
pub enum EventModel {
    Powered { object_path: Seq<char>, powered: bool },
    Discovering { object_path: Seq<char>, discovering: bool },
    Connected { object_path: Seq<char>, connected: bool },
    ServicesResolved { object_path: Seq<char>, services_resolved: bool },
    Value { object_path: Seq<char>, value: Seq<u8> },
    RSSI { object_path: Seq<char>, rssi: i16 },
    NoRecognizedProperty,
}

impl View for BluetoothEvent {
    type V = EventModel;

    open spec fn view(&self) -> EventModel {
        match self {
            BluetoothEvent::Powered { object_path, powered } => EventModel::Powered {
                object_path: object_path@,
                powered: *powered,
            },
            BluetoothEvent::Discovering { object_path, discovering } => EventModel::Discovering {
                object_path: object_path@,
                discovering: *discovering,
            },
            BluetoothEvent::Connected { object_path, connected } => EventModel::Connected {
                object_path: object_path@,
                connected: *connected,
            },
            BluetoothEvent::ServicesResolved { object_path, services_resolved } => (
            EventModel::ServicesResolved {
                object_path: object_path@,
                services_resolved: *services_resolved,
            }),
            BluetoothEvent::Value { object_path, value } => EventModel::Value {
                object_path: object_path@,
                value: value@,
            },
            BluetoothEvent::RSSI { object_path, rssi } => EventModel::RSSI {
                object_path: object_path@,
                rssi: *rssi,
            },
            BluetoothEvent::NoRecognizedProperty => EventModel::NoRecognizedProperty,
        }
    }
}

/// The boolean payload of the first `name` entry, when that entry exists
/// and carries the Boolean tag.
pub open spec fn bag_bool(bag: Seq<(String, PropertyVariant)>, name: Seq<char>) -> Option<bool> {
    match bag_get(bag, name) {
        Some(v) => spec_boolean(v),
        None => None,
    }
}

/// The byte-sequence payload of the first `name` entry, when that entry
/// exists and carries the ByteSequence tag.
pub open spec fn bag_byte_seq(bag: Seq<(String, PropertyVariant)>, name: Seq<char>) -> Option<
    Seq<u8>,
> {
    match bag_get(bag, name) {
        Some(v) => spec_bytes(v),
        None => None,
    }
}

/// The signed 16-bit payload of the first `name` entry, when that entry
/// exists and carries the SignedInt16 tag.
pub open spec fn bag_sint16(bag: Seq<(String, PropertyVariant)>, name: Seq<char>) -> Option<i16> {
    match bag_get(bag, name) {
        Some(v) => spec_i16(v),
        None => None,
    }
}

/// Classification of a property bag: the fixed, ordered candidate names
/// Powered, Discovering, Connected, ServicesResolved, Value, RSSI are
/// examined in that priority order; the first name present with its
/// expected payload tag determines the event. A present name whose tag
/// does not match is skipped, never fatal. With no match at all the
/// outcome is `NoRecognizedProperty`.
pub open spec fn spec_classify(
    object_path: Seq<char>,
    bag: Seq<(String, PropertyVariant)>,
) -> EventModel {
    match bag_bool(bag, "Powered"@) {
        Some(b) => EventModel::Powered { object_path, powered: b },
        None => match bag_bool(bag, "Discovering"@) {
            Some(b) => EventModel::Discovering { object_path, discovering: b },
            None => match bag_bool(bag, "Connected"@) {
                Some(b) => EventModel::Connected { object_path, connected: b },
                None => match bag_bool(bag, "ServicesResolved"@) {
                    Some(b) => EventModel::ServicesResolved {
                        object_path,
                        services_resolved: b,
                    },
                    None => match bag_byte_seq(bag, "Value"@) {
                        Some(v) => EventModel::Value { object_path, value: v },
                        None => match bag_sint16(bag, "RSSI"@) {
                            Some(r) => EventModel::RSSI { object_path, rssi: r },
                            None => EventModel::NoRecognizedProperty,
                        },
                    },
                },
            },
        },
    }
}

/// Law: a bag holding exactly one entry, Powered with a boolean payload,
/// classifies as the Powered event carrying the signal's own originating
/// path and that payload, for either boolean value.
pub proof fn lemma_classify_powered_only(
    object_path: Seq<char>,
    bag: Seq<(String, PropertyVariant)>,
    b: bool,
)
    requires
        bag.len() == 1,
        bag[0].0@ == "Powered"@,
        bag[0].1 == PropertyVariant::Boolean(b),
    ensures
        spec_classify(object_path, bag) == (EventModel::Powered { object_path, powered: b }),
{
}

/// Law (priority order): whenever the bag's keys are unique and some
/// entry is Powered with a boolean payload, classification yields the
/// Powered event — never a lower-priority one — whatever else the bag
/// holds, a well-formed Discovering entry included.
pub proof fn lemma_classify_powered_priority(
    object_path: Seq<char>,
    bag: Seq<(String, PropertyVariant)>,
    i: int,
    b: bool,
)
    requires
        unique_keys(bag),
        0 <= i < bag.len(),
        bag[i].0@ == "Powered"@,
        bag[i].1 == PropertyVariant::Boolean(b),
    ensures
        spec_classify(object_path, bag) == (EventModel::Powered { object_path, powered: b }),
{
    lemma_bag_get_unique(bag, i);
}

/// Law (lenient fallthrough): with unique keys, a Powered entry of the
/// wrong tag is skipped rather than fatal, and a Discovering entry with a
/// boolean payload then determines the event.
pub proof fn lemma_classify_mismatch_falls_through(
    object_path: Seq<char>,
    bag: Seq<(String, PropertyVariant)>,
    i: int,
    j: int,
    b: bool,
)
    requires
        unique_keys(bag),
        0 <= i < bag.len(),
        bag[i].0@ == "Powered"@,
        !(bag[i].1 is Boolean),
        0 <= j < bag.len(),
        bag[j].0@ == "Discovering"@,
        bag[j].1 == PropertyVariant::Boolean(b),
    ensures
        spec_classify(object_path, bag) == (EventModel::Discovering {
            object_path,
            discovering: b,
        }),
{
    lemma_bag_get_unique(bag, i);
    lemma_bag_get_unique(bag, j);
}

/// Law: a bag in which no entry carries a recognized name classifies as
/// NoRecognizedProperty.
pub proof fn lemma_classify_unrecognized(
    object_path: Seq<char>,
    bag: Seq<(String, PropertyVariant)>,
)
    requires
        forall|j: int|
            0 <= j < bag.len() ==> bag[j].0@ != "Powered"@ && bag[j].0@ != "Discovering"@
                && bag[j].0@ != "Connected"@ && bag[j].0@ != "ServicesResolved"@ && bag[j].0@
                != "Value"@ && bag[j].0@ != "RSSI"@,
    ensures
        spec_classify(object_path, bag) == EventModel::NoRecognizedProperty,
{
    lemma_bag_get_absent(bag, "Powered"@);
    lemma_bag_get_absent(bag, "Discovering"@);
    lemma_bag_get_absent(bag, "Connected"@);
    lemma_bag_get_absent(bag, "ServicesResolved"@);
    lemma_bag_get_absent(bag, "Value"@);
    lemma_bag_get_absent(bag, "RSSI"@);
}

/// Copies a byte vector element by element.
fn copy_bytes(v: &Vec<u8>) -> (r: Vec<u8>)
    ensures
        r@ == v@,
{
    let mut r: Vec<u8> = Vec::new();
    let n = v.len();
    let mut i: usize = 0;
    while i < n
        invariant
            n == v.len(),
            i <= n,
            r@ == v@.take(i as int),
        decreases n - i,
    {
        r.push(v[i]);
        proof {
            assert(v@.take(i as int).push(v@[i as int]) =~= v@.take(i as int + 1));
        }
        i += 1;
    }
    proof {
        assert(v@.take(n as int) =~= v@);
    }
    r
}

impl BluetoothEvent {
    /// Turns a decoded property-changed signal into exactly one domain
    /// event, by the fixed priority order of `spec_classify`. The signal's
    /// interface name takes no part in the decision.
    pub fn classify(object_path: &str, bag: &PropertyBag) -> (e: BluetoothEvent)
        ensures
            e@ == spec_classify(object_path@, bag@),
    {
        match bag.get("Powered") {
            Some(v) => match v {
                PropertyVariant::Boolean(b) => {
                    return BluetoothEvent::Powered {
                        object_path: object_path.to_owned(),
                        powered: *b,
                    };
                },
                _ => {},
            },
            None => {},
        }
        match bag.get("Discovering") {
            Some(v) => match v {
                PropertyVariant::Boolean(b) => {
                    return BluetoothEvent::Discovering {
                        object_path: object_path.to_owned(),
                        discovering: *b,
                    };
                },
                _ => {},
            },
            None => {},
        }
        match bag.get("Connected") {
            Some(v) => match v {
                PropertyVariant::Boolean(b) => {
                    return BluetoothEvent::Connected {
                        object_path: object_path.to_owned(),
                        connected: *b,
                    };
                },
                _ => {},
            },
            None => {},
        }
        match bag.get("ServicesResolved") {
            Some(v) => match v {
                PropertyVariant::Boolean(b) => {
                    return BluetoothEvent::ServicesResolved {
                        object_path: object_path.to_owned(),
                        services_resolved: *b,
                    };
                },
                _ => {},
            },
            None => {},
        }
        match bag.get("Value") {
            Some(v) => match v {
                PropertyVariant::ByteSequence(bytes) => {
                    return BluetoothEvent::Value {
                        object_path: object_path.to_owned(),
                        value: copy_bytes(bytes),
                    };
                },
                _ => {},
            },
            None => {},
        }
        match bag.get("RSSI") {
            Some(v) => match v {
                PropertyVariant::SignedInt16(rssi) => {
                    return BluetoothEvent::RSSI {
                        object_path: object_path.to_owned(),
                        rssi: *rssi,
                    };
                },
                _ => {},
            },
            None => {},
        }
        BluetoothEvent::NoRecognizedProperty
    }

    /// Entry point for a raw bus signal, decoded outside into
    /// `Some((object_path, interface_name, bag))` when it had the expected
    /// (interface, property-bag) shape and an originating path. A
    /// structural mismatch (`None`) yields no event at all, which callers
    /// must keep distinct from `Some(NoRecognizedProperty)`.
    pub fn from(signal: Option<(String, String, PropertyBag)>) -> (r: Option<BluetoothEvent>)
        ensures
            match signal {
                None => r is None,
                Some(s) => r matches Some(e) && e@ == spec_classify(s.0@, s.2@),
            },
    {
        match signal {
            None => None,
            Some((object_path, _interface, bag)) => Some(
                BluetoothEvent::classify(object_path.as_str(), &bag),
            ),
        }
    }
}

} // verus!
