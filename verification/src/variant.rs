use vstd::prelude::*;
use crate::text::str_eq;

verus! {

/// The closed tagged union of values exchanged over the bus.
///
/// The tag fully determines which payload is valid; reading a payload as
/// the wrong tag is a typed failure (`TypeDecodeFailure`), never undefined
/// behaviour. Every decode site matches exhaustively, so a future payload
/// kind is a compile-time-checked change everywhere it is consumed.
#[derive(Debug, PartialEq)]
pub enum PropertyVariant {
    Boolean(bool),
    UnsignedInt32(u32),
    UnsignedInt16(u16),
    Text(String),
    ByteSequence(Vec<u8>),
    SignedInt16(i16),
    ObjectPathReference(String),
    NestedVariant(Box<PropertyVariant>),
    DictionaryOfVariants(Vec<(String, PropertyVariant)>),
    Sequence(Vec<PropertyVariant>),
}

/// The boolean payload of a variant, or nothing when the tag differs.
pub open spec fn spec_boolean(v: PropertyVariant) -> Option<bool> {
    match v {
        PropertyVariant::Boolean(b) => Some(b),
        _ => None,
    }
}

/// The unsigned 32-bit payload of a variant, or nothing when the tag differs.
pub open spec fn spec_u32(v: PropertyVariant) -> Option<u32> {
    match v {
        PropertyVariant::UnsignedInt32(n) => Some(n),
        _ => None,
    }
}

/// The character sequence of a text payload, or nothing when the tag differs.
pub open spec fn spec_text(v: PropertyVariant) -> Option<Seq<char>> {
    match v {
        PropertyVariant::Text(s) => Some(s@),
        _ => None,
    }
}

/// The byte sequence payload of a variant, or nothing when the tag differs.
pub open spec fn spec_bytes(v: PropertyVariant) -> Option<Seq<u8>> {
    match v {
        PropertyVariant::ByteSequence(b) => Some(b@),
        _ => None,
    }
}

/// The signed 16-bit payload of a variant, or nothing when the tag differs.
pub open spec fn spec_i16(v: PropertyVariant) -> Option<i16> {
    match v {
        PropertyVariant::SignedInt16(n) => Some(n),
        _ => None,
    }
}

/// Whether every item of a sequence carries the Text tag.
pub open spec fn all_texts(items: Seq<PropertyVariant>) -> bool {
    forall|j: int| 0 <= j < items.len() ==> items[j] is Text
}

/// The character content of a text variant, empty for any other tag.
pub open spec fn text_content(v: PropertyVariant) -> Seq<char> {
    match v {
        PropertyVariant::Text(s) => s@,
        _ => Seq::empty(),
    }
}

/// A property bag: the key/value pairs carried by a property-changed
/// signal, mapping property names to loosely typed variants. Keys are
/// expected unique; lookups return the first entry with the wanted name,
/// so insertion order is irrelevant whenever keys are unique.
#[derive(Debug, PartialEq)]
pub struct PropertyBag {
    pub entries: Vec<(String, PropertyVariant)>,
}

impl View for PropertyBag {
    type V = Seq<(String, PropertyVariant)>;

    open spec fn view(&self) -> Seq<(String, PropertyVariant)> {
        self.entries@
    }
}

/// First entry of `entries` whose key reads as `name`, if any.
pub open spec fn bag_get(
    entries: Seq<(String, PropertyVariant)>,
    name: Seq<char>,
) -> Option<PropertyVariant>
    decreases entries.len(),
{
    if entries.len() == 0 {
        None
    } else if entries[0].0@ == name {
        Some(entries[0].1)
    } else {
        bag_get(entries.drop_first(), name)
    }
}

impl PropertyBag {
    /// An empty bag.
    pub fn new() -> (r: PropertyBag)
        ensures
            r@ == Seq::<(String, PropertyVariant)>::empty(),
    {
        PropertyBag { entries: Vec::new() }
    }

    /// Looks the given property name up in the bag.
    pub fn get(&self, name: &str) -> (r: Option<&PropertyVariant>)
        ensures
            match r {
                Some(v) => bag_get(self@, name@) == Some(*v),
                None => bag_get(self@, name@) is None,
            },
    {
        let n = self.entries.len();
        let mut i: usize = 0;
        proof {
            assert(self@.skip(0) =~= self@);
        }
        while i < n
            invariant
                n == self.entries.len(),
                i <= n,
                bag_get(self@, name@) == bag_get(self@.skip(i as int), name@),
            decreases n - i,
        {
            if str_eq(self.entries[i].0.as_str(), name) {
                proof {
                    assert(self@.skip(i as int)[0] == self@[i as int]);
                }
                return Some(&self.entries[i].1);
            }
            proof {
                assert(self@.skip(i as int).drop_first() =~= self@.skip(i as int + 1));
            }
            i += 1;
        }
        proof {
            assert(self@.skip(n as int) =~= Seq::<(String, PropertyVariant)>::empty());
        }
        None
    }

    /// Adds or replaces the entry for `name`: the first entry with that key
    /// is overwritten, and a fresh entry is appended when none exists.
    /// Afterwards the inserted key reads as the new value and every other
    /// key reads as before.
    #[verifier::loop_isolation(false)]
    pub fn insert(&mut self, name: String, value: PropertyVariant)
        ensures
            final(self)@ == bag_put(old(self)@, name, value),
            bag_get(final(self)@, name@) == Some(value),
            forall|other: Seq<char>|
                other != name@ ==> bag_get(final(self)@, other) == bag_get(old(self)@, other),
    {
        proof {
            lemma_bag_put_get(self@, name, value);
            assert forall|other: Seq<char>| other != name@ implies bag_get(
                bag_put(self@, name, value),
                other,
            ) == bag_get(self@, other) by {
                lemma_bag_put_other(self@, name, value, other);
            }
        }
        let n = self.entries.len();
        let mut i: usize = 0;
        while i < n
            invariant
                n == self.entries.len(),
                i <= n,
                self == old(self),
                forall|j: int| 0 <= j < i ==> self@[j].0@ != name@,
            decreases n - i,
        {
            if str_eq(self.entries[i].0.as_str(), name.as_str()) {
                self.entries[i] = (name, value);
                proof {
                    lemma_bag_put_at(old(self)@, final(self)@, name, value, i as int);
                }
                return;
            }
            i += 1;
        }
        self.entries.push((name, value));
        proof {
            lemma_bag_put_append(old(self)@, name, value);
        }
    }
}

/// `entries` with the first `name` entry replaced by `value`, or with a
/// fresh entry appended when no entry carries that key.
pub open spec fn bag_put(
    entries: Seq<(String, PropertyVariant)>,
    name: String,
    value: PropertyVariant,
) -> Seq<(String, PropertyVariant)>
    decreases entries.len(),
{
    if entries.len() == 0 {
        seq![(name, value)]
    } else if entries[0].0@ == name@ {
        entries.update(0, (name, value))
    } else {
        seq![entries[0]] + bag_put(entries.drop_first(), name, value)
    }
}

proof fn lemma_bag_put_at(
    before: Seq<(String, PropertyVariant)>,
    after: Seq<(String, PropertyVariant)>,
    name: String,
    value: PropertyVariant,
    i: int,
)
    requires
        0 <= i < before.len(),
        before[i].0@ == name@,
        forall|j: int| 0 <= j < i ==> before[j].0@ != name@,
        after == before.update(i, (name, value)),
    ensures
        after == bag_put(before, name, value),
    decreases i,
{
    if i == 0 {
        assert(after =~= before.update(0, (name, value)));
    } else {
        assert(after.drop_first() =~= before.drop_first().update(i - 1, (name, value)));
        lemma_bag_put_at(
            before.drop_first(),
            after.drop_first(),
            name,
            value,
            i - 1,
        );
        assert(after =~= seq![before[0]] + bag_put(before.drop_first(), name, value));
    }
}

proof fn lemma_bag_put_append(
    before: Seq<(String, PropertyVariant)>,
    name: String,
    value: PropertyVariant,
)
    requires
        forall|j: int| 0 <= j < before.len() ==> before[j].0@ != name@,
    ensures
        before.push((name, value)) == bag_put(before, name, value),
    decreases before.len(),
{
    if before.len() == 0 {
        assert(before.push((name, value)) =~= seq![(name, value)]);
    } else {
        lemma_bag_put_append(before.drop_first(), name, value);
        assert(before.push((name, value)) =~= seq![before[0]] + before.drop_first().push(
            (name, value),
        ));
    }
}

/// Whether the bag's keys are pairwise distinct, as a property-changed
/// signal's bag is expected to be.
pub open spec fn unique_keys(entries: Seq<(String, PropertyVariant)>) -> bool {
    forall|i: int, j: int| 0 <= i < j < entries.len() ==> entries[i].0@ != entries[j].0@
}

/// With unique keys, a lookup finds any contained entry, wherever it
/// stands: insertion order is irrelevant.
pub proof fn lemma_bag_get_unique(entries: Seq<(String, PropertyVariant)>, i: int)
    requires
        unique_keys(entries),
        0 <= i < entries.len(),
    ensures
        bag_get(entries, entries[i].0@) == Some(entries[i].1),
    decreases entries.len(),
{
    if i > 0 {
        assert(entries[0].0@ != entries[i].0@);
        assert forall|a: int, b: int|
            0 <= a < b < entries.drop_first().len() implies entries.drop_first()[a].0@
            != entries.drop_first()[b].0@ by {
            assert(entries.drop_first()[a] == entries[a + 1]);
            assert(entries.drop_first()[b] == entries[b + 1]);
        }
        lemma_bag_get_unique(entries.drop_first(), i - 1);
        assert(entries.drop_first()[i - 1] == entries[i]);
    }
}

/// When no entry carries `name`, a lookup finds nothing.
pub proof fn lemma_bag_get_absent(entries: Seq<(String, PropertyVariant)>, name: Seq<char>)
    requires
        forall|j: int| 0 <= j < entries.len() ==> entries[j].0@ != name,
    ensures
        bag_get(entries, name) is None,
    decreases entries.len(),
{
    if entries.len() > 0 {
        assert forall|j: int|
            0 <= j < entries.drop_first().len() implies entries.drop_first()[j].0@ != name by {
            assert(entries.drop_first()[j] == entries[j + 1]);
        }
        lemma_bag_get_absent(entries.drop_first(), name);
    }
}

/// Looking a key up after `bag_put` of that key yields the stored value.
proof fn lemma_bag_put_get(
    entries: Seq<(String, PropertyVariant)>,
    name: String,
    value: PropertyVariant,
)
    ensures
        bag_get(bag_put(entries, name, value), name@) == Some(value),
    decreases entries.len(),
{
    if entries.len() == 0 {
    } else if entries[0].0@ == name@ {
        assert(bag_put(entries, name, value)[0] == (name, value));
    } else {
        lemma_bag_put_get(entries.drop_first(), name, value);
        let put = bag_put(entries, name, value);
        assert(put[0] == entries[0]);
        assert(put.drop_first() =~= bag_put(entries.drop_first(), name, value));
    }
}

/// `bag_put` leaves every other key's lookup unchanged.
proof fn lemma_bag_put_other(
    entries: Seq<(String, PropertyVariant)>,
    name: String,
    value: PropertyVariant,
    other: Seq<char>,
)
    requires
        other != name@,
    ensures
        bag_get(bag_put(entries, name, value), other) == bag_get(entries, other),
    decreases entries.len(),
{
    if entries.len() == 0 {
        assert(seq![(name, value)].drop_first() =~= Seq::<(String, PropertyVariant)>::empty());
        assert(bag_get(Seq::<(String, PropertyVariant)>::empty(), other) is None);
    } else if entries[0].0@ == name@ {
        let put = bag_put(entries, name, value);
        assert(put[0] == (name, value));
        assert(put.drop_first() =~= entries.drop_first());
    } else {
        lemma_bag_put_other(entries.drop_first(), name, value, other);
        let put = bag_put(entries, name, value);
        assert(put[0] == entries[0]);
        assert(put.drop_first() =~= bag_put(entries.drop_first(), name, value));
    }
}

} // verus!
