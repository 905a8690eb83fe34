//! Service data: a map from service UUID to the raw bytes advertised under it,
//! and its decoding from a device's properties.
use vstd::prelude::*;
use vstd::string::StringExecFns;
use crate::arg::{ArgValue, Properties, find_property, property_value};

verus! {

/// The bytes stored under `key` in `entries`; of two entries with one key the
/// later counts.
pub open spec fn entry_lookup(entries: Seq<(String, Vec<u8>)>, key: Seq<char>) -> Option<Seq<u8>>
    decreases entries.len(),
{
    if entries.len() == 0 {
        None
    } else if entries.last().0@ == key {
        Some(entries.last().1@)
    } else {
        entry_lookup(entries.drop_last(), key)
    }
}

proof fn lemma_lookup_at_last_occurrence(entries: Seq<(String, Vec<u8>)>, i: int)
    requires
        0 <= i < entries.len(),
        forall|m: int| i < m < entries.len() ==> entries[m].0@ != entries[i].0@,
    ensures
        entry_lookup(entries, entries[i].0@) == Some(entries[i].1@),
    decreases entries.len(),
{
    if i < entries.len() - 1 {
        let d = entries.drop_last();
        assert(d[i] == entries[i]);
        lemma_lookup_at_last_occurrence(d, i);
    }
}

proof fn lemma_lookup_update_other(entries: Seq<(String, Vec<u8>)>, i: int, e: (String, Vec<u8>), key: Seq<char>)
    requires
        0 <= i < entries.len(),
        entries[i].0@ != key,
        e.0@ != key,
    ensures
        entry_lookup(entries.update(i, e), key) == entry_lookup(entries, key),
    decreases entries.len(),
{
    let u = entries.update(i, e);
    if i == entries.len() - 1 {
        assert(u.drop_last() =~= entries.drop_last());
    } else {
        assert(u.drop_last() =~= entries.drop_last().update(i, e));
        lemma_lookup_update_other(entries.drop_last(), i, e, key);
    }
}

/// A map from service UUID to the bytes advertised under it.
pub struct ServiceData {
    entries: Vec<(String, Vec<u8>)>,
}

impl View for ServiceData {
    type V = Map<Seq<char>, Seq<u8>>;

    closed spec fn view(&self) -> Map<Seq<char>, Seq<u8>> {
        Map::new(
            |k: Seq<char>| entry_lookup(self.entries@, k) is Some,
            |k: Seq<char>| entry_lookup(self.entries@, k).unwrap(),
        )
    }
}

impl ServiceData {
    /// An empty map.
    pub fn new() -> (r: ServiceData)
        ensures
            r@ == Map::<Seq<char>, Seq<u8>>::empty(),
    {
        let r = ServiceData { entries: Vec::new() };
        assert(r@ =~= Map::<Seq<char>, Seq<u8>>::empty());
        r
    }

    /// Index of the entry that holds `key`.
    fn position(&self, key: &String) -> (r: Option<usize>)
        ensures
            match r {
                Some(i) => i < self.entries@.len() && self.entries@[i as int].0@ == key@ && forall|m: int|
                    i < m < self.entries@.len() ==> self.entries@[m].0@ != key@,
                None => forall|m: int| 0 <= m < self.entries@.len() ==> self.entries@[m].0@ != key@,
            },
    {
        let mut j: usize = self.entries.len();
        while j > 0
            invariant
                j <= self.entries@.len(),
                forall|m: int| j <= m < self.entries@.len() ==> self.entries@[m].0@ != key@,
            decreases j,
        {
            if self.entries[j - 1].0 == *key {
                return Some(j - 1);
            }
            j = j - 1;
        }
        None
    }

    /// The bytes stored under `key`.
    pub fn get(&self, key: &String) -> (r: Option<&Vec<u8>>)
        ensures
            match r {
                Some(v) => self@.contains_key(key@) && self@[key@] == v@,
                None => !self@.contains_key(key@),
            },
    {
        match self.position(key) {
            Some(i) => {
                proof {
                    lemma_lookup_at_last_occurrence(self.entries@, i as int);
                }
                Some(&self.entries[i].1)
            },
            None => {
                proof {
                    self.lemma_absent(key@);
                }
                None
            },
        }
    }

    proof fn lemma_absent(&self, key: Seq<char>)
        requires
            forall|m: int| 0 <= m < self.entries@.len() ==> self.entries@[m].0@ != key,
        ensures
            !self@.contains_key(key),
    {
        let s = self.entries@;
        lemma_prefix_absent(s, key, s.len());
        assert(s.subrange(0, s.len() as int) =~= s);
    }

    /// Whether some bytes are stored under `key`.
    pub fn contains_key(&self, key: &String) -> (r: bool)
        ensures
            r == self@.contains_key(key@),
    {
        self.get(key).is_some()
    }

    /// Stores `value` under `key`, replacing what was there.
    pub fn insert(&mut self, key: String, value: Vec<u8>)
        ensures
            final(self)@ == old(self)@.insert(key@, value@),
    {
        let ghost k = key@;
        let ghost v = value@;
        match self.position(&key) {
            Some(i) => {
                let ghost before = self.entries@;
                self.entries.set(i, (key, value));
                proof {
                    let after = self.entries@;
                    assert(after =~= before.update(i as int, after[i as int]));
                    lemma_lookup_at_last_occurrence(after, i as int);
                    assert forall|k2: Seq<char>| k2 != k implies entry_lookup(after, k2) == entry_lookup(
                        before,
                        k2,
                    ) by {
                        lemma_lookup_update_other(before, i as int, after[i as int], k2);
                    }
                }
            },
            None => {
                let ghost before = self.entries@;
                self.entries.push((key, value));
                proof {
                    assert(self.entries@.drop_last() =~= before);
                }
            },
        }
        assert(self@ =~= old(self)@.insert(k, v));
    }
}

proof fn lemma_prefix_absent(s: Seq<(String, Vec<u8>)>, key: Seq<char>, n: nat)
    requires
        n <= s.len(),
        forall|m: int| 0 <= m < s.len() ==> s[m].0@ != key,
    ensures
        entry_lookup(s.subrange(0, n as int), key) is None,
    decreases n,
{
    if n > 0 {
        assert(s.subrange(0, n as int).drop_last() =~= s.subrange(0, n - 1));
        lemma_prefix_absent(s, key, (n - 1) as nat);
    }
}

/// The bytes of `items` that read as integers, each cut to its low eight
/// bits; the others are dropped.
pub open spec fn byte_values(items: Seq<ArgValue>) -> Seq<u8>
    decreases items.len(),
{
    if items.len() == 0 {
        Seq::empty()
    } else {
        byte_values(items.drop_last()) + match items.last() {
            ArgValue::Number(n) => seq![n as u8],
            _ => Seq::empty(),
        }
    }
}

/// The bytes of one service-data value: a container whose first element is
/// the container of the bytes. `None` for any other shape.
pub open spec fn entry_bytes(value: ArgValue) -> Option<Seq<u8>> {
    match value {
        ArgValue::Items(outer) => if outer@.len() > 0 {
            match outer@[0] {
                ArgValue::Items(inner) => Some(byte_values(inner@)),
                _ => None,
            }
        } else {
            None
        },
        _ => None,
    }
}

/// The map made of the first `n` key/value pairs of `items`, taken in order;
/// a pair whose key is not text or whose value has another shape is skipped.
pub open spec fn decoded_entries(items: Seq<ArgValue>, n: nat) -> Map<Seq<char>, Seq<u8>>
    decreases n,
{
    if n == 0 {
        Map::empty()
    } else {
        let m = decoded_entries(items, (n - 1) as nat);
        match (items[2 * n - 2], entry_bytes(items[2 * n - 1])) {
            (ArgValue::Text(k), Some(b)) => m.insert(k@, b),
            _ => m,
        }
    }
}

/// The service data that a device's properties carry: the pairs of the
/// "ServiceData" dictionary, or nothing when that property is absent or is
/// not a dictionary.
pub open spec fn decoded_service_data(props: Seq<(String, ArgValue)>) -> Map<Seq<char>, Seq<u8>> {
    match property_value(props, "ServiceData"@) {
        Some(ArgValue::Items(items)) => decoded_entries(items@, (items@.len() / 2) as nat),
        _ => Map::empty(),
    }
}

fn decode_bytes(items: &Vec<ArgValue>) -> (r: Vec<u8>)
    ensures
        r@ == byte_values(items@),
{
    let mut out: Vec<u8> = Vec::new();
    let mut j: usize = 0;
    while j < items.len()
        invariant
            j <= items@.len(),
            out@ == byte_values(items@.subrange(0, j as int)),
        decreases items.len() - j,
    {
        proof {
            assert(items@.subrange(0, j + 1).drop_last() =~= items@.subrange(0, j as int));
        }
        match &items[j] {
            ArgValue::Number(n) => {
                out.push(*n as u8);
            },
            _ => {},
        }
        j = j + 1;
        proof {
            assert(byte_values(items@.subrange(0, j as int)) =~= out@);
        }
    }
    assert(items@.subrange(0, items@.len() as int) =~= items@);
    out
}

fn decode_entry(value: &ArgValue) -> (r: Option<Vec<u8>>)
    ensures
        match r {
            Some(b) => entry_bytes(*value) == Some(b@),
            None => entry_bytes(*value) is None,
        },
{
    match value {
        ArgValue::Items(outer) => {
            if outer.len() > 0 {
                match &outer[0] {
                    ArgValue::Items(inner) => Some(decode_bytes(inner)),
                    _ => None,
                }
            } else {
                None
            }
        },
        _ => None,
    }
}

/// Decodes the service data out of a device's properties: each key of the
/// "ServiceData" dictionary that is text, with the bytes wrapped in its value.
/// An element of those bytes that is not an integer is dropped; an entry of
/// another shape is skipped; no "ServiceData" gives an empty map.
pub fn parse_service_data(input: &Properties) -> (r: ServiceData)
    ensures
        r@ == decoded_service_data(input@),
{
    let mut out = ServiceData::new();
    let name = String::from_str("ServiceData");
    match find_property(input, &name) {
        Some(ArgValue::Items(items)) => {
            let len: usize = items.len();
            let pairs: usize = len / 2;
            let mut i: usize = 0;
            while i < pairs
                invariant
                    len == items@.len(),
                    pairs == len / 2,
                    i <= pairs,
                    out@ == decoded_entries(items@, i as nat),
                decreases pairs - i,
            {
                assert(2 * i + 1 < len) by (nonlinear_arith)
                    requires
                        i < pairs,
                        pairs == len / 2,
                ;
                let key = &items[2 * i];
                let value = &items[2 * i + 1];
                match key {
                    ArgValue::Text(k) => match decode_entry(value) {
                        Some(b) => {
                            out.insert(k.clone(), b);
                        },
                        None => {},
                    },
                    _ => {},
                }
                i = i + 1;
            }
        },
        _ => {},
    }
    out
}

} // verus!
