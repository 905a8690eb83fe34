//! Plain values for what the bus delivers as typed variants.
use vstd::prelude::*;

verus! {

/// A bus value, by the one way the decoder reads it: as text, as an unsigned
/// integer, or as a container whose elements are walked in order (a dictionary
/// walks as key, value, key, value, ...; a variant as its single inner value).
pub enum ArgValue {
    Text(String),
    Number(u64),
    Items(Vec<ArgValue>),
    Other,
}

/// A dictionary from property name to the content of its variant, in the
/// order the bus gave it.
pub type Properties = Vec<(String, ArgValue)>;

/// The value of the first entry named `name`.
pub open spec fn property_value<V>(props: Seq<(String, V)>, name: Seq<char>) -> Option<V>
    decreases props.len(),
{
    if props.len() == 0 {
        None
    } else if props[0].0@ == name {
        Some(props[0].1)
    } else {
        property_value(props.subrange(1, props.len() as int), name)
    }
}

/// Looks up the first entry named `name`.
pub fn find_property<'a, V>(props: &'a Vec<(String, V)>, name: &String) -> (r: Option<&'a V>)
    ensures
        match r {
            Some(v) => property_value(props@, name@) == Some(*v),
            None => property_value(props@, name@) is None,
        },
{
    let mut i: usize = 0;
    assert(props@.subrange(0, props@.len() as int) =~= props@);
    while i < props.len()
        invariant
            0 <= i <= props@.len(),
            property_value(props@, name@) == property_value(props@.subrange(i as int, props@.len() as int), name@),
        decreases props.len() - i,
    {
        proof {
            let rest = props@.subrange(i as int, props@.len() as int);
            assert(rest.subrange(1, rest.len() as int) =~= props@.subrange(i + 1, props@.len() as int));
        }
        if props[i].0 == *name {
            return Some(&props[i].1);
        }
        i = i + 1;
    }
    None
}

} // verus!
