//! The engine's own model of decoded JSON. The loader outside the engine
//! turns raw JSON text into this shape; everything the engine reads out of
//! it is verified here. Numbers carry their binary64 bit encoding; objects
//! keep their entries in document order.

use vstd::prelude::*;

verus! {

broadcast use vstd::std_specs::vec::axiom_vec_index_decreases;

/// One decoded JSON value.
#[derive(Debug)]
pub enum JsonValue {
    Null,
    Bool(bool),
    Num(u64),
    Str(String),
    Arr(Vec<JsonValue>),
    Obj(Vec<(String, JsonValue)>),
}

/// The value under the first entry of an object with the given key.
pub open spec fn obj_lookup(entries: Seq<(String, JsonValue)>, key: Seq<char>) -> Option<
    JsonValue,
>
    decreases entries.len(),
{
    if entries.len() == 0 {
        None
    } else if entries[0].0@ == key {
        Some(entries[0].1)
    } else {
        obj_lookup(entries.drop_first(), key)
    }
}

/// Where the first entry with the given key stands in an object.
pub open spec fn obj_index_of(entries: Seq<(String, JsonValue)>, key: Seq<char>) -> Option<int>
    decreases entries.len(),
{
    if entries.len() == 0 {
        None
    } else if entries[0].0@ == key {
        Some(0int)
    } else {
        match obj_index_of(entries.drop_first(), key) {
            Some(i) => Some(i + 1),
            None => None,
        }
    }
}

/// A found key names its entry.
pub proof fn lemma_obj_lookup_index(entries: Seq<(String, JsonValue)>, key: Seq<char>)
    ensures
        match obj_index_of(entries, key) {
            Some(i) => {
                &&& 0 <= i < entries.len()
                &&& entries[i].0@ == key
                &&& obj_lookup(entries, key) == Some(entries[i].1)
            },
            None => obj_lookup(entries, key) is None,
        },
    decreases entries.len(),
{
    if entries.len() > 0 && entries[0].0@ != key {
        lemma_obj_lookup_index(entries.drop_first(), key);
    }
}

impl JsonValue {
    /// The entries of an object; anything else has none.
    pub open spec fn entries(&self) -> Seq<(String, JsonValue)> {
        match *self {
            JsonValue::Obj(entries) => entries@,
            _ => Seq::<(String, JsonValue)>::empty(),
        }
    }

    /// Look a key up in an object: the value under its first entry with
    /// that key. Anything but an object holds nothing.
    pub fn get(&self, key: &str) -> (r: Option<&JsonValue>)
        ensures
            match r {
                Some(v) => obj_lookup(self.entries(), key@) == Some(*v),
                None => obj_lookup(self.entries(), key@) is None,
            },
    {
        match self {
            JsonValue::Obj(entries) => {
                let n = entries.len();
                let mut i: usize = 0;
                proof {
                    assert(entries@.skip(0) =~= entries@);
                }
                while i < n
                    invariant
                        i <= n,
                        n == entries@.len(),
                        *self == JsonValue::Obj(*entries),
                        obj_lookup(entries@, key@) == obj_lookup(entries@.skip(i as int), key@),
                    decreases n - i,
                {
                    proof {
                        assert(entries@.skip(i as int)[0] == entries@[i as int]);
                        assert(entries@.skip(i as int).drop_first() =~= entries@.skip(i + 1));
                    }
                    if crate::scalar_value::str_eq(entries[i].0.as_str(), key) {
                        return Some(&entries[i].1);
                    }
                    i += 1;
                }
                None
            },
            _ => None,
        }
    }

    /// Where a key's first entry stands in an object.
    pub fn index_of(&self, key: &str) -> (r: Option<usize>)
        ensures
            match r {
                Some(i) => obj_index_of(self.entries(), key@) == Some(i as int),
                None => obj_index_of(self.entries(), key@) is None,
            },
    {
        match self {
            JsonValue::Obj(entries) => {
                let n = entries.len();
                let mut i: usize = 0;
                proof {
                    assert(entries@.skip(0) =~= entries@);
                }
                while i < n
                    invariant
                        i <= n,
                        n == entries@.len(),
                        *self == JsonValue::Obj(*entries),
                        obj_index_of(entries@, key@) == match obj_index_of(
                            entries@.skip(i as int),
                            key@,
                        ) {
                            Some(k) => Some(k + i),
                            None => None::<int>,
                        },
                    decreases n - i,
                {
                    proof {
                        assert(entries@.skip(i as int)[0] == entries@[i as int]);
                        assert(entries@.skip(i as int).drop_first() =~= entries@.skip(i + 1));
                    }
                    if crate::scalar_value::str_eq(entries[i].0.as_str(), key) {
                        return Some(i);
                    }
                    i += 1;
                }
                None
            },
            _ => None,
        }
    }

    /// The characters of a string value.
    pub fn as_str(&self) -> (r: Option<&String>)
        ensures
            match r {
                Some(s) => *self == JsonValue::Str(*s),
                None => !(*self is Str),
            },
    {
        match self {
            JsonValue::Str(s) => Some(s),
            _ => None,
        }
    }

    /// The truth of a boolean value.
    pub fn as_bool(&self) -> (r: Option<bool>)
        ensures
            match r {
                Some(b) => *self == JsonValue::Bool(b),
                None => !(*self is Bool),
            },
    {
        match self {
            JsonValue::Bool(b) => Some(*b),
            _ => None,
        }
    }

    /// The bit encoding of a number value.
    pub fn as_num_bits(&self) -> (r: Option<u64>)
        ensures
            match r {
                Some(b) => *self == JsonValue::Num(b),
                None => !(*self is Num),
            },
    {
        match self {
            JsonValue::Num(b) => Some(*b),
            _ => None,
        }
    }

    /// The elements of an array value.
    pub fn as_arr(&self) -> (r: Option<&Vec<JsonValue>>)
        ensures
            match r {
                Some(v) => *self == JsonValue::Arr(*v),
                None => !(*self is Arr),
            },
    {
        match self {
            JsonValue::Arr(v) => Some(v),
            _ => None,
        }
    }

    /// Whether this value is an object.
    pub fn is_obj(&self) -> (r: bool)
        ensures
            r == (*self is Obj),
    {
        match self {
            JsonValue::Obj(_) => true,
            _ => false,
        }
    }
}

} // verus!
