//! Key-value information
use vstd::prelude::*;

use crate::object::{self, TopologyObject};
use crate::strings;

verus! {

/// Textual key-value information
#[derive(Clone, Debug, Hash, PartialEq, Eq)]
pub struct ObjectInfo {
    pub name: String,
    pub value: String,
}

impl ObjectInfo {
    /// The key
    pub fn name(&self) -> (name: &str)
        ensures
            name@ == self.name@,
    {
        self.name.as_str()
    }

    /// The value
    pub fn value(&self) -> (value: &str)
        ensures
            value@ == self.value@,
    {
        self.value.as_str()
    }
}

/// Keys and values of a list of infos
pub open spec fn pairs(infos: Seq<ObjectInfo>) -> Seq<(Seq<char>, Seq<char>)> {
    infos.map_values(|info: ObjectInfo| (info.name@, info.value@))
}

/// Value of the first pair whose key is `key`
pub open spec fn lookup(pairs: Seq<(Seq<char>, Seq<char>)>, key: Seq<char>) -> Option<Seq<char>>
    decreases pairs.len(),
{
    if pairs.len() == 0 {
        None
    } else if pairs[0].0 == key {
        Some(pairs[0].1)
    } else {
        lookup(pairs.drop_first(), key)
    }
}

/// Key-value information
impl TopologyObject {
    /// Complete list of (key, value) textual info pairs
    pub fn infos(&self) -> (infos: &[ObjectInfo])
        ensures
            infos@ == self.infos@,
    {
        self.infos.as_slice()
    }

    /// Search the given key name in object infos and return the corresponding
    /// value
    ///
    /// If multiple keys match the given name, only the first one is returned.
    ///
    /// Calling this operation multiple times will result in duplicate work. If
    /// you need to do this sort of search many times, you should collect
    /// `infos()` into a `HashMap` or `BTreeMap` for increased lookup
    /// efficiency.
    pub fn info(&self, key: &str) -> (value: Option<&str>)
        ensures
            object::str_of(value) == lookup(pairs(self.infos@), key@),
    {
        let wanted = key.to_owned();
        let ghost all = pairs(self.infos@);
        assert(all.skip(0) =~= all);
        let mut i: usize = 0;
        while i < self.infos.len()
            invariant
                wanted@ == key@,
                i <= self.infos@.len(),
                all == pairs(self.infos@),
                lookup(all, key@) == lookup(all.skip(i as int), key@),
            decreases self.infos@.len() - i,
        {
            assert(all.skip(i as int)[0] == all[i as int]);
            if self.infos[i].name == wanted {
                return Some(self.infos[i].value());
            }
            assert(all.skip(i as int).drop_first() =~= all.skip(i + 1));
            i += 1;
        }
        None
    }

    /// Add the given info name and value pair to the given object
    ///
    /// The info is appended to the existing info array even if another key
    /// with the same name already exists.
    ///
    /// The input strings are copied before being added in the object infos.
    ///
    /// This function may be used to enforce object colors in the lstopo
    /// graphical output by using "lstopoStyle" as a name and
    /// "Background=#rrggbb" as a value. See `CUSTOM COLORS` in the `lstopo(1)`
    /// manpage for details.
    ///
    /// If value contains some non-printable characters, they will be dropped
    /// when exporting to XML.
    pub fn add_info(&mut self, name: &str, value: &str)
        requires
            strings::nul_free(name@),
            strings::nul_free(value@),
        ensures
            pairs(final(self).infos@) == pairs(old(self).infos@).push((name@, value@)),
            *final(self) == (TopologyObject { infos: final(self).infos, ..*old(self) }),
    {
        self.infos.push(ObjectInfo { name: name.to_owned(), value: value.to_owned() });
        assert(pairs(self.infos@) =~= pairs(old(self).infos@).push((name@, value@)));
    }
}

/// A pair that was added last is what a lookup of its key finds, unless there
/// was a pair with this key already; lookups of other keys find what they
/// found before
pub proof fn law_lookup_after_add(
    pairs: Seq<(Seq<char>, Seq<char>)>,
    name: Seq<char>,
    value: Seq<char>,
    key: Seq<char>,
)
    ensures
        lookup(pairs.push((name, value)), key) == match lookup(pairs, key) {
            Some(earlier) => Some(earlier),
            None => if key == name {
                Some(value)
            } else {
                None
            },
        },
    decreases pairs.len(),
{
    let more = pairs.push((name, value));
    if pairs.len() == 0 {
        assert(more.drop_first() =~= Seq::empty());
        assert(lookup(more.drop_first(), key) is None);
    } else {
        assert(more.drop_first() =~= pairs.drop_first().push((name, value)));
        law_lookup_after_add(pairs.drop_first(), name, value, key);
    }
}

/// A lookup finds a value if and only if there is a pair with the key
pub proof fn law_lookup_finds(pairs: Seq<(Seq<char>, Seq<char>)>, key: Seq<char>)
    ensures
        lookup(pairs, key) is Some <==> exists|i: int|
            0 <= i < pairs.len() && (#[trigger] pairs[i]).0 == key,
        lookup(pairs, key) matches Some(value) ==> exists|i: int|
            {
                &&& 0 <= i < pairs.len()
                &&& #[trigger] pairs[i] == (key, value)
                &&& forall|j: int| 0 <= j < i ==> (#[trigger] pairs[j]).0 != key
            },
    decreases pairs.len(),
{
    if pairs.len() > 0 {
        let rest = pairs.drop_first();
        law_lookup_finds(rest, key);
        if pairs[0].0 != key {
            if exists|i: int| 0 <= i < pairs.len() && (#[trigger] pairs[i]).0 == key {
                let i = choose|i: int| 0 <= i < pairs.len() && (#[trigger] pairs[i]).0 == key;
                assert(rest[i - 1] == pairs[i]);
            }
            if let Some(value) = lookup(rest, key) {
                let i = choose|i: int|
                    {
                        &&& 0 <= i < rest.len()
                        &&& #[trigger] rest[i] == (key, value)
                        &&& forall|j: int| 0 <= j < i ==> (#[trigger] rest[j]).0 != key
                    };
                assert(pairs[i + 1] == (key, value));
                assert forall|j: int| 0 <= j < i + 1 implies (#[trigger] pairs[j]).0 != key by {
                    if j > 0 {
                        assert(rest[j - 1] == pairs[j]);
                    }
                }
            }
        } else {
            assert(pairs[0] == (key, pairs[0].1));
        }
    }
}

/// Pairs are the keys and values of infos, one by one
pub proof fn law_pairs(infos: Seq<ObjectInfo>, i: int)
    ensures
        pairs(infos).len() == infos.len(),
        0 <= i < infos.len() ==> pairs(infos)[i].0 == infos[i].name@ && pairs(infos)[i].1
            == infos[i].value@,
{
}

/// A lookup goes by the first of two lists that has the key
pub proof fn law_lookup_prefers_earlier(
    a: Seq<(Seq<char>, Seq<char>)>,
    b: Seq<(Seq<char>, Seq<char>)>,
    key: Seq<char>,
)
    ensures
        lookup(a + b, key) == if lookup(a, key) is Some {
            lookup(a, key)
        } else {
            lookup(b, key)
        },
    decreases a.len(),
{
    if a.len() == 0 {
        assert(a + b =~= b);
    } else {
        assert((a + b).drop_first() =~= a.drop_first() + b);
        law_lookup_prefers_earlier(a.drop_first(), b, key);
    }
}

} // verus!
