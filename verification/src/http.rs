//! HTTP methods and header maps, modelled as plain values.

use vstd::prelude::*;

verus! {

/// An HTTP request method.
#[derive(Clone, Copy, PartialEq, Eq, Structural, Debug)]
pub enum Method {
    Get,
    Post,
    Put,
    Delete,
    Head,
    Options,
    Connect,
    Patch,
    Trace,
}

/// An ordered multi-map of header names to values.
///
/// Lookups are case-sensitive and return the first entry with the given
/// name; later entries with the same name are kept but shadowed.
#[derive(Debug)]
pub struct HeaderMap {
    entries: Vec<(String, String)>,
}

impl View for HeaderMap {
    type V = Seq<(Seq<char>, Seq<char>)>;

    closed spec fn view(&self) -> Seq<(Seq<char>, Seq<char>)> {
        self.entries.deep_view()
    }
}

/// The value of the first entry named `name`, if any.
pub open spec fn spec_lookup(entries: Seq<(Seq<char>, Seq<char>)>, name: Seq<char>) -> Option<
    Seq<char>,
>
    decreases entries.len(),
{
    if entries.len() == 0 {
        None
    } else if entries[0].0 == name {
        Some(entries[0].1)
    } else {
        spec_lookup(entries.drop_first(), name)
    }
}

/// Whether some entry is named `name`.
pub open spec fn spec_contains_name(
    entries: Seq<(Seq<char>, Seq<char>)>,
    name: Seq<char>,
) -> bool {
    spec_lookup(entries, name) is Some
}

impl HeaderMap {
    pub fn new() -> (r: HeaderMap)
        ensures
            r@ == Seq::<(Seq<char>, Seq<char>)>::empty(),
    {
        HeaderMap { entries: Vec::new() }
    }

    pub fn len(&self) -> (r: usize)
        ensures
            r == self@.len(),
    {
        self.entries.len()
    }

    /// Append an entry; existing entries with the same name are kept.
    pub fn append(&mut self, name: String, value: String)
        ensures
            final(self)@ == old(self)@.push((name@, value@)),
    {
        let ghost before = self@;
        self.entries.push((name, value));
        proof {
            assert(self@ =~= before.push(self.entries@.last().deep_view()));
        }
    }

    /// The value of the first entry named `name`, if any.
    pub fn get(&self, name: &str) -> (r: Option<&String>)
        ensures
            match r {
                Some(v) => spec_lookup(self@, name@) == Some(v@),
                None => spec_lookup(self@, name@) is None,
            },
    {
        let n = self.entries.len();
        proof {
            assert(self@.skip(0) =~= self@);
        }
        for i in 0..n
            invariant
                n == self.entries.len(),
                spec_lookup(self@, name@) == spec_lookup(self@.skip(i as int), name@),
        {
            proof {
                assert(self@.skip(i as int).drop_first() =~= self@.skip(i as int + 1));
                assert(self@.skip(i as int)[0] == self.entries@[i as int].deep_view());
            }
            if crate::strutil::str_eq(self.entries[i].0.as_str(), name) {
                return Some(&self.entries[i].1);
            }
        }
        proof {
            assert(self@.skip(n as int) =~= Seq::<(Seq<char>, Seq<char>)>::empty());
        }
        None
    }

    /// Whether some entry is named `name`.
    pub fn contains_key(&self, name: &str) -> (r: bool)
        ensures
            r == spec_contains_name(self@, name@),
    {
        self.get(name).is_some()
    }
}

} // verus!
