//! Forced SPF records: TXT lookups for configured domains answered from
//! the configuration instead of DNS.
use vstd::prelude::*;

use crate::text::{ascii_lower, lower_str, str_eq};

verus! {

/// A DNS lookup decorator: TXT lookups for a domain with a forced record
/// are answered with that record; every other lookup goes to `inner`.
/// Because each TXT lookup of an evaluation passes through it, a forced
/// record also applies to domains reached through `include:` and
/// `redirect=`.
pub struct OverrideLookup<L> {
    inner: L,
    /// Domain name and forced record text (e.g. `"v=spf1 -all"`).
    overrides: Vec<(String, String)>,
}

/// Position of the first entry of `ov` at or after `i` whose domain is `key`.
pub open spec fn key_index_from(ov: Seq<(Seq<char>, Seq<char>)>, key: Seq<char>, i: int) -> Option<int>
    decreases ov.len() - i,
{
    if i < 0 || i >= ov.len() {
        None
    } else if ov[i].0 == key {
        Some(i)
    } else {
        key_index_from(ov, key, i + 1)
    }
}

/// The forced record for a looked-up name: that of the first entry whose
/// domain is the ASCII lower-cased name.
pub open spec fn override_record(ov: Seq<(Seq<char>, Seq<char>)>, name: Seq<char>) -> Option<Seq<char>> {
    match key_index_from(ov, ascii_lower(name), 0) {
        Some(i) => Some(ov[i].1),
        None => None,
    }
}

impl<L> OverrideLookup<L> {
    /// The entries as character sequences.
    pub closed spec fn entries(&self) -> Seq<(Seq<char>, Seq<char>)> {
        self.overrides@.map_values(|e: (String, String)| (e.0@, e.1@))
    }

    pub closed spec fn spec_inner(&self) -> L {
        self.inner
    }

    pub fn new(inner: L, overrides: Vec<(String, String)>) -> (r: Self)
        ensures
            r.entries() == overrides@.map_values(|e: (String, String)| (e.0@, e.1@)),
            r.spec_inner() == inner,
    {
        OverrideLookup { inner, overrides }
    }

    /// The lookup that everything without a forced record goes to.
    pub fn inner(&self) -> (r: &L)
        ensures
            *r == self.spec_inner(),
    {
        &self.inner
    }

    /// The forced record for a TXT lookup of `name`, if there is one.
    pub fn override_for(&self, name: &str) -> (r: Option<String>)
        ensures
            r is Some <==> override_record(self.entries(), name@) is Some,
            r matches Some(rec) ==> override_record(self.entries(), name@) == Some(rec@),
    {
        let key = lower_str(name);
        let ghost ov = self.entries();
        let mut i: usize = 0;
        while i < self.overrides.len()
            invariant
                i <= self.overrides@.len(),
                ov == self.entries(),
                key@ == ascii_lower(name@),
                key_index_from(ov, key@, 0) == key_index_from(ov, key@, i as int),
            decreases self.overrides.len() - i,
        {
            assert(ov[i as int] == (self.overrides@[i as int].0@, self.overrides@[i as int].1@));
            if str_eq(self.overrides[i].0.as_str(), key.as_str()) {
                return Some(self.overrides[i].1.clone());
            }
            i = i + 1;
        }
        None
    }
}

/// Forced records are found regardless of the ASCII case of the looked-up
/// name.
pub proof fn law_override_ignores_name_case(
    ov: Seq<(Seq<char>, Seq<char>)>,
    name1: Seq<char>,
    name2: Seq<char>,
)
    requires
        ascii_lower(name1) == ascii_lower(name2),
    ensures
        override_record(ov, name1) == override_record(ov, name2),
{
}

} // verus!
