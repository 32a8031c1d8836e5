//! Derivation of canonical model addresses from version numbers through
//! the injected version-to-public-key registry.

use vstd::prelude::*;
use crate::types::{Address, ApiError, PublicKey, bytes_eq, clone_bytes};

verus! {

/// The key registered for a version: the first entry carrying that
/// version, or nothing when none is registered.
pub open spec fn key_lookup(s: Seq<(u32, PublicKey)>, version: u32) -> Option<PublicKey>
    decreases s.len(),
{
    if s.len() == 0 {
        None
    } else if s[0].0 == version {
        Some(s[0].1)
    } else {
        key_lookup(s.drop_first(), version)
    }
}

/// Skipping entries that do not carry the version leaves the lookup
/// unchanged.
proof fn lemma_key_lookup_skip(s: Seq<(u32, PublicKey)>, version: u32, i: int)
    requires
        0 <= i <= s.len(),
        forall|j: int| 0 <= j < i ==> s[j].0 != version,
    ensures
        key_lookup(s, version) == key_lookup(s.skip(i), version),
    decreases i,
{
    if i == 0 {
        assert(s.skip(0) =~= s);
    } else {
        assert(s.drop_first() =~= s.skip(1));
        lemma_key_lookup_skip(s.skip(1), version, i - 1);
        assert(s.skip(1).skip(i - 1) =~= s.skip(i));
    }
}

/// A found key sits at some entry carrying the version.
proof fn lemma_key_lookup_index(s: Seq<(u32, PublicKey)>, version: u32)
    requires
        key_lookup(s, version) is Some,
    ensures
        exists|i: int|
            0 <= i < s.len() && s[i].0 == version && s[i].1 == key_lookup(s, version).unwrap(),
    decreases s.len(),
{
    if s[0].0 == version {
        assert(s[0].0 == version && s[0].1 == key_lookup(s, version).unwrap());
    } else {
        lemma_key_lookup_index(s.drop_first(), version);
        let i = choose|i: int|
            0 <= i < s.drop_first().len() && s.drop_first()[i].0 == version && s.drop_first()[i].1
                == key_lookup(s.drop_first(), version).unwrap();
        assert(s[i + 1].0 == version && s[i + 1].1 == key_lookup(s, version).unwrap());
    }
}

/// The canonical address bytes obtained one way from a registered
/// public key. The transform itself belongs to the external key scheme,
/// which guarantees that distinct versions never collide on one
/// address; the core keeps the key's canonical bytes and states that
/// guarantee as the registry invariant.
pub open spec fn address_of_key(key: Seq<u8>) -> Seq<u8> {
    key
}

/// The address derived for a version, when a key is registered for it.
pub open spec fn derive_spec(s: Seq<(u32, PublicKey)>, version: u32) -> Option<Seq<u8>> {
    match key_lookup(s, version) {
        Some(k) => Some(address_of_key(k@)),
        None => None,
    }
}

/// What `derive` returns: the derived address, or `NotFound` exactly
/// when no key is registered for the version.
pub open spec fn derive_post(s: Seq<(u32, PublicKey)>, version: u32, r: Result<
    Address,
    ApiError,
>) -> bool {
    match r {
        Ok(a) => derive_spec(s, version) == Some(a@),
        Err(e) => derive_spec(s, version) is None && e == ApiError::NotFound,
    }
}

/// The injected version-to-public-key registry consumed by address
/// derivation; registration itself is an external concern.
pub struct KeyRegistry {
    pub entries: Vec<(u32, PublicKey)>,
}

impl KeyRegistry {
    /// Versions are registered at most once, and the external key
    /// scheme hands distinct versions distinct keys.
    pub open spec fn wf(self) -> bool {
        &&& forall|i: int, j: int|
            0 <= i < j < self.entries@.len() ==> self.entries@[i].0 != self.entries@[j].0
        &&& forall|i: int, j: int|
            0 <= i < j < self.entries@.len() ==> self.entries@[i].1@ != self.entries@[j].1@
    }

    /// Derives the canonical address for a version: looks the version's
    /// key up and transforms it, or reports `NotFound` when no key is
    /// registered. Deterministic and free of side effects.
    pub fn derive(&self, version: u32) -> (r: Result<Address, ApiError>)
        ensures
            derive_post(self.entries@, version, r),
    {
        let mut i: usize = 0;
        while i < self.entries.len()
            invariant
                i <= self.entries@.len(),
                forall|j: int| 0 <= j < i ==> self.entries@[j].0 != version,
            decreases self.entries@.len() - i,
        {
            if self.entries[i].0 == version {
                proof {
                    lemma_key_lookup_skip(self.entries@, version, i as int);
                    assert(self.entries@.skip(i as int)[0] == self.entries@[i as int]);
                }
                return Ok(Address { bytes: clone_bytes(&self.entries[i].1.bytes) });
            }
            i += 1;
        }
        proof {
            lemma_key_lookup_skip(self.entries@, version, self.entries@.len() as int);
        }
        Err(ApiError::NotFound)
    }

    /// Decides whether this registry satisfies its invariant.
    pub fn check_wf(&self) -> (r: bool)
        ensures
            r == self.wf(),
    {
        versions_distinct(&self.entries) && keys_distinct(&self.entries)
    }
}

/// Says whether no version is registered twice.
fn versions_distinct(entries: &Vec<(u32, PublicKey)>) -> (r: bool)
    ensures
        r == (forall|i: int, j: int|
            0 <= i < j < entries@.len() ==> entries@[i].0 != entries@[j].0),
{
    let mut i: usize = 0;
    while i < entries.len()
        invariant
            i <= entries@.len(),
            forall|a: int, b: int|
                0 <= a < b < entries@.len() && a < i ==> entries@[a].0 != entries@[b].0,
        decreases entries@.len() - i,
    {
        let mut j: usize = i + 1;
        while j < entries.len()
            invariant
                i < entries@.len(),
                i + 1 <= j <= entries@.len(),
                forall|a: int, b: int|
                    0 <= a < b < entries@.len() && a < i ==> entries@[a].0 != entries@[b].0,
                forall|b: int| i < b < j ==> entries@[i as int].0 != entries@[b].0,
            decreases entries@.len() - j,
        {
            if entries[i].0 == entries[j].0 {
                return false;
            }
            j += 1;
        }
        i += 1;
    }
    true
}

/// Says whether no two entries carry the same key bytes.
fn keys_distinct(entries: &Vec<(u32, PublicKey)>) -> (r: bool)
    ensures
        r == (forall|i: int, j: int|
            0 <= i < j < entries@.len() ==> entries@[i].1@ != entries@[j].1@),
{
    let mut i: usize = 0;
    while i < entries.len()
        invariant
            i <= entries@.len(),
            forall|a: int, b: int|
                0 <= a < b < entries@.len() && a < i ==> entries@[a].1@ != entries@[b].1@,
        decreases entries@.len() - i,
    {
        let mut j: usize = i + 1;
        while j < entries.len()
            invariant
                i < entries@.len(),
                i + 1 <= j <= entries@.len(),
                forall|a: int, b: int|
                    0 <= a < b < entries@.len() && a < i ==> entries@[a].1@ != entries@[b].1@,
                forall|b: int| i < b < j ==> entries@[i as int].1@ != entries@[b].1@,
            decreases entries@.len() - j,
        {
            if bytes_eq(&entries[i].1.bytes, &entries[j].1.bytes) {
                return false;
            }
            j += 1;
        }
        i += 1;
    }
    true
}

/// Distinct versions never collide on one address: derivation is
/// injective over the versions a well-formed registry serves.
pub proof fn lemma_derive_injective(reg: KeyRegistry, v1: u32, v2: u32)
    requires
        reg.wf(),
        v1 != v2,
        derive_spec(reg.entries@, v1) is Some,
        derive_spec(reg.entries@, v2) is Some,
    ensures
        derive_spec(reg.entries@, v1) != derive_spec(reg.entries@, v2),
{
    let s = reg.entries@;
    lemma_key_lookup_index(s, v1);
    lemma_key_lookup_index(s, v2);
    let i1 = choose|i: int|
        0 <= i < s.len() && s[i].0 == v1 && s[i].1 == key_lookup(s, v1).unwrap();
    let i2 = choose|i: int|
        0 <= i < s.len() && s[i].0 == v2 && s[i].1 == key_lookup(s, v2).unwrap();
    assert(i1 != i2);
    assert(s[i1].1@ != s[i2].1@);
}

} // verus!
