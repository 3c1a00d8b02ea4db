//! Function registry: a guest-side table from content-derived keys to
//! callable entry points.
//!
//! The table moves through three phases. It starts `Uninitialized`; the host
//! moves it to `Populating` exactly once when it invokes the module's
//! initialization export; during that call the guest registers its callable
//! surface with [`Registry::store_function`]; and when the export returns the
//! host seals the table. Registration is write-once per logical key, any
//! write observed outside the `Populating` phase is refused, and the sealed
//! table serves read-only lookups for dispatch.

use crate::codec::TypeTag;
use crate::key::{derive_key, key_of};
use vstd::prelude::*;

verus! {

/// Reasons a registry operation is refused.
#[derive(Clone, Copy, Debug, PartialEq, Eq, Structural)]
pub enum RegistryError {
    /// A (name, shape) pair whose key is already present was registered
    /// again; registration is write-once per logical key.
    DuplicateRegistration,
    /// The looked-up key was never registered.
    NotFound,
    /// A write was attempted outside the `Populating` phase.
    SealedRegistry,
}

/// Lifecycle phase of a registry.
#[derive(Clone, Copy, Debug, PartialEq, Eq, Structural)]
pub enum Phase {
    /// Fresh instance; the initialization export has not run yet.
    Uninitialized,
    /// The one-time initialization call is underway; writes are allowed.
    Populating,
    /// Initialization returned; the table is read-only.
    Sealed,
}

/// One registered entry point: its content-derived key and the exported name
/// the host resolves to a native callable.
pub struct FunctionEntry {
    /// Key derived from the exported name and declared parameter shape.
    pub key: u64,
    /// Exported name of the callable, for the host's loader to bind.
    pub name: String,
}

/// The registry: a phase marker and the entries registered so far.
pub struct Registry {
    state: Phase,
    entries: Vec<FunctionEntry>,
}

/// The mapping a sequence of entries denotes: each key to its exported name.
spec fn table_of(entries: Seq<FunctionEntry>) -> Map<u64, Seq<char>>
    decreases entries.len(),
{
    if entries.len() == 0 {
        Map::empty()
    } else {
        table_of(entries.drop_last()).insert(entries.last().key, entries.last().name@)
    }
}

/// A key is in the table exactly when some entry carries it.
proof fn lemma_table_of_domain(entries: Seq<FunctionEntry>, key: u64)
    ensures
        table_of(entries).contains_key(key) <==> exists|i: int|
            0 <= i < entries.len() && (#[trigger] entries[i]).key == key,
    decreases entries.len(),
{
    if entries.len() > 0 {
        lemma_table_of_domain(entries.drop_last(), key);
        if entries.last().key == key {
            assert(entries[entries.len() - 1].key == key);
        } else if table_of(entries.drop_last()).contains_key(key) {
            let i = choose|i: int|
                0 <= i < entries.drop_last().len() && (#[trigger] entries.drop_last()[i]).key
                    == key;
            assert(entries[i].key == key);
        } else if exists|i: int| 0 <= i < entries.len() && (#[trigger] entries[i]).key == key {
            let i = choose|i: int| 0 <= i < entries.len() && (#[trigger] entries[i]).key == key;
            assert(entries.drop_last()[i].key == key);
        }
    }
}

/// With pairwise-distinct keys, the table sends each entry's key to that
/// entry's name.
proof fn lemma_table_of_lookup(entries: Seq<FunctionEntry>, i: int)
    requires
        0 <= i < entries.len(),
        forall|j: int, k: int|
            0 <= j < k < entries.len() ==> (#[trigger] entries[j]).key != (
            #[trigger] entries[k]).key,
    ensures
        table_of(entries).contains_key(entries[i].key),
        table_of(entries)[entries[i].key] == entries[i].name@,
    decreases entries.len(),
{
    if i == entries.len() - 1 {
    } else {
        lemma_table_of_lookup(entries.drop_last(), i);
        assert(entries.drop_last()[i] == entries[i]);
        assert(entries[i].key != entries.last().key);
    }
}

impl Registry {
    /// Current lifecycle phase.
    pub closed spec fn phase(self) -> Phase {
        self.state
    }

    /// The mapping held so far: each registered key to its exported name.
    pub closed spec fn table(self) -> Map<u64, Seq<char>> {
        table_of(self.entries@)
    }

    /// Registered keys are pairwise distinct.
    pub closed spec fn wf(self) -> bool {
        forall|j: int, k: int|
            0 <= j < k < self.entries@.len() ==> (#[trigger] self.entries@[j]).key != (
            #[trigger] self.entries@[k]).key
    }

    /// Fresh registry for a newly loaded module instance.
    pub fn new() -> (r: Registry)
        ensures
            r.wf(),
            r.phase() == Phase::Uninitialized,
            r.table() == Map::<u64, Seq<char>>::empty(),
    {
        Registry { state: Phase::Uninitialized, entries: Vec::new() }
    }

    /// Index of the entry carrying the key, if any.
    fn find_index(&self, key: u64) -> (r: Option<usize>)
        ensures
            r matches Some(i) ==> i < self.entries@.len() && self.entries@[i as int].key == key,
            r is None ==> forall|i: int|
                0 <= i < self.entries@.len() ==> (#[trigger] self.entries@[i]).key != key,
    {
        let mut i: usize = 0;
        while i < self.entries.len()
            invariant
                0 <= i <= self.entries@.len(),
                forall|j: int| 0 <= j < i ==> (#[trigger] self.entries@[j]).key != key,
            decreases self.entries@.len() - i,
        {
            if self.entries[i].key == key {
                return Some(i);
            }
            i = i + 1;
        }
        None
    }

    /// Host-side transition into the one-time `Populating` phase. Observed in
    /// any later phase — a re-invocation of the initialization export — it is
    /// refused with [`RegistryError::SealedRegistry`] and changes nothing.
    pub fn begin_populating(&mut self) -> (r: Result<(), RegistryError>)
        requires
            old(self).wf(),
        ensures
            final(self).wf(),
            final(self).table() == old(self).table(),
            old(self).phase() == Phase::Uninitialized ==> r == Ok::<(), RegistryError>(())
                && final(self).phase() == Phase::Populating,
            old(self).phase() != Phase::Uninitialized ==> r == Err::<(), RegistryError>(
                RegistryError::SealedRegistry,
            ) && final(self).phase() == old(self).phase(),
    {
        match self.state {
            Phase::Uninitialized => {
                self.state = Phase::Populating;
                Ok(())
            },
            _ => Err(RegistryError::SealedRegistry),
        }
    }

    /// Host-side transition out of the `Populating` phase, made when the
    /// initialization export returns; the table is read-only from here on.
    /// In any other phase it is refused with
    /// [`RegistryError::SealedRegistry`] and changes nothing.
    pub fn seal(&mut self) -> (r: Result<(), RegistryError>)
        requires
            old(self).wf(),
        ensures
            final(self).wf(),
            final(self).table() == old(self).table(),
            old(self).phase() == Phase::Populating ==> r == Ok::<(), RegistryError>(())
                && final(self).phase() == Phase::Sealed,
            old(self).phase() != Phase::Populating ==> r == Err::<(), RegistryError>(
                RegistryError::SealedRegistry,
            ) && final(self).phase() == old(self).phase(),
    {
        match self.state {
            Phase::Populating => {
                self.state = Phase::Sealed;
                Ok(())
            },
            _ => Err(RegistryError::SealedRegistry),
        }
    }

    /// Register one callable: derive the key for the exported name and its
    /// declared parameter shape, bind it, and hand the key back. Outside the
    /// `Populating` phase the write is refused with
    /// [`RegistryError::SealedRegistry`]; a key already bound is refused with
    /// [`RegistryError::DuplicateRegistration`]. A refused call changes
    /// nothing.
    pub fn store_function(&mut self, name: &str, shape: &Vec<TypeTag>) -> (r: Result<
        u64,
        RegistryError,
    >)
        requires
            old(self).wf(),
        ensures
            final(self).wf(),
            final(self).phase() == old(self).phase(),
            old(self).phase() != Phase::Populating ==> r == Err::<u64, RegistryError>(
                RegistryError::SealedRegistry,
            ) && final(self).table() == old(self).table(),
            old(self).phase() == Phase::Populating && old(self).table().contains_key(
                key_of(name@, shape@),
            ) ==> r == Err::<u64, RegistryError>(RegistryError::DuplicateRegistration)
                && final(self).table() == old(self).table(),
            old(self).phase() == Phase::Populating && !old(self).table().contains_key(
                key_of(name@, shape@),
            ) ==> r == Ok::<u64, RegistryError>(key_of(name@, shape@)) && final(self).table()
                == old(self).table().insert(key_of(name@, shape@), name@),
    {
        match self.state {
            Phase::Populating => {
                let key = derive_key(name, shape);
                proof {
                    lemma_table_of_domain(self.entries@, key);
                }
                match self.find_index(key) {
                    Some(_) => Err(RegistryError::DuplicateRegistration),
                    None => {
                        let entry = FunctionEntry { key, name: name.to_owned() };
                        self.entries.push(entry);
                        proof {
                            assert(self.entries@.drop_last() =~= old(self).entries@);
                        }
                        Ok(key)
                    },
                }
            },
            _ => Err(RegistryError::SealedRegistry),
        }
    }

    /// Read-only lookup used by the host dispatcher: the entry registered
    /// under the key, or [`RegistryError::NotFound`] for a key never
    /// registered.
    pub fn resolve(&self, key: u64) -> (r: Result<&FunctionEntry, RegistryError>)
        requires
            self.wf(),
        ensures
            self.table().contains_key(key) ==> (r matches Ok(e) && e.key == key && e.name@
                == self.table()[key]),
            !self.table().contains_key(key) ==> (r matches Err(e)
                && e == RegistryError::NotFound),
    {
        proof {
            lemma_table_of_domain(self.entries@, key);
        }
        match self.find_index(key) {
            Some(i) => {
                proof {
                    lemma_table_of_lookup(self.entries@, i as int);
                }
                Ok(&self.entries[i])
            },
            None => Err(RegistryError::NotFound),
        }
    }
}

} // verus!
