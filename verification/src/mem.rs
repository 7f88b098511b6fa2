//! A verified in-memory block and alias store.
//!
//! [`MemStore`] implements every store protocol against [`StoreView`].
//! Retrievals that would have to reach the network are made explicit as
//! [`PendingGet`] values, so that cancelling one is provably free of
//! partial effects.
use vstd::prelude::*;

verus! {

use crate::cid::{Cid, CidView};
use crate::error::BlockError;
use crate::store::{AliasStore, MultiUserStore, ReadonlyStore, Store, StoreView, Visibility};
use crate::table::{
    distinct_keys, lemma_table_at, lemma_table_contains, lemma_table_push,
    lemma_table_push_distinct, lemma_table_remove, table_view,
};

/// Copies a byte vector.
fn copy_bytes(src: &Vec<u8>) -> (r: Vec<u8>)
    ensures
        r@ == src@,
{
    let mut r: Vec<u8> = Vec::new();
    let mut i: usize = 0;
    while i < src.len()
        invariant
            i <= src.len(),
            r@ == src@.subrange(0, i as int),
        decreases src.len() - i,
    {
        r.push(src[i]);
        proof {
            assert(r@ =~= src@.subrange(0, i as int + 1));
        }
        i = i + 1;
    }
    proof {
        assert(r@ =~= src@);
    }
    r
}

/// Finds the entry carrying an identifier key.
fn find_cid<V>(s: &Vec<(Cid, V)>, key: &Cid) -> (r: Option<usize>)
    ensures
        r matches Some(i) ==> i < s@.len() && s@[i as int].0@ == key@,
        r is None ==> forall|j: int| 0 <= j < s@.len() ==> s@[j].0@ != key@,
{
    let mut i: usize = 0;
    while i < s.len()
        invariant
            i <= s@.len(),
            forall|j: int| 0 <= j < i ==> s@[j].0@ != key@,
        decreases s@.len() - i,
    {
        if s[i].0 == *key {
            return Some(i);
        }
        i = i + 1;
    }
    None
}

/// Finds the entry carrying a name key.
fn find_name<V>(s: &Vec<(Vec<u8>, V)>, key: &Vec<u8>) -> (r: Option<usize>)
    ensures
        r matches Some(i) ==> i < s@.len() && s@[i as int].0@ == key@,
        r is None ==> forall|j: int| 0 <= j < s@.len() ==> s@[j].0@ != key@,
{
    let mut i: usize = 0;
    while i < s.len()
        invariant
            i <= s@.len(),
            forall|j: int| 0 <= j < i ==> s@[j].0@ != key@,
        decreases s@.len() - i,
    {
        if s[i].0 == *key {
            proof {
                if s@[i as int].0@ != key@ {
                    assert(s@[i as int].0@ =~= key@);
                }
            }
            return Some(i);
        }
        i = i + 1;
    }
    None
}

/// Whether any entry points at the given identifier.
fn points_at(s: &Vec<(Vec<u8>, Cid)>, val: &Cid) -> (r: bool)
    ensures
        r == exists|i: int| 0 <= i < s@.len() && s@[i].1@ == val@,
{
    let mut i: usize = 0;
    while i < s.len()
        invariant
            i <= s@.len(),
            forall|j: int| 0 <= j < i ==> s@[j].1@ != val@,
        decreases s@.len() - i,
    {
        if s[i].1 == *val {
            return true;
        }
        i = i + 1;
    }
    false
}

/// Binds `cid` to `data`, overwriting an existing binding.
fn table_set_cid(t: &mut Vec<(Cid, Vec<u8>)>, cid: &Cid, data: Vec<u8>)
    requires
        distinct_keys(old(t)@),
    ensures
        distinct_keys(final(t)@),
        table_view(final(t)@) == table_view(old(t)@).insert(cid@, data@),
{
    let ghost m = table_view(t@);
    match find_cid(t, cid) {
        Some(i) => {
            proof {
                lemma_table_remove::<Cid, Vec<u8>>(t@, i as int);
            }
            t.remove(i);
            let dup = cid.duplicate();
            proof {
                lemma_table_push_distinct::<Cid, Vec<u8>>(t@, dup, data);
                lemma_table_push::<Cid, Vec<u8>>(t@, dup, data);
            }
            t.push((dup, data));
            proof {
                assert(table_view(t@) =~= m.insert(cid@, data@));
            }
        },
        None => {
            proof {
                lemma_table_contains::<Cid, Vec<u8>>(t@, cid@);
            }
            let dup = cid.duplicate();
            proof {
                lemma_table_push_distinct::<Cid, Vec<u8>>(t@, dup, data);
                lemma_table_push::<Cid, Vec<u8>>(t@, dup, data);
            }
            t.push((dup, data));
        },
    }
}

/// Binds `name` to `cid`, overwriting an existing binding.
fn table_set_name(t: &mut Vec<(Vec<u8>, Cid)>, name: &Vec<u8>, cid: &Cid)
    requires
        distinct_keys(old(t)@),
    ensures
        distinct_keys(final(t)@),
        table_view(final(t)@) == table_view(old(t)@).insert(name@, cid@),
{
    let ghost m = table_view(t@);
    match find_name(t, name) {
        Some(i) => {
            proof {
                lemma_table_remove::<Vec<u8>, Cid>(t@, i as int);
            }
            t.remove(i);
            let key = copy_bytes(name);
            let val = cid.duplicate();
            proof {
                lemma_table_push_distinct::<Vec<u8>, Cid>(t@, key, val);
                lemma_table_push::<Vec<u8>, Cid>(t@, key, val);
            }
            t.push((key, val));
            proof {
                assert(table_view(t@) =~= m.insert(name@, cid@));
            }
        },
        None => {
            proof {
                lemma_table_contains::<Vec<u8>, Cid>(t@, name@);
            }
            let key = copy_bytes(name);
            let val = cid.duplicate();
            proof {
                lemma_table_push_distinct::<Vec<u8>, Cid>(t@, key, val);
                lemma_table_push::<Vec<u8>, Cid>(t@, key, val);
            }
            t.push((key, val));
        },
    }
}

/// Removes the binding of `name`, a no-op where none exists.
fn table_remove_name(t: &mut Vec<(Vec<u8>, Cid)>, name: &Vec<u8>)
    requires
        distinct_keys(old(t)@),
    ensures
        distinct_keys(final(t)@),
        table_view(final(t)@) == table_view(old(t)@).remove(name@),
{
    match find_name(t, name) {
        Some(i) => {
            proof {
                lemma_table_remove::<Vec<u8>, Cid>(t@, i as int);
            }
            t.remove(i);
        },
        None => {
            proof {
                lemma_table_contains::<Vec<u8>, Cid>(t@, name@);
                assert(table_view(t@).remove(name@) =~= table_view(t@));
            }
        },
    }
}

/// Flags an identifier, a no-op where it is already flagged.
fn set_flag_cid(t: &mut Vec<(Cid, ())>, cid: &Cid)
    requires
        distinct_keys(old(t)@),
    ensures
        distinct_keys(final(t)@),
        table_view(final(t)@) == table_view(old(t)@).insert(cid@, ()),
{
    match find_cid(t, cid) {
        Some(i) => {
            proof {
                lemma_table_at::<Cid, ()>(t@, i as int);
                assert(table_view(t@).insert(cid@, ()) =~= table_view(t@));
            }
        },
        None => {
            proof {
                lemma_table_contains::<Cid, ()>(t@, cid@);
            }
            let dup = cid.duplicate();
            proof {
                lemma_table_push_distinct::<Cid, ()>(t@, dup, ());
                lemma_table_push::<Cid, ()>(t@, dup, ());
            }
            t.push((dup, ()));
        },
    }
}

/// Removes the flag of an identifier, a no-op where none is held.
fn remove_flag_cid(t: &mut Vec<(Cid, ())>, cid: &Cid)
    requires
        distinct_keys(old(t)@),
    ensures
        distinct_keys(final(t)@),
        table_view(final(t)@) == table_view(old(t)@).remove(cid@),
{
    match find_cid(t, cid) {
        Some(i) => {
            proof {
                lemma_table_remove::<Cid, ()>(t@, i as int);
            }
            t.remove(i);
        },
        None => {
            proof {
                lemma_table_contains::<Cid, ()>(t@, cid@);
                assert(table_view(t@).remove(cid@) =~= table_view(t@));
            }
        },
    }
}

/// Flags a name, a no-op where it is already flagged.
fn set_flag_name(t: &mut Vec<(Vec<u8>, ())>, name: &Vec<u8>)
    requires
        distinct_keys(old(t)@),
    ensures
        distinct_keys(final(t)@),
        table_view(final(t)@) == table_view(old(t)@).insert(name@, ()),
{
    match find_name(t, name) {
        Some(i) => {
            proof {
                lemma_table_at::<Vec<u8>, ()>(t@, i as int);
                assert(table_view(t@).insert(name@, ()) =~= table_view(t@));
            }
        },
        None => {
            proof {
                lemma_table_contains::<Vec<u8>, ()>(t@, name@);
            }
            let key = copy_bytes(name);
            proof {
                lemma_table_push_distinct::<Vec<u8>, ()>(t@, key, ());
                lemma_table_push::<Vec<u8>, ()>(t@, key, ());
            }
            t.push((key, ()));
        },
    }
}

/// An in-memory store: blocks, pins, aliases and announcements held in
/// keyed tables.
pub struct MemStore {
    blocks: Vec<(Cid, Vec<u8>)>,
    pins: Vec<(Cid, ())>,
    path_pins: Vec<(Vec<u8>, Cid)>,
    aliases: Vec<(Vec<u8>, Cid)>,
    announced_blocks: Vec<(Cid, ())>,
    announced_aliases: Vec<(Vec<u8>, ())>,
    flushed: bool,
}

impl MemStore {
    #[verifier::type_invariant]
    spec fn wf(self) -> bool {
        &&& distinct_keys(self.blocks@)
        &&& distinct_keys(self.pins@)
        &&& distinct_keys(self.path_pins@)
        &&& distinct_keys(self.aliases@)
        &&& distinct_keys(self.announced_blocks@)
        &&& distinct_keys(self.announced_aliases@)
    }
}

impl View for MemStore {
    type V = StoreView;

    closed spec fn view(&self) -> StoreView {
        StoreView {
            blocks: table_view(self.blocks@),
            pinned: table_view(self.pins@).dom(),
            path_pins: table_view(self.path_pins@),
            aliases: table_view(self.aliases@),
            announced_blocks: table_view(self.announced_blocks@).dom(),
            announced_aliases: table_view(self.announced_aliases@).dom(),
            flushed: self.flushed,
        }
    }
}

impl MemStore {
    /// An empty store.
    pub fn new() -> (r: MemStore)
        ensures
            r@ == StoreView::empty(),
    {
        let r = MemStore {
            blocks: Vec::new(),
            pins: Vec::new(),
            path_pins: Vec::new(),
            aliases: Vec::new(),
            announced_blocks: Vec::new(),
            announced_aliases: Vec::new(),
            flushed: true,
        };
        proof {
            assert(r@ =~= StoreView::empty());
        }
        r
    }

    /// Whether the block is stored.
    pub fn contains(&self, cid: &Cid) -> (r: bool)
        ensures
            r == self@.blocks.contains_key(cid@),
    {
        proof {
            lemma_table_contains::<Cid, Vec<u8>>(self.blocks@, cid@);
        }
        find_cid(&self.blocks, cid).is_some()
    }

    /// Whether the block was announced on the network.
    pub fn block_announced(&self, cid: &Cid) -> (r: bool)
        ensures
            r == self@.announced_blocks.contains(cid@),
    {
        proof {
            lemma_table_contains::<Cid, ()>(self.announced_blocks@, cid@);
        }
        find_cid(&self.announced_blocks, cid).is_some()
    }

    /// Whether the alias binding was announced on the network.
    pub fn alias_announced(&self, name: &Vec<u8>) -> (r: bool)
        ensures
            r == self@.announced_aliases.contains(name@),
    {
        proof {
            lemma_table_contains::<Vec<u8>, ()>(self.announced_aliases@, name@);
        }
        find_name(&self.announced_aliases, name).is_some()
    }

    /// Whether every acknowledged write has reached durable storage.
    pub fn is_flushed(&self) -> (r: bool)
        ensures
            r == self@.flushed,
    {
        self.flushed
    }

    /// Whether the block is eligible for collection: stored but holding
    /// no pin, default or path-qualified.
    pub fn is_collectable(&self, cid: &Cid) -> (r: bool)
        ensures
            r == self@.collectable(cid@),
    {
        proof {
            use_type_invariant(&*self);
            lemma_table_contains::<Cid, Vec<u8>>(self.blocks@, cid@);
            lemma_table_contains::<Cid, ()>(self.pins@, cid@);
        }
        let stored = find_cid(&self.blocks, cid).is_some();
        let default_pin = find_cid(&self.pins, cid).is_some();
        let path_pin = points_at(&self.path_pins, cid);
        proof {
            if path_pin {
                let i = choose|i: int|
                    0 <= i < self.path_pins@.len() && self.path_pins@[i].1@ == cid@;
                lemma_table_at::<Vec<u8>, Cid>(self.path_pins@, i);
                assert(self@.path_pins.contains_key(self.path_pins@[i].0@)
                    && self@.path_pins[self.path_pins@[i].0@] == cid@);
                assert(self@.is_pinned(cid@));
            } else {
                assert forall|p: Seq<u8>|
                    #![auto]
                    self@.path_pins.contains_key(p) implies self@.path_pins[p] != cid@ by {
                    lemma_table_contains::<Vec<u8>, Cid>(self.path_pins@, p);
                    let j = choose|j: int|
                        0 <= j < self.path_pins@.len() && self.path_pins@[j].0@ == p;
                    lemma_table_at::<Vec<u8>, Cid>(self.path_pins@, j);
                }
            }
        }
        stored && !default_pin && !path_pin
    }

    /// Starts a retrieval that may have to go to the network for the
    /// block.  Creating the request changes nothing in the store.
    pub fn begin_get(&self, cid: &Cid) -> (g: PendingGet)
        ensures
            g@ == cid@,
    {
        PendingGet { cid: cid.duplicate() }
    }
}

impl ReadonlyStore for MemStore {
    /// Returns the block if it is stored; this store reaches no network,
    /// so an absent block reports not-found and nothing changes.
    fn get(&mut self, cid: &Cid) -> (r: Result<Vec<u8>, BlockError>)
        ensures
            final(self)@ == old(self)@,
            r is Ok <==> old(self)@.blocks.contains_key(cid@),
            r matches Err(e) ==> e == BlockError::NotFound,
    {
        proof {
            use_type_invariant(&*self);
            lemma_table_contains::<Cid, Vec<u8>>(self.blocks@, cid@);
        }
        match find_cid(&self.blocks, cid) {
            Some(i) => {
                proof {
                    lemma_table_at::<Cid, Vec<u8>>(self.blocks@, i as int);
                }
                Ok(copy_bytes(&self.blocks[i].1))
            },
            None => Err(BlockError::NotFound),
        }
    }
}

impl Store for MemStore {
    /// Persists and pins the block, announcing a public one; an
    /// in-memory store never fails to do so.
    fn insert(&mut self, cid: &Cid, data: Vec<u8>, visibility: Visibility) -> (r: Result<
        (),
        BlockError,
    >)
        ensures
            r is Ok,
    {
        proof {
            use_type_invariant(&*self);
        }
        let ghost v0 = self@;
        let mut blocks: Vec<(Cid, Vec<u8>)> = Vec::new();
        std::mem::swap(&mut blocks, &mut self.blocks);
        table_set_cid(&mut blocks, cid, data);
        self.blocks = blocks;
        let mut pins: Vec<(Cid, ())> = Vec::new();
        std::mem::swap(&mut pins, &mut self.pins);
        set_flag_cid(&mut pins, cid);
        self.pins = pins;
        if visibility == Visibility::Public {
            let mut announced: Vec<(Cid, ())> = Vec::new();
            std::mem::swap(&mut announced, &mut self.announced_blocks);
            set_flag_cid(&mut announced, cid);
            self.announced_blocks = announced;
        }
        self.flushed = false;
        proof {
            assert(self@ =~= (StoreView {
                blocks: v0.blocks.insert(cid@, data@),
                pinned: v0.pinned.insert(cid@),
                announced_blocks: if visibility is Public {
                    v0.announced_blocks.insert(cid@)
                } else {
                    v0.announced_blocks
                },
                flushed: false,
                ..v0
            }));
        }
        Ok(())
    }

    /// Marks the buffer clean: an in-memory store has nothing further to
    /// write out.
    fn flush(&mut self) -> (r: Result<(), BlockError>)
        ensures
            r is Ok,
    {
        proof {
            use_type_invariant(&*self);
        }
        self.flushed = true;
        proof {
            assert(self@ =~= (StoreView { flushed: true, ..old(self)@ }));
        }
        Ok(())
    }

    /// Releases the default pin; never fails, and a block without one is
    /// left as is.
    fn unpin(&mut self, cid: &Cid) -> (r: Result<(), BlockError>)
        ensures
            r is Ok,
    {
        proof {
            use_type_invariant(&*self);
        }
        let ghost v0 = self@;
        let mut pins: Vec<(Cid, ())> = Vec::new();
        std::mem::swap(&mut pins, &mut self.pins);
        remove_flag_cid(&mut pins, cid);
        self.pins = pins;
        self.flushed = false;
        proof {
            assert(self@ =~= (StoreView {
                pinned: v0.pinned.remove(cid@),
                flushed: false,
                ..v0
            }));
        }
        Ok(())
    }
}

impl MultiUserStore for MemStore {
    /// Pins a stored block under a path; pinning an absent block reports
    /// not-found, since this store cannot fetch it.
    fn pin(&mut self, cid: &Cid, path: &Vec<u8>) -> (r: Result<(), BlockError>)
        ensures
            r is Ok <==> old(self)@.blocks.contains_key(cid@),
            r matches Err(e) ==> e == BlockError::NotFound,
    {
        proof {
            use_type_invariant(&*self);
            lemma_table_contains::<Cid, Vec<u8>>(self.blocks@, cid@);
        }
        let ghost v0 = self@;
        if find_cid(&self.blocks, cid).is_none() {
            return Err(BlockError::NotFound);
        }
        let mut path_pins: Vec<(Vec<u8>, Cid)> = Vec::new();
        std::mem::swap(&mut path_pins, &mut self.path_pins);
        table_set_name(&mut path_pins, path, cid);
        self.path_pins = path_pins;
        self.flushed = false;
        proof {
            assert(self@ =~= (StoreView {
                path_pins: v0.path_pins.insert(path@, cid@),
                flushed: false,
                ..v0
            }));
        }
        Ok(())
    }

    /// Breaks exactly the chain of `path`; never fails, and an unknown
    /// path is left as is.
    fn unpin_path(&mut self, path: &Vec<u8>) -> (r: Result<(), BlockError>)
        ensures
            r is Ok,
    {
        proof {
            use_type_invariant(&*self);
        }
        let ghost v0 = self@;
        let mut path_pins: Vec<(Vec<u8>, Cid)> = Vec::new();
        std::mem::swap(&mut path_pins, &mut self.path_pins);
        table_remove_name(&mut path_pins, path);
        self.path_pins = path_pins;
        self.flushed = false;
        proof {
            assert(self@ =~= (StoreView {
                path_pins: v0.path_pins.remove(path@),
                flushed: false,
                ..v0
            }));
        }
        Ok(())
    }
}

impl AliasStore for MemStore {
    /// Binds the name, announcing a public binding; never fails.
    fn alias(&mut self, alias: &Vec<u8>, cid: &Cid, visibility: Visibility) -> (r: Result<
        (),
        BlockError,
    >)
        ensures
            r is Ok,
    {
        proof {
            use_type_invariant(&*self);
        }
        let ghost v0 = self@;
        let mut aliases: Vec<(Vec<u8>, Cid)> = Vec::new();
        std::mem::swap(&mut aliases, &mut self.aliases);
        table_set_name(&mut aliases, alias, cid);
        self.aliases = aliases;
        if visibility == Visibility::Public {
            let mut announced: Vec<(Vec<u8>, ())> = Vec::new();
            std::mem::swap(&mut announced, &mut self.announced_aliases);
            set_flag_name(&mut announced, alias);
            self.announced_aliases = announced;
        }
        self.flushed = false;
        proof {
            assert(self@ =~= (StoreView {
                aliases: v0.aliases.insert(alias@, cid@),
                announced_aliases: if visibility is Public {
                    v0.announced_aliases.insert(alias@)
                } else {
                    v0.announced_aliases
                },
                flushed: false,
                ..v0
            }));
        }
        Ok(())
    }

    /// Removes the binding; never fails, and an unbound name is left as
    /// is.
    fn unalias(&mut self, alias: &Vec<u8>) -> (r: Result<(), BlockError>)
        ensures
            r is Ok,
    {
        proof {
            use_type_invariant(&*self);
        }
        let ghost v0 = self@;
        let mut aliases: Vec<(Vec<u8>, Cid)> = Vec::new();
        std::mem::swap(&mut aliases, &mut self.aliases);
        table_remove_name(&mut aliases, alias);
        self.aliases = aliases;
        self.flushed = false;
        proof {
            assert(self@ =~= (StoreView {
                aliases: v0.aliases.remove(alias@),
                flushed: false,
                ..v0
            }));
        }
        Ok(())
    }

    /// Looks the name up; never fails, and finds a binding exactly when
    /// one exists.
    fn resolve(&self, alias: &Vec<u8>) -> (r: Result<Option<Cid>, BlockError>)
        ensures
            r is Ok,
            r matches Ok(found) ==> (found is Some <==> self@.aliases.contains_key(alias@)),
    {
        proof {
            use_type_invariant(&*self);
            lemma_table_contains::<Vec<u8>, Cid>(self.aliases@, alias@);
        }
        match find_name(&self.aliases, alias) {
            Some(i) => {
                proof {
                    lemma_table_at::<Vec<u8>, Cid>(self.aliases@, i as int);
                }
                Ok(Some(self.aliases[i].1.duplicate()))
            },
            None => Ok(None),
        }
    }
}

/// A pending, cancellable retrieval of one block.
///
/// A `get` that would have to fetch from the network suspends; this value
/// is that suspension made explicit.  The fetch itself runs outside the
/// store; its outcome is handed to [`PendingGet::complete`].  Abandoning
/// the retrieval instead goes through [`PendingGet::cancel`], whose
/// contract is that the store is left exactly as it was: no phantom pin
/// and no partially visible block.
pub struct PendingGet {
    cid: Cid,
}

impl View for PendingGet {
    type V = CidView;

    closed spec fn view(&self) -> CidView {
        self.cid@
    }
}

impl PendingGet {
    /// Law: cancelling a pending retrieval before completion leaves the
    /// store state — blocks, pins, aliases, announcements — unchanged.
    pub fn cancel(self, store: &mut MemStore)
        ensures
            final(store)@ == old(store)@,
    {
    }

    /// Completes the retrieval with the outcome of the network fetch.  A
    /// block already stored is returned as it is; an absent block the
    /// fetch produced is persisted and pinned before it is returned, so a
    /// concurrent collector can never reclaim it first; a failed fetch of
    /// an absent block reports failure and changes nothing.
    pub fn complete(self, store: &mut MemStore, fetched: Option<Vec<u8>>) -> (r: Result<
        Vec<u8>,
        BlockError,
    >)
        ensures
            old(store)@.blocks.contains_key(self@) ==> (r matches Ok(data) && data@ == old(
                store,
            )@.blocks[self@] && final(store)@ == old(store)@),
            !old(store)@.blocks.contains_key(self@) ==> (match fetched {
                Some(data) => (r matches Ok(rd) && rd@ == data@ && final(store)@ == (StoreView {
                    blocks: old(store)@.blocks.insert(self@, data@),
                    pinned: old(store)@.pinned.insert(self@),
                    flushed: false,
                    ..old(store)@
                })),
                None => r == Err::<Vec<u8>, BlockError>(BlockError::FetchFailed) && final(store)@
                    == old(store)@,
            }),
    {
        proof {
            use_type_invariant(&*store);
            lemma_table_contains::<Cid, Vec<u8>>(store.blocks@, self.cid@);
        }
        match find_cid(&store.blocks, &self.cid) {
            Some(i) => {
                proof {
                    lemma_table_at::<Cid, Vec<u8>>(store.blocks@, i as int);
                }
                Ok(copy_bytes(&store.blocks[i].1))
            },
            None => {
                match fetched {
                    Some(data) => {
                        let ghost v0 = store@;
                        let ret = copy_bytes(&data);
                        let mut blocks: Vec<(Cid, Vec<u8>)> = Vec::new();
                        std::mem::swap(&mut blocks, &mut store.blocks);
                        table_set_cid(&mut blocks, &self.cid, data);
                        store.blocks = blocks;
                        let mut pins: Vec<(Cid, ())> = Vec::new();
                        std::mem::swap(&mut pins, &mut store.pins);
                        set_flag_cid(&mut pins, &self.cid);
                        store.pins = pins;
                        store.flushed = false;
                        proof {
                            assert(store@ =~= (StoreView {
                                blocks: v0.blocks.insert(self@, ret@),
                                pinned: v0.pinned.insert(self@),
                                flushed: false,
                                ..v0
                            }));
                        }
                        Ok(ret)
                    },
                    None => Err(BlockError::FetchFailed),
                }
            },
        }
    }
}

} // verus!
