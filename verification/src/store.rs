//! The block store protocol: content-addressed persistence with pinning
//! and alias resolution.
//!
//! Every operation is specified against [`StoreView`], the abstract state
//! of a store: which blocks it holds, which pins keep them alive, which
//! names resolve to which identifiers, and what has been announced.  An
//! operation that fails leaves the store exactly as it was, so a caller
//! that abandons one observes no partial effect.
use vstd::prelude::*;

verus! {

use crate::cid::{Cid, CidView};
use crate::error::BlockError;

/// Visibility of a block or alias: whether the backend announces the
/// entry on the network.  It is chosen at insert or alias time and is not
/// separately revocable.
#[derive(Clone, Copy, Debug, Eq, PartialEq, Structural)]
pub enum Visibility {
    /// The entry is not announced on the network.
    Private,
    /// The entry is announced on the network.
    Public,
}

/// The abstract state of a block store.
#[verifier::ext_equal]
pub struct StoreView {
    /// The stored blocks, keyed by content identifier.
    pub blocks: Map<CidView, Seq<u8>>,
    /// The identifiers holding a default (root-less) pin.
    pub pinned: Set<CidView>,
    /// The path-qualified pins: each path chains one owner to one block.
    pub path_pins: Map<Seq<u8>, CidView>,
    /// The alias bindings from name strings to identifiers.
    pub aliases: Map<Seq<u8>, CidView>,
    /// The identifiers announced on the network.
    pub announced_blocks: Set<CidView>,
    /// The alias names announced on the network.
    pub announced_aliases: Set<Seq<u8>>,
    /// Whether every acknowledged write has reached durable storage.
    pub flushed: bool,
}

impl StoreView {
    /// A store holding nothing, with nothing buffered.
    pub open spec fn empty() -> StoreView {
        StoreView {
            blocks: Map::empty(),
            pinned: Set::empty(),
            path_pins: Map::empty(),
            aliases: Map::empty(),
            announced_blocks: Set::empty(),
            announced_aliases: Set::empty(),
            flushed: true,
        }
    }

    /// Whether `c` holds at least one pin: the default pin or any
    /// path-qualified pin.
    pub open spec fn is_pinned(self, c: CidView) -> bool {
        self.pinned.contains(c) || exists|p: Seq<u8>|
            #![auto]
            self.path_pins.contains_key(p) && self.path_pins[p] == c
    }

    /// Whether `c` is eligible for collection: stored, but holding no pin
    /// at all.  The external collector must further keep every block that
    /// is transitively reachable, through reference scanning, from a
    /// pinned block.
    pub open spec fn collectable(self, c: CidView) -> bool {
        self.blocks.contains_key(c) && !self.is_pinned(c)
    }

    /// No pin dangles: every pinned identifier, default or path-qualified,
    /// names a stored block.
    pub open spec fn consistent(self) -> bool {
        &&& forall|c: CidView| #![auto] self.pinned.contains(c) ==> self.blocks.contains_key(c)
        &&& forall|p: Seq<u8>|
            #![auto]
            self.path_pins.contains_key(p) ==> self.blocks.contains_key(self.path_pins[p])
    }
}

/// Readable block stores.
pub trait ReadonlyStore: View<V = StoreView> + Sized {
    /// Returns the block stored under `cid`.  A block already present is
    /// returned with the store unchanged; a backend that can reach the
    /// network may fetch an absent block, and must then pin it before
    /// returning it, so that a concurrent collector cannot reclaim the
    /// block before the caller observes it.  On failure the store is left
    /// exactly as it was.
    fn get(&mut self, cid: &Cid) -> (r: Result<Vec<u8>, BlockError>)
        ensures
            old(self)@.blocks.contains_key(cid@) ==> (r matches Ok(data) && data@ == old(
                self,
            )@.blocks[cid@] && final(self)@ == old(self)@),
            !old(self)@.blocks.contains_key(cid@) ==> (r matches Ok(data) ==> final(self)@ == (
            StoreView {
                blocks: old(self)@.blocks.insert(cid@, data@),
                pinned: old(self)@.pinned.insert(cid@),
                flushed: false,
                ..old(self)@
            })),
            r is Err ==> final(self)@ == old(self)@,
    ;
}

/// Writable block stores.
pub trait Store: ReadonlyStore {
    /// Persists and pins a block; a public block is also announced.
    /// Re-inserting an existing identifier is idempotent and never
    /// corrupts existing pin state.  On failure nothing has changed.
    fn insert(&mut self, cid: &Cid, data: Vec<u8>, visibility: Visibility) -> (r: Result<
        (),
        BlockError,
    >)
        ensures
            r is Ok ==> final(self)@ == (StoreView {
                blocks: old(self)@.blocks.insert(cid@, data@),
                pinned: old(self)@.pinned.insert(cid@),
                announced_blocks: if visibility is Public {
                    old(self)@.announced_blocks.insert(cid@)
                } else {
                    old(self)@.announced_blocks
                },
                flushed: false,
                ..old(self)@
            }),
            r is Err ==> final(self)@ == old(self)@,
    ;

    /// Forces buffered writes to durable storage: every operation
    /// acknowledged before `flush` returns survives a subsequent crash.
    fn flush(&mut self) -> (r: Result<(), BlockError>)
        ensures
            r is Ok ==> final(self)@ == (StoreView { flushed: true, ..old(self)@ }),
            r is Err ==> final(self)@ == old(self)@,
    ;

    /// Releases the default pin of a block, a no-op where none is held.
    /// The block is not deleted: deletion stays with the external garbage
    /// collector, which must respect the remaining pins.
    fn unpin(&mut self, cid: &Cid) -> (r: Result<(), BlockError>)
        ensures
            r is Ok ==> final(self)@ == (StoreView {
                pinned: old(self)@.pinned.remove(cid@),
                flushed: false,
                ..old(self)@
            }),
            r is Err ==> final(self)@ == old(self)@,
    ;
}

/// Block stores shared by multiple independent owners.
pub trait MultiUserStore: Store {
    /// Pins `cid` under `path`, chaining the implicit root through the
    /// path to the block.  The operation is atomic with respect to block
    /// existence: it succeeds only if the block is stored (or could be
    /// fetched first), so no pin ever dangles.  A stored block is always
    /// pinnable.
    fn pin(&mut self, cid: &Cid, path: &Vec<u8>) -> (r: Result<(), BlockError>)
        ensures
            old(self)@.blocks.contains_key(cid@) ==> r is Ok,
            r is Ok ==> final(self)@.blocks.contains_key(cid@),
            r is Ok ==> final(self)@.path_pins == old(self)@.path_pins.insert(path@, cid@),
            r is Ok && old(self)@.blocks.contains_key(cid@) ==> final(self)@ == (StoreView {
                path_pins: old(self)@.path_pins.insert(path@, cid@),
                flushed: false,
                ..old(self)@
            }),
            r is Err ==> final(self)@ == old(self)@,
    ;

    /// Breaks exactly the chain associated with `path`: every other path
    /// pinning the same block is left intact, which is how independent
    /// owners share a block without coordinating.
    fn unpin_path(&mut self, path: &Vec<u8>) -> (r: Result<(), BlockError>)
        ensures
            r is Ok ==> final(self)@ == (StoreView {
                path_pins: old(self)@.path_pins.remove(path@),
                flushed: false,
                ..old(self)@
            }),
            r is Err ==> final(self)@ == old(self)@,
    ;
}

/// Stores that bind arbitrary byte-string names to identifiers.
pub trait AliasStore: View<V = StoreView> + Sized {
    /// Binds `alias` to `cid`, overwriting any prior binding; a public
    /// binding is also announced.  On failure nothing has changed.
    fn alias(&mut self, alias: &Vec<u8>, cid: &Cid, visibility: Visibility) -> (r: Result<
        (),
        BlockError,
    >)
        ensures
            r is Ok ==> final(self)@ == (StoreView {
                aliases: old(self)@.aliases.insert(alias@, cid@),
                announced_aliases: if visibility is Public {
                    old(self)@.announced_aliases.insert(alias@)
                } else {
                    old(self)@.announced_aliases
                },
                flushed: false,
                ..old(self)@
            }),
            r is Err ==> final(self)@ == old(self)@,
    ;

    /// Removes the binding of `alias`; idempotent where none exists.
    fn unalias(&mut self, alias: &Vec<u8>) -> (r: Result<(), BlockError>)
        ensures
            r is Ok ==> final(self)@ == (StoreView {
                aliases: old(self)@.aliases.remove(alias@),
                flushed: false,
                ..old(self)@
            }),
            r is Err ==> final(self)@ == old(self)@,
    ;

    /// Resolves `alias`: a pure lookup that changes nothing and implies
    /// nothing about pin state.
    fn resolve(&self, alias: &Vec<u8>) -> (r: Result<Option<Cid>, BlockError>)
        ensures
            r matches Ok(found) ==> (match found {
                Some(c) => self@.aliases.contains_key(alias@) && self@.aliases[alias@] == c@,
                None => !self@.aliases.contains_key(alias@),
            }),
    ;
}

/// Law: unpinning one path leaves every other path's hold on the same
/// block intact: a block still pinned under a second path stays pinned,
/// hence not collection-eligible, after the first path is broken.
pub proof fn lemma_pin_independence(v: StoreView, broken: Seq<u8>, kept: Seq<u8>, c: CidView)
    requires
        broken != kept,
        v.path_pins.contains_key(kept),
        v.path_pins[kept] == c,
        v.blocks.contains_key(c),
    ensures
        !(StoreView { path_pins: v.path_pins.remove(broken), ..v }).collectable(c),
{
    let after = StoreView { path_pins: v.path_pins.remove(broken), ..v };
    assert(after.path_pins.contains_key(kept) && after.path_pins[kept] == c);
    assert(after.is_pinned(c));
}

/// Law: once the last pin is gone the block becomes collection-eligible:
/// a stored block with no default pin and no path pinning it may be
/// collected.
pub proof fn lemma_unpinned_collectable(v: StoreView, c: CidView)
    requires
        v.blocks.contains_key(c),
        !v.pinned.contains(c),
        forall|p: Seq<u8>| #![auto] v.path_pins.contains_key(p) ==> v.path_pins[p] != c,
    ensures
        v.collectable(c),
{
}

/// Law: after binding a name to an identifier, resolution of the name
/// finds exactly that identifier; after removing the binding, resolution
/// finds nothing.  Resolution is the lookup that [`AliasStore::resolve`]
/// answers from.
pub proof fn lemma_alias_round_trip(v: StoreView, name: Seq<u8>, c: CidView)
    ensures
        ({
            let bound = StoreView { aliases: v.aliases.insert(name, c), ..v };
            bound.aliases.contains_key(name) && bound.aliases[name] == c
        }),
        ({
            let unbound = StoreView { aliases: v.aliases.remove(name), ..v };
            !unbound.aliases.contains_key(name)
        }),
{
}

/// Law: the store operations preserve the no-dangling-pin invariant.
/// Inserting a block pins a block that is then stored; pinning under a
/// path demands the block be stored; releasing a pin of either kind and
/// flushing never add a pin.
pub proof fn lemma_ops_preserve_consistent(v: StoreView, c: CidView, data: Seq<u8>, p: Seq<u8>)
    requires
        v.consistent(),
    ensures
        (StoreView {
            blocks: v.blocks.insert(c, data),
            pinned: v.pinned.insert(c),
            ..v
        }).consistent(),
        v.blocks.contains_key(c) ==> (StoreView {
            path_pins: v.path_pins.insert(p, c),
            ..v
        }).consistent(),
        (StoreView { pinned: v.pinned.remove(c), ..v }).consistent(),
        (StoreView { path_pins: v.path_pins.remove(p), ..v }).consistent(),
        (StoreView { flushed: true, ..v }).consistent(),
{
}

} // verus!
