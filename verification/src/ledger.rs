//! The kitty ledger: tokens, ownership and lineage.
//!
//! A [`Ledger`] is a single state holder.  It keeps the token records, the
//! token counter, the ownership mapping, a per-owner index used for
//! enumeration, and three append-only lineage relations (parent-of,
//! child-of, bred-with).  Each operation either applies all of its effects
//! or, on a validation failure, none of them.

use vstd::prelude::*;
use std::collections::HashMap;
use crate::dna::{blake2_128_of, crossover, payload_bytes, random_value, crossover_dna};
use crate::store::{
    no_dup, rel_entries, owner_entries, rel_contains, rel_insert, owner_pairs_contains,
    owner_pairs_remove, rel_values_for, owner_values_for, lemma_push_contains, lemma_no_dup_push,
    lemma_rel_entries_contains, lemma_owner_entries_contains,
};

verus! {

broadcast use vstd::std_specs::hash::group_hash_axioms;

/// A token: a uniquely identified, immutable 16-byte record.
#[derive(Clone, Copy, PartialEq, Eq, Debug)]
pub struct Kitty(pub [u8; 16]);

impl View for Kitty {
    type V = Seq<u8>;

    open spec fn view(&self) -> Seq<u8> {
        self.0@
    }
}

/// The validation failures of the ledger's operations.  Each aborts its
/// operation with no mutation applied.
#[derive(Clone, Copy, PartialEq, Eq, Structural, Debug)]
pub enum Error {
    /// The id space is exhausted; no further token can be created.
    CountOverflow,
    /// A referenced token id does not exist.
    InvalidTokenId,
    /// Breeding requires two distinct parent ids.
    RequireDifferentParent,
}

/// A notification recorded for the surrounding collaborator when an
/// operation succeeds.
#[derive(Clone, Copy, PartialEq, Eq, Structural, Debug)]
pub enum Event {
    /// A token was minted: the owner and the new token's id.
    KittyCreated(u64, u32),
    /// A token changed hands: the caller, the new owner and the token's id.
    Transferred(u64, u64, u32),
}

/// One token was minted: `id`, owned by `owner`, with DNA `dna`; the
/// counter moved to `id + 1`; the lineage relations did not change.
pub open spec fn created(pre: Ledger, post: Ledger, owner: u64, id: u32, dna: Seq<u8>) -> bool {
    &&& post.count == id + 1
    &&& post.tokens() == pre.tokens().insert(id, dna)
    &&& post.owner_map() == pre.owner_map().insert(id, owner)
    &&& post.owner_index() == pre.owner_index().push((owner, id))
    &&& post.parents_list() == pre.parents_list()
    &&& post.children_list() == pre.children_list()
    &&& post.breeded_list() == pre.breeded_list()
}

/// Token `id` changed hands to `to`: ownership is overwritten, the
/// previous owner's index pair is removed and exactly one pair for the new
/// owner is added; tokens, counter and lineage did not change.
pub open spec fn transferred(pre: Ledger, post: Ledger, to: u64, id: u32) -> bool {
    let prev = pre.owner_map()[id];
    &&& post.count == pre.count
    &&& post.tokens() == pre.tokens()
    &&& post.owner_map() == pre.owner_map().insert(id, to)
    &&& forall|p: (u64, u32)|
        #[trigger] post.owner_index().contains(p) <==> ((pre.owner_index().contains(p) && p != (
            prev,
            id,
        )) || p == (to, id))
    &&& post.owner_index().len() == pre.owner_index().len()
    &&& post.owner_pairs() == pre.owner_pairs().remove((prev, id)).insert((to, id))
    &&& post.parents_list() == pre.parents_list()
    &&& post.children_list() == pre.children_list()
    &&& post.breeded_list() == pre.breeded_list()
}

/// A child was bred from the two distinct parents: the child is minted to
/// `sender` with the crossover DNA, both parent-of and child-of entries
/// are recorded, and the bred-with relation gains the unordered parent
/// pair in both directions if it is new; nothing else changed.
pub open spec fn bred(
    pre: Ledger,
    post: Ledger,
    sender: u64,
    kitty_id_1: u32,
    kitty_id_2: u32,
    selector: Seq<u8>,
) -> bool {
    let child = pre.count;
    &&& post.count == pre.count + 1
    &&& post.tokens() == pre.tokens().insert(
        child,
        crossover(pre.tokens()[kitty_id_1], pre.tokens()[kitty_id_2], selector),
    )
    &&& post.owner_map() == pre.owner_map().insert(child, sender)
    &&& post.owner_index() == pre.owner_index().push((sender, child))
    &&& post.parents_list() == pre.parents_list().push((child, kitty_id_1)).push(
        (child, kitty_id_2),
    )
    &&& post.children_list() == pre.children_list().push((kitty_id_1, child)).push(
        (kitty_id_2, child),
    )
    &&& post.breeded_list() == if pre.breeded_list().contains((kitty_id_1, kitty_id_2)) {
        pre.breeded_list()
    } else {
        pre.breeded_list().push((kitty_id_1, kitty_id_2)).push((kitty_id_2, kitty_id_1))
    }
}

/// In a well-formed ledger, ownership of a token id is defined exactly
/// when the token exists, and exactly one per-owner index pair maps to an
/// existing token: the pair of its current owner, standing at exactly one
/// position of the index.
pub proof fn lemma_ownership_consistent(l: Ledger, kitty_id: u32)
    requires
        l.wf(),
    ensures
        l.owner_map().contains_key(kitty_id) <==> l.tokens().contains_key(kitty_id),
        forall|o: u64|
            #[trigger] l.owner_index().contains((o, kitty_id)) <==> (l.tokens().contains_key(
                kitty_id,
            ) && o == l.owner_map()[kitty_id]),
        forall|i: int, j: int|
            0 <= i < l.owner_index().len() && 0 <= j < l.owner_index().len()
                && l.owner_index()[i].1 == kitty_id && l.owner_index()[j].1 == kitty_id ==> i == j,
{
    assert forall|i: int, j: int|
        0 <= i < l.owner_index().len() && 0 <= j < l.owner_index().len()
            && l.owner_index()[i].1 == kitty_id && l.owner_index()[j].1 == kitty_id implies i
        == j by {
        let s = l.owner_index();
        assert(s.contains(s[i]));
        assert(s.contains(s[j]));
        assert(s[i].0 == l.owner_map()[kitty_id]);
        assert(s[j].0 == l.owner_map()[kitty_id]);
        assert(s[i] == s[j]);
    }
}

/// In a well-formed ledger, the per-owner enumeration for `owner` lists a
/// token id exactly when the token exists and `owner` is its current
/// owner.
pub proof fn lemma_enumeration_matches_ownership(l: Ledger, owner: u64, kitty_id: u32)
    requires
        l.wf(),
    ensures
        owner_entries(l.owner_index(), owner).contains(kitty_id) <==> (l.tokens().contains_key(
            kitty_id,
        ) && l.owner_map()[kitty_id] == owner),
{
    lemma_owner_entries_contains(l.owner_index(), owner, kitty_id);
}

/// The lineage enumerations list exactly the recorded relation entries:
/// `b` is enumerated under `a` exactly when the pair `(a, b)` stands in
/// the relation.
pub proof fn lemma_lineage_enumeration(l: Ledger, a: u32, b: u32)
    ensures
        rel_entries(l.parents_list(), a).contains(b) <==> l.parents_list().contains((a, b)),
        rel_entries(l.children_list(), a).contains(b) <==> l.children_list().contains((a, b)),
        rel_entries(l.breeded_list(), a).contains(b) <==> l.breeded_list().contains((a, b)),
{
    lemma_rel_entries_contains(l.parents_list(), a, b);
    lemma_rel_entries_contains(l.children_list(), a, b);
    lemma_rel_entries_contains(l.breeded_list(), a, b);
}

/// After a breed of `a` with `b` producing the child `pre.count`: the two
/// parent-of entries, the two child-of entries and the bred-with pair in
/// both directions are all present, and no other relation entry was
/// created or removed.
pub proof fn lemma_breeding_records_lineage(
    pre: Ledger,
    post: Ledger,
    sender: u64,
    a: u32,
    b: u32,
    selector: Seq<u8>,
)
    requires
        pre.wf(),
        bred(pre, post, sender, a, b, selector),
    ensures
        post.parents_list().contains((pre.count, a)),
        post.parents_list().contains((pre.count, b)),
        post.children_list().contains((a, pre.count)),
        post.children_list().contains((b, pre.count)),
        post.breeded_list().contains((a, b)),
        post.breeded_list().contains((b, a)),
        forall|p: (u32, u32)|
            #[trigger] post.parents_list().contains(p) <==> (pre.parents_list().contains(p) || p
                == (pre.count, a) || p == (pre.count, b)),
        forall|p: (u32, u32)|
            #[trigger] post.children_list().contains(p) <==> (pre.children_list().contains(p) || p
                == (a, pre.count) || p == (b, pre.count)),
        forall|p: (u32, u32)|
            #[trigger] post.breeded_list().contains(p) <==> (pre.breeded_list().contains(p) || p
                == (a, b) || p == (b, a)),
{
    let child = pre.count;
    lemma_push_contains(pre.parents_list(), (child, a));
    lemma_push_contains(pre.parents_list().push((child, a)), (child, b));
    lemma_push_contains(pre.children_list(), (a, child));
    lemma_push_contains(pre.children_list().push((a, child)), (b, child));
    if !pre.breeded_list().contains((a, b)) {
        lemma_push_contains(pre.breeded_list(), (a, b));
        lemma_push_contains(pre.breeded_list().push((a, b)), (b, a));
    }
}

/// Minting the next id preserves density: when every id below the counter
/// exists and the new token takes the counter's value, every id below the
/// advanced counter exists too.  Both creation and breeding mint this way.
pub proof fn lemma_mint_preserves_density(pre: Ledger, post: Ledger, id: u32, dna: Seq<u8>)
    requires
        pre.dense(),
        id == pre.count,
        pre.count < u32::MAX,
        post.count == id + 1,
        post.tokens() == pre.tokens().insert(id, dna),
    ensures
        post.dense(),
{
}

/// A transfer preserves density: it touches neither the token records nor
/// the counter.
pub proof fn lemma_transfer_preserves_density(pre: Ledger, post: Ledger, to: u64, id: u32)
    requires
        pre.dense(),
        transferred(pre, post, to, id),
    ensures
        post.dense(),
{
}

/// The ledger state.
///
/// Owners are opaque, comparable identities supplied by the caller-identity
/// collaborator; they are carried as plain 64-bit values.  Token ids are
/// 32-bit, minted densely from `count`.
pub struct Ledger {
    /// The number of tokens ever created; also the next id to assign.
    pub count: u32,
    /// Token id to token record.
    pub kitties: HashMap<u32, Kitty>,
    /// Token id to current owner.  Every existing token has exactly one.
    pub owners: HashMap<u32, u64>,
    /// The pairs (owner, token id), used to enumerate an owner's tokens.
    pub user_kitties: Vec<(u64, u32)>,
    /// The pairs (child, parent), two per bred token.  Append-only.
    pub parents: Vec<(u32, u32)>,
    /// The pairs (parent, child), inverse of `parents`.  Append-only.
    pub children: Vec<(u32, u32)>,
    /// The unordered pairs of tokens ever bred together, kept in both
    /// directions.  Append-only.
    pub breeded: Vec<(u32, u32)>,
    /// The notifications emitted by successful operations, in order.
    pub events: Vec<Event>,
}

impl Ledger {
    /// The token records as a map from id to DNA bytes.
    pub open spec fn tokens(self) -> Map<u32, Seq<u8>> {
        Map::new(
            |id: u32| self.kitties@.contains_key(id),
            |id: u32| self.kitties@[id]@,
        )
    }

    /// The ownership mapping from token id to owner.
    pub open spec fn owner_map(self) -> Map<u32, u64> {
        self.owners@
    }

    /// The per-owner index as a sequence of (owner, token id) pairs.
    pub open spec fn owner_index(self) -> Seq<(u64, u32)> {
        self.user_kitties@
    }

    /// The per-owner index as a set of (owner, token id) pairs.
    pub open spec fn owner_pairs(self) -> Set<(u64, u32)> {
        self.user_kitties@.to_set()
    }

    /// The parent-of relation as a sequence of (child, parent) pairs.
    pub open spec fn parents_list(self) -> Seq<(u32, u32)> {
        self.parents@
    }

    /// The child-of relation as a sequence of (parent, child) pairs.
    pub open spec fn children_list(self) -> Seq<(u32, u32)> {
        self.children@
    }

    /// The bred-with relation as a sequence of pairs, kept symmetrically.
    pub open spec fn breeded_list(self) -> Seq<(u32, u32)> {
        self.breeded@
    }

    /// The bred-with relation as a set of pairs.
    pub open spec fn breeded_pairs(self) -> Set<(u32, u32)> {
        self.breeded@.to_set()
    }

    /// The notifications recorded so far.
    pub open spec fn event_log(self) -> Seq<Event> {
        self.events@
    }

    /// Density: every id below the counter names an existing token.
    /// Together with well-formedness this says the counter is exactly one
    /// past the greatest existing id, or zero when no token exists.  It
    /// holds of every ledger driven only by the three operations, though
    /// not of one whose counter was overwritten through the raw storage
    /// interface.
    pub open spec fn dense(self) -> bool {
        forall|id: u32| id < self.count ==> #[trigger] self.tokens().contains_key(id)
    }

    /// Well-formedness: the relations are mutually consistent.
    ///
    /// Ownership is defined exactly for the existing tokens; an (owner, id)
    /// pair stands in the per-owner index exactly when the ownership
    /// mapping says so; every id on record is below the counter; the
    /// pair lists are free of duplicates; and the bred-with relation is
    /// symmetric.
    pub open spec fn wf(self) -> bool {
        &&& forall|id: u32|
            self.owners@.contains_key(id) <==> #[trigger] self.kitties@.contains_key(id)
        &&& forall|id: u32| #[trigger] self.kitties@.contains_key(id) ==> id < self.count
        &&& forall|p: (u64, u32)|
            #[trigger] self.user_kitties@.contains(p) <==> (self.owners@.contains_key(p.1)
                && self.owners@[p.1] == p.0)
        &&& no_dup(self.user_kitties@)
        &&& no_dup(self.parents@)
        &&& no_dup(self.children@)
        &&& no_dup(self.breeded@)
        &&& forall|p: (u32, u32)|
            #[trigger] self.parents@.contains(p) ==> p.0 < self.count && p.1 < self.count
        &&& forall|p: (u32, u32)|
            #[trigger] self.children@.contains(p) ==> p.0 < self.count && p.1 < self.count
        &&& forall|p: (u32, u32)|
            #[trigger] self.breeded@.contains(p) ==> p.0 < self.count && p.1 < self.count
        &&& forall|p: (u32, u32)|
            #[trigger] self.breeded@.contains(p) ==> self.breeded@.contains((p.1, p.0))
    }

    /// The empty ledger: no tokens, no relations, no notifications.
    pub fn new() -> (r: Ledger)
        ensures
            r.wf(),
            r.count == 0,
            r.tokens() == Map::<u32, Seq<u8>>::empty(),
            r.owner_map() == Map::<u32, u64>::empty(),
            r.owner_index() == Seq::<(u64, u32)>::empty(),
            r.parents_list() == Seq::<(u32, u32)>::empty(),
            r.children_list() == Seq::<(u32, u32)>::empty(),
            r.breeded_list() == Seq::<(u32, u32)>::empty(),
            r.event_log() == Seq::<Event>::empty(),
    {
        let r = Ledger {
            count: 0,
            kitties: HashMap::new(),
            owners: HashMap::new(),
            user_kitties: Vec::new(),
            parents: Vec::new(),
            children: Vec::new(),
            breeded: Vec::new(),
            events: Vec::new(),
        };
        proof {
            assert(r.tokens() =~= Map::<u32, Seq<u8>>::empty());
        }
        r
    }

    /// Overwrite the token counter, as the host's raw storage interface
    /// can.  The counter never moves below the minted frontier, so all
    /// consistency between the relations is kept.
    pub fn put_kitties_count(&mut self, n: u32)
        requires
            old(self).wf(),
            old(self).count <= n,
        ensures
            final(self).wf(),
            final(self).count == n,
            final(self).tokens() == old(self).tokens(),
            final(self).owner_map() == old(self).owner_map(),
            final(self).owner_index() == old(self).owner_index(),
            final(self).parents_list() == old(self).parents_list(),
            final(self).children_list() == old(self).children_list(),
            final(self).breeded_list() == old(self).breeded_list(),
            final(self).event_log() == old(self).event_log(),
    {
        self.count = n;
    }

    /// The id the next creation will use: the current token count, unless
    /// the id space is exhausted.
    pub fn next_kitty_id(&self) -> (r: Result<u32, Error>)
        ensures
            self.count < u32::MAX ==> r == Ok::<u32, Error>(self.count),
            self.count == u32::MAX ==> r == Err::<u32, Error>(Error::CountOverflow),
    {
        let kitty_id = self.count;
        if kitty_id == u32::MAX {
            return Err(Error::CountOverflow);
        }
        Ok(kitty_id)
    }

    /// Insert a freshly minted token: record it, advance the counter to
    /// `kitty_id + 1`, set its owner and file the pair in the per-owner
    /// index — one atomic unit.
    pub fn insert_kitty(&mut self, owner: u64, kitty_id: u32, kitty: Kitty)
        requires
            old(self).wf(),
            old(self).count <= kitty_id,
            kitty_id < u32::MAX,
        ensures
            final(self).wf(),
            final(self).count == kitty_id + 1,
            final(self).tokens() == old(self).tokens().insert(kitty_id, kitty@),
            final(self).owner_map() == old(self).owner_map().insert(kitty_id, owner),
            final(self).owner_index() == old(self).owner_index().push((owner, kitty_id)),
            final(self).parents_list() == old(self).parents_list(),
            final(self).children_list() == old(self).children_list(),
            final(self).breeded_list() == old(self).breeded_list(),
            final(self).event_log() == old(self).event_log(),
    {
        proof {
            if old(self).user_kitties@.contains((owner, kitty_id)) {
                assert(old(self).owners@.contains_key(kitty_id));
                assert(old(self).kitties@.contains_key(kitty_id));
            }
            lemma_no_dup_push(old(self).user_kitties@, (owner, kitty_id));
            lemma_push_contains(old(self).user_kitties@, (owner, kitty_id));
        }
        self.kitties.insert(kitty_id, kitty);
        self.count = kitty_id + 1;
        self.owners.insert(kitty_id, owner);
        self.user_kitties.push((owner, kitty_id));
        proof {
            assert(self.tokens() =~= old(self).tokens().insert(kitty_id, kitty@));
        }
    }

    /// The current token count.
    pub fn kitties_count(&self) -> (r: u32)
        ensures
            r == self.count,
    {
        self.count
    }

    /// The token record under `kitty_id`, if any.
    pub fn kitties(&self, kitty_id: u32) -> (r: Option<Kitty>)
        ensures
            self.tokens().contains_key(kitty_id) ==> (r matches Some(k) && k@
                == self.tokens()[kitty_id]),
            !self.tokens().contains_key(kitty_id) ==> r is None,
    {
        match self.kitties.get(&kitty_id) {
            Some(k) => Some(*k),
            None => None,
        }
    }

    /// The current owner of `kitty_id`, if the token exists.
    pub fn kitty_owner(&self, kitty_id: u32) -> (r: Option<u64>)
        ensures
            self.owner_map().contains_key(kitty_id) ==> r == Some::<u64>(
                self.owner_map()[kitty_id],
            ),
            !self.owner_map().contains_key(kitty_id) ==> r is None,
    {
        match self.owners.get(&kitty_id) {
            Some(o) => Some(*o),
            None => None,
        }
    }

    /// Point lookup in the per-owner index: the id itself when the pair is
    /// filed, and the empty default otherwise.
    pub fn user_kitties(&self, owner: u64, kitty_id: u32) -> (r: u32)
        ensures
            r == if self.owner_index().contains((owner, kitty_id)) {
                kitty_id
            } else {
                0u32
            },
    {
        if owner_pairs_contains(&self.user_kitties, owner, kitty_id) {
            kitty_id
        } else {
            0
        }
    }

    /// Point lookup in the parent-of relation: the parent itself when
    /// `parent` is recorded for `child`, and the empty default otherwise.
    pub fn parents(&self, child: u32, parent: u32) -> (r: u32)
        ensures
            r == if self.parents_list().contains((child, parent)) {
                parent
            } else {
                0u32
            },
    {
        if rel_contains(&self.parents, child, parent) {
            parent
        } else {
            0
        }
    }

    /// Point lookup in the child-of relation: the child itself when
    /// `child` is recorded for `parent`, and the empty default otherwise.
    pub fn children(&self, parent: u32, child: u32) -> (r: u32)
        ensures
            r == if self.children_list().contains((parent, child)) {
                child
            } else {
                0u32
            },
    {
        if rel_contains(&self.children, parent, child) {
            child
        } else {
            0
        }
    }

    /// Point lookup in the bred-with relation: the mate itself when the two
    /// have been bred together, and the empty default otherwise.
    pub fn breeded(&self, kitty_id: u32, mate: u32) -> (r: u32)
        ensures
            r == if self.breeded_list().contains((kitty_id, mate)) {
                mate
            } else {
                0u32
            },
    {
        if rel_contains(&self.breeded, kitty_id, mate) {
            mate
        } else {
            0
        }
    }

    /// All token ids filed under `owner`, in the order they were filed.
    pub fn user_kitties_of(&self, owner: u64) -> (r: Vec<u32>)
        ensures
            r@ == owner_entries(self.owner_index(), owner),
    {
        owner_values_for(&self.user_kitties, owner)
    }

    /// All parents recorded for `child`, in the order they were recorded.
    pub fn parents_of(&self, child: u32) -> (r: Vec<u32>)
        ensures
            r@ == rel_entries(self.parents_list(), child),
    {
        rel_values_for(&self.parents, child)
    }

    /// All children recorded for `parent`, in the order they were recorded.
    pub fn children_of(&self, parent: u32) -> (r: Vec<u32>)
        ensures
            r@ == rel_entries(self.children_list(), parent),
    {
        rel_values_for(&self.children, parent)
    }

    /// All mates `kitty_id` has ever been bred with, in the order they were
    /// recorded.
    pub fn breeded_of(&self, kitty_id: u32) -> (r: Vec<u32>)
        ensures
            r@ == rel_entries(self.breeded_list(), kitty_id),
    {
        rel_values_for(&self.breeded, kitty_id)
    }

    /// The notifications recorded so far, in order.
    pub fn events(&self) -> (r: &Vec<Event>)
        ensures
            r@ == self.event_log(),
    {
        &self.events
    }

    /// Mint a new token for `sender`, with DNA derived from the current
    /// randomness seed, the sender and the per-call sequence number.
    ///
    /// Succeeds exactly when the id space is not exhausted; the new token's
    /// id is the previous count, and the count advances by one.
    pub fn create(&mut self, sender: u64, seed: &[u8; 32], sequence: u32) -> (r: Result<
        u32,
        Error,
    >)
        requires
            old(self).wf(),
        ensures
            final(self).wf(),
            old(self).count == u32::MAX ==> r == Err::<u32, Error>(Error::CountOverflow)
                && *final(self) == *old(self),
            old(self).count < u32::MAX ==> {
                &&& r == Ok::<u32, Error>(old(self).count)
                &&& created(
                    *old(self),
                    *final(self),
                    sender,
                    old(self).count,
                    blake2_128_of(payload_bytes(seed@, sender, sequence)),
                )
                &&& final(self).count == old(self).count + 1
                &&& final(self).event_log() == old(self).event_log().push(
                    Event::KittyCreated(sender, old(self).count),
                )
            },
    {
        let kitty_id = match self.next_kitty_id() {
            Ok(id) => id,
            Err(e) => {
                return Err(e);
            },
        };
        let dna = random_value(seed, sender, sequence);
        let kitty = Kitty(dna);
        self.insert_kitty(sender, kitty_id, kitty);
        self.events.push(Event::KittyCreated(sender, kitty_id));
        Ok(kitty_id)
    }

    /// Reassign token `kitty_id` to owner `to` on behalf of `sender`.
    ///
    /// Fails exactly when the token does not exist.  The previous owner's
    /// index pair is removed and one pair for `to` is added.  Note that the
    /// caller is not required to be the current owner: the surrounding
    /// dispatch layer authenticates `sender`, but the ledger itself does
    /// not check `sender` against the ownership mapping before
    /// reassigning.
    pub fn transfer(&mut self, sender: u64, to: u64, kitty_id: u32) -> (r: Result<(), Error>)
        requires
            old(self).wf(),
        ensures
            final(self).wf(),
            !old(self).tokens().contains_key(kitty_id) ==> r == Err::<(), Error>(
                Error::InvalidTokenId,
            ) && *final(self) == *old(self),
            old(self).tokens().contains_key(kitty_id) ==> {
                &&& r == Ok::<(), Error>(())
                &&& transferred(*old(self), *final(self), to, kitty_id)
                &&& final(self).event_log() == old(self).event_log().push(
                    Event::Transferred(sender, to, kitty_id),
                )
            },
    {
        let prev = match self.kitty_owner(kitty_id) {
            Some(o) => o,
            None => {
                return Err(Error::InvalidTokenId);
            },
        };
        let ghost mid0 = *self;
        owner_pairs_remove(&mut self.user_kitties, prev, kitty_id);
        proof {
            if self.user_kitties@.contains((to, kitty_id)) {
                assert(mid0.user_kitties@.contains((to, kitty_id)));
                assert(to == prev);
            }
            lemma_push_contains(self.user_kitties@, (to, kitty_id));
            lemma_no_dup_push(self.user_kitties@, (to, kitty_id));
        }
        self.user_kitties.push((to, kitty_id));
        self.owners.insert(kitty_id, to);
        self.events.push(Event::Transferred(sender, to, kitty_id));
        proof {
            assert(self.tokens() =~= old(self).tokens());
            assert forall|p: (u64, u32)| #[trigger]
                self.user_kitties@.contains(p) <==> (self.owners@.contains_key(p.1)
                    && self.owners@[p.1] == p.0) by {
                if p.1 == kitty_id {
                    if self.user_kitties@.contains(p) && p != (to, kitty_id) {
                        assert(old(self).user_kitties@.contains(p));
                        assert(p.0 == prev);
                    }
                }
            }
            assert(self.owner_pairs() =~= old(self).owner_pairs().remove(
                (prev, kitty_id),
            ).insert((to, kitty_id)));
        }
        Ok(())
    }

    /// Breed a child from the two distinct existing parents on behalf of
    /// `sender`.
    ///
    /// Fails with [`Error::InvalidTokenId`] when either parent does not
    /// exist, with [`Error::RequireDifferentParent`] when the two ids are
    /// equal, and with [`Error::CountOverflow`] when the id space is
    /// exhausted; otherwise it mints the child to `sender` with the
    /// crossover of the parents' DNA under the derived selector, and
    /// records the parent-of, child-of and bred-with entries — and nothing
    /// else.
    pub fn do_breed(
        &mut self,
        sender: u64,
        kitty_id_1: u32,
        kitty_id_2: u32,
        seed: &[u8; 32],
        sequence: u32,
    ) -> (r: Result<u32, Error>)
        requires
            old(self).wf(),
        ensures
            final(self).wf(),
            !old(self).tokens().contains_key(kitty_id_1) || !old(self).tokens().contains_key(
                kitty_id_2,
            ) ==> r == Err::<u32, Error>(Error::InvalidTokenId) && *final(self) == *old(self),
            old(self).tokens().contains_key(kitty_id_1) && old(self).tokens().contains_key(
                kitty_id_2,
            ) ==> {
                &&& kitty_id_1 == kitty_id_2 ==> r == Err::<u32, Error>(
                    Error::RequireDifferentParent,
                ) && *final(self) == *old(self)
                &&& kitty_id_1 != kitty_id_2 && old(self).count == u32::MAX ==> r == Err::<
                    u32,
                    Error,
                >(Error::CountOverflow) && *final(self) == *old(self)
                &&& kitty_id_1 != kitty_id_2 && old(self).count < u32::MAX ==> {
                    &&& r == Ok::<u32, Error>(old(self).count)
                    &&& bred(
                        *old(self),
                        *final(self),
                        sender,
                        kitty_id_1,
                        kitty_id_2,
                        blake2_128_of(payload_bytes(seed@, sender, sequence)),
                    )
                    &&& final(self).event_log() == old(self).event_log()
                }
            },
    {
        let kitty1 = match self.kitties(kitty_id_1) {
            Some(k) => k,
            None => {
                return Err(Error::InvalidTokenId);
            },
        };
        let kitty2 = match self.kitties(kitty_id_2) {
            Some(k) => k,
            None => {
                return Err(Error::InvalidTokenId);
            },
        };
        if kitty_id_1 == kitty_id_2 {
            return Err(Error::RequireDifferentParent);
        }
        let kitty_id = match self.next_kitty_id() {
            Ok(id) => id,
            Err(e) => {
                return Err(e);
            },
        };
        let selector = random_value(seed, sender, sequence);
        let new_dna = crossover_dna(&kitty1.0, &kitty2.0, &selector);
        self.insert_kitty(sender, kitty_id, Kitty(new_dna));
        proof {
            assert(!old(self).parents@.contains((kitty_id, kitty_id_1)));
            lemma_push_contains(old(self).parents@, (kitty_id, kitty_id_1));
            assert(!old(self).parents@.push((kitty_id, kitty_id_1)).contains(
                (kitty_id, kitty_id_2),
            ));
        }
        rel_insert(&mut self.parents, kitty_id, kitty_id_1);
        rel_insert(&mut self.parents, kitty_id, kitty_id_2);
        proof {
            assert(!old(self).children@.contains((kitty_id_1, kitty_id)));
            lemma_push_contains(old(self).children@, (kitty_id_1, kitty_id));
            assert(!old(self).children@.push((kitty_id_1, kitty_id)).contains(
                (kitty_id_2, kitty_id),
            ));
        }
        rel_insert(&mut self.children, kitty_id_1, kitty_id);
        rel_insert(&mut self.children, kitty_id_2, kitty_id);
        proof {
            if old(self).breeded@.contains((kitty_id_1, kitty_id_2)) {
                assert(old(self).breeded@.contains((kitty_id_2, kitty_id_1)));
            } else {
                if old(self).breeded@.contains((kitty_id_2, kitty_id_1)) {
                    assert(old(self).breeded@.contains((kitty_id_1, kitty_id_2)));
                }
                lemma_push_contains(old(self).breeded@, (kitty_id_1, kitty_id_2));
            }
        }
        rel_insert(&mut self.breeded, kitty_id_1, kitty_id_2);
        rel_insert(&mut self.breeded, kitty_id_2, kitty_id_1);
        proof {
            let post = *self;
            let pre = *old(self);
            assert forall|p: (u32, u32)| #[trigger]
                post.parents@.contains(p) implies p.0 < post.count && p.1 < post.count by {
                lemma_push_contains(pre.parents@, (kitty_id, kitty_id_1));
                lemma_push_contains(pre.parents@.push((kitty_id, kitty_id_1)), (kitty_id, kitty_id_2));
            }
            assert forall|p: (u32, u32)| #[trigger]
                post.children@.contains(p) implies p.0 < post.count && p.1 < post.count by {
                lemma_push_contains(pre.children@, (kitty_id_1, kitty_id));
                lemma_push_contains(pre.children@.push((kitty_id_1, kitty_id)), (kitty_id_2, kitty_id));
            }
            assert forall|p: (u32, u32)| #[trigger]
                post.breeded@.contains(p) implies p.0 < post.count && p.1 < post.count
                && post.breeded@.contains((p.1, p.0)) by {
                if !pre.breeded@.contains((kitty_id_1, kitty_id_2)) {
                    lemma_push_contains(pre.breeded@, (kitty_id_1, kitty_id_2));
                    lemma_push_contains(
                        pre.breeded@.push((kitty_id_1, kitty_id_2)),
                        (kitty_id_2, kitty_id_1),
                    );
                }
            }
        }
        Ok(kitty_id)
    }

    /// Breed a child from the two distinct existing parents on behalf of
    /// `sender`, and record the creation notification.
    pub fn breed(
        &mut self,
        sender: u64,
        kitty_id_1: u32,
        kitty_id_2: u32,
        seed: &[u8; 32],
        sequence: u32,
    ) -> (r: Result<u32, Error>)
        requires
            old(self).wf(),
        ensures
            final(self).wf(),
            !old(self).tokens().contains_key(kitty_id_1) || !old(self).tokens().contains_key(
                kitty_id_2,
            ) ==> r == Err::<u32, Error>(Error::InvalidTokenId) && *final(self) == *old(self),
            old(self).tokens().contains_key(kitty_id_1) && old(self).tokens().contains_key(
                kitty_id_2,
            ) ==> {
                &&& kitty_id_1 == kitty_id_2 ==> r == Err::<u32, Error>(
                    Error::RequireDifferentParent,
                ) && *final(self) == *old(self)
                &&& kitty_id_1 != kitty_id_2 && old(self).count == u32::MAX ==> r == Err::<
                    u32,
                    Error,
                >(Error::CountOverflow) && *final(self) == *old(self)
                &&& kitty_id_1 != kitty_id_2 && old(self).count < u32::MAX ==> {
                    &&& r == Ok::<u32, Error>(old(self).count)
                    &&& bred(
                        *old(self),
                        *final(self),
                        sender,
                        kitty_id_1,
                        kitty_id_2,
                        blake2_128_of(payload_bytes(seed@, sender, sequence)),
                    )
                    &&& final(self).event_log() == old(self).event_log().push(
                        Event::KittyCreated(sender, old(self).count),
                    )
                }
            },
    {
        let new_kitty_id = match self.do_breed(sender, kitty_id_1, kitty_id_2, seed, sequence) {
            Ok(id) => id,
            Err(e) => {
                return Err(e);
            },
        };
        self.events.push(Event::KittyCreated(sender, new_kitty_id));
        Ok(new_kitty_id)
    }
}

} // verus!
