use vstd::prelude::*;
use vstd::hash_map::StringHashMap;

verus! {

/// An opaque token standing for one engine-owned promise resolver. The host
/// never looks inside a resolver; it only stores and hands back the token.
pub type ResolverHandle = u64;

/// The error raised when an insert would collide with an identifier that is
/// already tracked. Overwriting silently would leak the resolver already
/// stored under that identifier, so the registry fails loudly instead.
#[derive(Clone, Copy, PartialEq, Eq, Structural, Debug)]
pub struct RegistryViolation {}

/// Host-owned map from minted identifiers to outstanding promise resolvers.
///
/// Each identifier maps to exactly one resolver; resolvers are inserted
/// exactly once and never removed or settled by this layer. Insertion order
/// is kept so that the polling loop can traverse every tracked entry.
pub struct ResolverRegistry {
    ids: Vec<String>,
    resolvers: StringHashMap<ResolverHandle>,
}

impl View for ResolverRegistry {
    type V = Map<Seq<char>, ResolverHandle>;

    closed spec fn view(&self) -> Map<Seq<char>, ResolverHandle> {
        self.resolvers@
    }
}

impl ResolverRegistry {
    /// The tracked identifiers in insertion order.
    pub closed spec fn order(self) -> Seq<Seq<char>> {
        self.ids@.map_values(|s: String| s@)
    }

    /// Well-formedness: the recorded order lists every tracked identifier
    /// exactly once, so the registry is in bijection with its traversal.
    pub open spec fn wf(self) -> bool {
        &&& self@.dom().finite()
        &&& forall|i: int, j: int|
            0 <= i < j < self.order().len() ==> self.order()[i] != self.order()[j]
        &&& forall|i: int|
            0 <= i < self.order().len() ==> self@.contains_key(#[trigger] self.order()[i])
        &&& forall|k: Seq<char>|
            self@.contains_key(k) ==> exists|i: int|
                0 <= i < self.order().len() && #[trigger] self.order()[i] == k
        &&& self@.len() == self.order().len()
    }

    /// A fresh registry tracking nothing.
    pub fn new() -> (r: ResolverRegistry)
        ensures
            r.wf(),
            r@ == Map::<Seq<char>, ResolverHandle>::empty(),
            r.order() == Seq::<Seq<char>>::empty(),
    {
        let r = ResolverRegistry { ids: Vec::new(), resolvers: StringHashMap::new() };
        proof {
            assert(r.order() =~= Seq::<Seq<char>>::empty());
            assert(r@.dom() =~= Set::<Seq<char>>::empty());
        }
        r
    }

    /// How many operations are tracked.
    pub fn len(&self) -> (n: usize)
        ensures
            n == self@.len(),
    {
        self.resolvers.len()
    }

    /// The resolver stored under `id`, if `id` is tracked.
    pub fn get_handle(&self, id: &str) -> (r: Option<ResolverHandle>)
        ensures
            match r {
                Some(h) => self@.contains_key(id@) && h == self@[id@],
                None => !self@.contains_key(id@),
            },
    {
        match self.resolvers.get(id) {
            Some(h) => Some(*h),
            None => None,
        }
    }

    /// The identifier that was inserted `i`-th, for traversal by the
    /// polling loop.
    pub fn id_at(&self, i: usize) -> (id: &String)
        requires
            i < self.order().len(),
        ensures
            id@ == self.order()[i as int],
    {
        &self.ids[i]
    }

    /// The tracked resolvers in insertion order, one per identifier: the
    /// traversal a polling round classifies, handed out as plain tokens.
    pub fn handles_in_order(&self) -> (r: Vec<ResolverHandle>)
        requires
            self.wf(),
        ensures
            r@.len() == self.order().len(),
            forall|i: int| 0 <= i < r@.len() ==> r@[i] == self@[self.order()[i]],
    {
        let mut r: Vec<ResolverHandle> = Vec::new();
        let mut i: usize = 0;
        while i < self.ids.len()
            invariant
                self.wf(),
                i <= self.ids@.len(),
                self.order().len() == self.ids@.len(),
                r@.len() == i,
                forall|j: int| 0 <= j < i ==> r@[j] == self@[self.order()[j]],
            decreases self.ids@.len() - i,
        {
            match self.resolvers.get(self.ids[i].as_str()) {
                Some(h) => r.push(*h),
                // Unreachable: well-formedness places every ordered
                // identifier in the map, which the assert below recalls.
                None => {
                    proof {
                        assert(self@.contains_key(self.order()[i as int]));
                    }
                    return r;
                },
            }
            i = i + 1;
        }
        r
    }

    /// Track `resolver` under `id`. An identifier collision is refused
    /// loudly and leaves the registry unchanged; otherwise the registry
    /// grows by exactly the one new entry, appended to the order.
    pub fn insert(&mut self, id: String, resolver: ResolverHandle) -> (r: Result<
        (),
        RegistryViolation,
    >)
        requires
            old(self).wf(),
        ensures
            final(self).wf(),
            r is Ok <==> !old(self)@.contains_key(id@),
            r is Ok ==> {
                &&& final(self)@ == old(self)@.insert(id@, resolver)
                &&& final(self).order() == old(self).order().push(id@)
                &&& final(self)@.len() == old(self)@.len() + 1
            },
            r is Err ==> final(self)@ == old(self)@ && final(self).order() == old(self).order(),
    {
        if self.resolvers.contains_key(id.as_str()) {
            Err(RegistryViolation {})
        } else {
            let ghost old_order = self.order();
            let ghost old_map = self.resolvers@;
            self.ids.push(id.clone());
            self.resolvers.insert(id, resolver);
            proof {
                assert(self.order() =~= old_order.push(self.ids@.last()@));
                vstd::set::axiom_set_insert_len(old_map.dom(), self.ids@.last()@);
                assert(self.resolvers@.dom() =~= old_map.dom().insert(self.ids@.last()@));
                assert forall|i: int, j: int|
                    0 <= i < j < self.order().len() implies self.order()[i]
                    != self.order()[j] by {
                    if j + 1 == self.order().len() {
                        assert(old_map.contains_key(old_order[i]));
                    }
                }
                assert forall|k: Seq<char>| self.resolvers@.contains_key(k) implies exists|i: int|
                    0 <= i < self.order().len() && #[trigger] self.order()[i] == k by {
                    if old_map.contains_key(k) {
                        let i = choose|i: int|
                            0 <= i < old_order.len() && #[trigger] old_order[i] == k;
                        assert(self.order()[i] == k);
                    } else {
                        assert(self.order()[self.order().len() - 1] == k);
                    }
                }
            }
            Ok(())
        }
    }
}

/// Law (identifier uniqueness): in a well-formed registry the tracked
/// identifiers are pairwise distinct, and the registry's size equals the
/// number of recorded insertions — one entry per successful bridge call,
/// no entry lost and none overwritten.
pub proof fn lemma_identifier_uniqueness(reg: ResolverRegistry)
    requires
        reg.wf(),
    ensures
        forall|i: int, j: int|
            0 <= i < j < reg.order().len() ==> reg.order()[i] != reg.order()[j],
        reg@.len() == reg.order().len(),
{
}

} // verus!
