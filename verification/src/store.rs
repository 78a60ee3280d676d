//! An in-memory model of the vector store boundary: named collections with a
//! fixed schema, points keyed by unique identifiers, and the three operations
//! the memory writer relies on (list, create, upsert) plus read-back by id.
//!
//! Every operation is specified against a mathematical store model
//! ([`StoreView`]), so the laws of the store (idempotent collection creation,
//! write/read round-trips, uniqueness of identifiers) are stated and proved
//! over that model.

use vstd::prelude::*;

verus! {

/// Distance metric of a collection's schema. Fixed at creation time.
#[derive(Clone, Copy, PartialEq, Eq, Structural, Debug)]
pub enum DistanceMetric {
    Cosine,
    Euclid,
    Dot,
}

/// Stand-in for one embedding vector. The store's rules read only the
/// dimensionality of a vector; its numeric components never influence a
/// decision and stay with the caller that obtained them.
#[derive(Clone, Copy, PartialEq, Eq, Structural, Debug)]
pub struct Embedding {
    pub dim: usize,
}

/// One stored point: identifier, vector, and the text payload it was made
/// from. Immutable once written.
#[derive(Debug)]
pub struct MemoryPoint {
    pub id: u64,
    pub embedding: Embedding,
    pub payload_text: String,
}

impl Clone for MemoryPoint {
    fn clone(&self) -> (r: Self)
        ensures
            r == *self,
    {
        MemoryPoint {
            id: self.id,
            embedding: self.embedding,
            payload_text: self.payload_text.clone(),
        }
    }
}

/// The mathematical value of a [`MemoryPoint`].
#[verifier::ext_equal]
pub struct PointView {
    pub id: u64,
    pub embedding: Embedding,
    pub payload_text: Seq<char>,
}

impl View for MemoryPoint {
    type V = PointView;

    open spec fn view(&self) -> PointView {
        PointView { id: self.id, embedding: self.embedding, payload_text: self.payload_text@ }
    }
}

/// One named collection: its fixed schema and its points in insertion order.
#[derive(Debug)]
pub struct Collection {
    pub name: String,
    pub dim: usize,
    pub metric: DistanceMetric,
    pub points: Vec<MemoryPoint>,
}

/// The mathematical value of a [`Collection`].
#[verifier::ext_equal]
pub struct CollectionView {
    pub name: Seq<char>,
    pub dim: usize,
    pub metric: DistanceMetric,
    pub points: Seq<PointView>,
}

impl View for Collection {
    type V = CollectionView;

    open spec fn view(&self) -> CollectionView {
        CollectionView {
            name: self.name@,
            dim: self.dim,
            metric: self.metric,
            points: self.points@.map_values(|p: MemoryPoint| p@),
        }
    }
}

/// In-memory model of the vector store: the collections it holds, in creation
/// order.
#[derive(Debug)]
pub struct MemoryStore {
    pub collections: Vec<Collection>,
}

/// The mathematical value of a [`MemoryStore`].
#[verifier::ext_equal]
pub struct StoreView {
    pub collections: Seq<CollectionView>,
}

impl View for MemoryStore {
    type V = StoreView;

    open spec fn view(&self) -> StoreView {
        StoreView { collections: self.collections@.map_values(|c: Collection| c@) }
    }
}

/// Rejections the store can answer with.
#[derive(Clone, Copy, PartialEq, Eq, Structural, Debug)]
pub enum StoreError {
    /// `create_collection` was asked for a name that is already taken.
    CollectionExists,
    /// A write named a collection the store does not hold.
    CollectionMissing,
}

/// No two points of one collection share an identifier.
pub open spec fn distinct_ids(ps: Seq<PointView>) -> bool {
    forall|i: int, j: int| 0 <= i < j < ps.len() ==> ps[i].id != ps[j].id
}

/// No two collections share a name.
pub open spec fn distinct_names(cs: Seq<CollectionView>) -> bool {
    forall|i: int, j: int| 0 <= i < j < cs.len() ==> cs[i].name != cs[j].name
}

impl StoreView {
    /// Well-formedness of the store model: collection names are unique, and
    /// within each collection point identifiers are unique.
    pub open spec fn wf(self) -> bool {
        &&& distinct_names(self.collections)
        &&& forall|i: int|
            0 <= i < self.collections.len() ==> distinct_ids(#[trigger] self.collections[i].points)
    }

    /// The names of the collections, in creation order.
    pub open spec fn collection_names(self) -> Seq<Seq<char>> {
        self.collections.map_values(|c: CollectionView| c.name)
    }

    /// Whether a collection with this name exists.
    pub open spec fn has_collection(self, name: Seq<char>) -> bool {
        exists|i: int| 0 <= i < self.collections.len() && self.collections[i].name == name
    }

    /// The points of the collection with this name (the store is only asked
    /// under `wf`, where at most one collection matches).
    pub open spec fn points_of(self, name: Seq<char>) -> Seq<PointView> {
        if self.has_collection(name) {
            let i = choose|i: int| 0 <= i < self.collections.len() && self.collections[i].name == name;
            self.collections[i].points
        } else {
            Seq::empty()
        }
    }

    /// Read-back by identifier: the first point with this id in the named
    /// collection, if the collection and the point exist.
    pub open spec fn get(self, name: Seq<char>, id: u64) -> Option<PointView> {
        get_point_spec(self.points_of(name), id)
    }
}

/// The first point of `ps` carrying `id`, if any.
pub open spec fn get_point_spec(ps: Seq<PointView>, id: u64) -> Option<PointView>
    decreases ps.len(),
{
    if ps.len() == 0 {
        None
    } else if ps[0].id == id {
        Some(ps[0])
    } else {
        get_point_spec(ps.drop_first(), id)
    }
}

/// What writing one point does to a collection's points: the point replaces
/// the one that already carries its identifier, or is appended when the
/// identifier is fresh.
pub open spec fn upsert_one(ps: Seq<PointView>, p: PointView) -> Seq<PointView> {
    if exists|i: int| 0 <= i < ps.len() && ps[i].id == p.id {
        ps.update(choose|i: int| 0 <= i < ps.len() && ps[i].id == p.id, p)
    } else {
        ps.push(p)
    }
}

/// What one batched write does to a collection's points: the incoming points
/// are applied in order, each as in [`upsert_one`].
pub open spec fn upsert_seq(ps: Seq<PointView>, incoming: Seq<PointView>) -> Seq<PointView>
    decreases incoming.len(),
{
    if incoming.len() == 0 {
        ps
    } else {
        upsert_seq(upsert_one(ps, incoming[0]), incoming.drop_first())
    }
}

/// What one batched write does to the store model: the points of every
/// collection carrying `name` (under `wf`: the one collection) absorb the
/// incoming points; every other collection is untouched.
pub open spec fn upsert_store_spec(s: StoreView, name: Seq<char>, incoming: Seq<PointView>) -> StoreView {
    StoreView {
        collections: s.collections.map_values(
            |c: CollectionView|
                if c.name == name {
                    CollectionView { points: upsert_seq(c.points, incoming), ..c }
                } else {
                    c
                },
        ),
    }
}

/// Writing one point cannot make two points share an identifier.
pub proof fn lemma_upsert_one_distinct(ps: Seq<PointView>, p: PointView)
    requires
        distinct_ids(ps),
    ensures
        distinct_ids(upsert_one(ps, p)),
{
    let r = upsert_one(ps, p);
    if exists|i: int| 0 <= i < ps.len() && ps[i].id == p.id {
        let w = choose|i: int| 0 <= i < ps.len() && ps[i].id == p.id;
        assert forall|i: int, j: int| 0 <= i < j < r.len() implies r[i].id != r[j].id by {
            assert(r[i].id == ps[i].id);
            assert(r[j].id == ps[j].id);
        }
    } else {
        assert forall|i: int, j: int| 0 <= i < j < r.len() implies r[i].id != r[j].id by {
            if j == ps.len() {
                assert(ps[i].id != p.id);
            }
        }
    }
}

/// Read-back finds the first match: when nothing before position `j`
/// carries `id` and position `j` does, the lookup returns that point.
pub proof fn lemma_get_first_match(ps: Seq<PointView>, id: u64, j: int)
    requires
        0 <= j < ps.len(),
        ps[j].id == id,
        forall|k: int| 0 <= k < j ==> ps[k].id != id,
    ensures
        get_point_spec(ps, id) == Some(ps[j]),
    decreases ps.len(),
{
    if j > 0 {
        lemma_get_first_match(ps.drop_first(), id, j - 1);
        assert(ps.drop_first()[j - 1] == ps[j]);
        assert forall|k: int| 0 <= k < j - 1 implies ps.drop_first()[k].id != id by {
            assert(ps.drop_first()[k] == ps[k + 1]);
        }
    }
}

/// Read-back misses: when no point carries `id`, the lookup returns nothing.
pub proof fn lemma_get_none(ps: Seq<PointView>, id: u64)
    requires
        forall|k: int| 0 <= k < ps.len() ==> ps[k].id != id,
    ensures
        get_point_spec(ps, id) == None::<PointView>,
    decreases ps.len(),
{
    if ps.len() > 0 {
        assert forall|k: int| 0 <= k < ps.len() - 1 implies ps.drop_first()[k].id != id by {
            assert(ps.drop_first()[k] == ps[k + 1]);
        }
        lemma_get_none(ps.drop_first(), id);
    }
}

/// After writing `p`, reading `p.id` back yields exactly `p`.
pub proof fn lemma_get_after_upsert_same(ps: Seq<PointView>, p: PointView)
    requires
        distinct_ids(ps),
    ensures
        get_point_spec(upsert_one(ps, p), p.id) == Some(p),
{
    let r = upsert_one(ps, p);
    if exists|i: int| 0 <= i < ps.len() && ps[i].id == p.id {
        let w = choose|i: int| 0 <= i < ps.len() && ps[i].id == p.id;
        assert(r[w] == p);
        assert forall|k: int| 0 <= k < w implies r[k].id != p.id by {
            assert(r[k] == ps[k]);
            assert(ps[k].id != ps[w].id);
        }
        lemma_get_first_match(r, p.id, w);
    } else {
        assert(r[ps.len() as int] == p);
        assert forall|k: int| 0 <= k < ps.len() implies r[k].id != p.id by {
            assert(r[k] == ps[k]);
        }
        lemma_get_first_match(r, p.id, ps.len() as int);
    }
}

/// Writing a point with another identifier leaves a lookup unchanged.
pub proof fn lemma_get_after_upsert_other(ps: Seq<PointView>, q: PointView, id: u64)
    requires
        distinct_ids(ps),
        q.id != id,
    ensures
        get_point_spec(upsert_one(ps, q), id) == get_point_spec(ps, id),
{
    let r = upsert_one(ps, q);
    if exists|k: int| 0 <= k < ps.len() && ps[k].id == id {
        let k = choose|k: int| 0 <= k < ps.len() && ps[k].id == id;
        assert forall|l: int| 0 <= l < k implies ps[l].id != id by {
            assert(ps[l].id != ps[k].id);
        }
        lemma_get_first_match(ps, id, k);
        assert(r[k] == ps[k]);
        assert forall|l: int| 0 <= l < k implies r[l].id != id by {
            if exists|i: int| 0 <= i < ps.len() && ps[i].id == q.id {
                assert(r[l] == ps[l] || r[l] == q);
            } else {
                assert(r[l] == ps[l]);
            }
            assert(ps[l].id != ps[k].id);
        }
        lemma_get_first_match(r, id, k);
    } else {
        lemma_get_none(ps, id);
        assert forall|l: int| 0 <= l < r.len() implies r[l].id != id by {
            if l < ps.len() {
                assert(r[l] == ps[l] || r[l] == q);
            } else {
                assert(r[l] == q);
            }
        }
        lemma_get_none(r, id);
    }
}

/// A collection as `create_collection` makes it: the requested schema and no
/// points.
pub open spec fn empty_collection(name: Seq<char>, dim: usize, metric: DistanceMetric) -> CollectionView {
    CollectionView { name, dim, metric, points: Seq::empty() }
}

/// What `ensure_collection` does to the store model: nothing when the name is
/// taken, otherwise the creation of an empty collection with the requested
/// schema.
pub open spec fn ensure_spec(s: StoreView, name: Seq<char>, dim: usize, metric: DistanceMetric) -> StoreView {
    if s.has_collection(name) {
        s
    } else {
        StoreView { collections: s.collections.push(empty_collection(name, dim, metric)) }
    }
}

/// The creation decision of the collection manager, for any store that
/// reports the collections it holds by name: create exactly when `name` is
/// absent from the listing. Deciding from a fresh listing on every session
/// start is what makes `ensure_collection` safe to repeat.
pub fn needs_creation(names: &Vec<String>, name: &String) -> (r: bool)
    ensures
        r == !names@.map_values(|s: String| s@).contains(name@),
{
    let n = names.len();
    for i in 0..n
        invariant
            n == names.len(),
            forall|j: int| 0 <= j < i ==> names@[j]@ != name@,
    {
        if names[i] == *name {
            proof {
                assert(names@.map_values(|s: String| s@)[i as int] == names@[i as int]@);
            }
            return false;
        }
    }
    proof {
        let mapped = names@.map_values(|s: String| s@);
        if mapped.contains(name@) {
            let w = choose|w: int| 0 <= w < mapped.len() && mapped[w] == name@;
            assert(names@[w]@ == name@);
        }
    }
    true
}

/// Law: a stored point is reported exactly as written by any later read,
/// however many writes with other identifiers come between — the payload is
/// neither transformed nor truncated.
pub proof fn lemma_get_preserved_by_other_writes(
    ps: Seq<PointView>,
    incoming: Seq<PointView>,
    id: u64,
)
    requires
        distinct_ids(ps),
        forall|k: int| 0 <= k < incoming.len() ==> incoming[k].id != id,
    ensures
        get_point_spec(upsert_seq(ps, incoming), id) == get_point_spec(ps, id),
    decreases incoming.len(),
{
    if incoming.len() > 0 {
        lemma_get_after_upsert_other(ps, incoming[0], id);
        lemma_upsert_one_distinct(ps, incoming[0]);
        assert forall|k: int|
            0 <= k < incoming.drop_first().len() implies incoming.drop_first()[k].id != id by {
            assert(incoming.drop_first()[k] == incoming[k + 1]);
        }
        lemma_get_preserved_by_other_writes(upsert_one(ps, incoming[0]), incoming.drop_first(), id);
    }
}

/// Under `wf`, a batched write changes exactly the named collection's points.
pub proof fn lemma_upsert_store_points_of(s: StoreView, name: Seq<char>, incoming: Seq<PointView>)
    requires
        s.wf(),
        s.has_collection(name),
    ensures
        upsert_store_spec(s, name, incoming).has_collection(name),
        upsert_store_spec(s, name, incoming).points_of(name) == upsert_seq(
            s.points_of(name),
            incoming,
        ),
{
    let r = upsert_store_spec(s, name, incoming);
    let i = choose|i: int| 0 <= i < s.collections.len() && s.collections[i].name == name;
    assert(r.collections[i].name == name);
    assert(r.has_collection(name));
    let j = choose|j: int| 0 <= j < r.collections.len() && r.collections[j].name == name;
    if i != j {
        assert(s.collections[j].name == name);
        assert(false);
    }
    assert(r.points_of(name) == r.collections[i].points);
}

impl Collection {
    /// Writes one point into this collection: it replaces the point already
    /// carrying its identifier, or is appended when the identifier is fresh.
    fn upsert_point(&mut self, p: MemoryPoint)
        requires
            distinct_ids(old(self)@.points),
        ensures
            final(self)@.points == upsert_one(old(self)@.points, p@),
            final(self)@.name == old(self)@.name,
            final(self)@.dim == old(self)@.dim,
            final(self)@.metric == old(self)@.metric,
    {
        let ghost pv = p@;
        let ghost ps = self@.points;
        let n = self.points.len();
        for j in 0..n
            invariant
                n == self.points.len(),
                *self == *old(self),
                ps == self@.points,
                distinct_ids(ps),
                pv == p@,
                forall|k: int| 0 <= k < j ==> self@.points[k].id != pv.id,
        {
            proof {
                assert(self@.points[j as int] == self.points@[j as int]@);
            }
            if self.points[j].id == p.id {
                self.points[j] = p;
                proof {
                    assert(ps[j as int].id == pv.id);
                    assert(exists|i: int| 0 <= i < ps.len() && ps[i].id == pv.id);
                    let i = choose|i: int| 0 <= i < ps.len() && ps[i].id == pv.id;
                    assert(0 <= i < ps.len() && ps[i].id == pv.id);
                    if i < j {
                        assert(ps[i].id != ps[j as int].id);
                    } else if j < i {
                        assert(ps[j as int].id != ps[i].id);
                    }
                    assert(i == j);
                    assert(self@.points =~= upsert_one(ps, pv));
                }
                return;
            }
        }
        self.points.push(p);
        proof {
            assert(!(exists|i: int| 0 <= i < ps.len() && ps[i].id == pv.id));
            assert(self@.points =~= upsert_one(ps, pv));
        }
    }
}

impl MemoryStore {
    /// A fresh store holding no collections.
    pub fn new() -> (s: MemoryStore)
        ensures
            s@.collections == Seq::<CollectionView>::empty(),
            s@.wf(),
    {
        let s = MemoryStore { collections: Vec::new() };
        proof {
            assert(s@.collections =~= Seq::<CollectionView>::empty());
        }
        s
    }

    /// The index of the collection named `name`, if one exists.
    fn find_collection(&self, name: &String) -> (r: Option<usize>)
        ensures
            match r {
                Some(i) => i < self@.collections.len() && self@.collections[i as int].name
                    == name@,
                None => !self@.has_collection(name@),
            },
    {
        let n = self.collections.len();
        for i in 0..n
            invariant
                n == self.collections.len(),
                forall|j: int| 0 <= j < i ==> self@.collections[j].name != name@,
        {
            proof {
                assert(self@.collections[i as int] == self.collections@[i as int]@);
            }
            if self.collections[i].name == *name {
                return Some(i);
            }
        }
        None
    }

    /// Whether the store holds a collection named `name`.
    pub fn has_collection(&self, name: &String) -> (r: bool)
        ensures
            r == self@.has_collection(name@),
    {
        self.find_collection(name).is_some()
    }

    /// The names of the collections the store holds, in creation order.
    pub fn list_collections(&self) -> (names: Vec<String>)
        ensures
            names@.map_values(|s: String| s@) == self@.collection_names(),
    {
        let mut names: Vec<String> = Vec::new();
        let n = self.collections.len();
        for i in 0..n
            invariant
                n == self.collections.len(),
                names@.len() == i,
                forall|j: int| 0 <= j < i ==> names@[j]@ == self@.collections[j].name,
        {
            names.push(self.collections[i].name.clone());
            proof {
                assert(names@[i as int]@ == self.collections@[i as int]@.name);
                assert(self@.collections[i as int] == self.collections@[i as int]@);
            }
        }
        proof {
            let lhs = names@.map_values(|s: String| s@);
            let rhs = self@.collection_names();
            assert forall|j: int| 0 <= j < n implies lhs[j] == rhs[j] by {
                assert(lhs[j] == names@[j]@);
                assert(rhs[j] == self@.collections[j].name);
            }
            assert(lhs =~= rhs);
        }
        names
    }

    /// Creates a collection with the requested schema and no points. Rejected
    /// if the name is already taken; the store is then unchanged.
    pub fn create_collection(&mut self, name: String, dim: usize, metric: DistanceMetric) -> (r: Result<
        (),
        StoreError,
    >)
        ensures
            old(self)@.has_collection(name@) ==> r == Err::<(), StoreError>(
                StoreError::CollectionExists,
            ) && final(self)@ == old(self)@,
            !old(self)@.has_collection(name@) ==> r == Ok::<(), StoreError>(()) && final(self)@
                == (StoreView {
                collections: old(self)@.collections.push(empty_collection(name@, dim, metric)),
            }),
            old(self)@.wf() ==> final(self)@.wf(),
    {
        if self.has_collection(&name) {
            return Err(StoreError::CollectionExists);
        }
        let ghost prev = self@;
        let ghost nm = name@;
        self.collections.push(Collection { name, dim, metric, points: Vec::new() });
        proof {
            let c = self.collections@.last()@;
            assert(c =~= empty_collection(nm, dim, metric));
            assert(self@.collections =~= prev.collections.push(empty_collection(nm, dim, metric)));
            if prev.wf() {
                assert forall|i: int, j: int|
                    0 <= i < j < self@.collections.len() implies self@.collections[i].name
                    != self@.collections[j].name by {
                    if j < prev.collections.len() {
                    } else {
                        assert(self@.collections[j].name == nm);
                        assert(!prev.has_collection(nm));
                    }
                }
                assert forall|i: int|
                    0 <= i < self@.collections.len() implies distinct_ids(
                    #[trigger] self@.collections[i].points,
                ) by {
                    if i < prev.collections.len() {
                        assert(distinct_ids(prev.collections[i].points));
                    }
                }
            }
        }
        Ok(())
    }

    /// Writes a batch of points into the collection named `name`, each point
    /// replacing the point that already carries its identifier or being
    /// appended when the identifier is fresh. All-or-nothing: when the
    /// collection is missing, the write is rejected and the store is
    /// untouched.
    pub fn upsert(&mut self, name: &String, points: Vec<MemoryPoint>) -> (r: Result<
        (),
        StoreError,
    >)
        requires
            old(self)@.wf(),
        ensures
            final(self)@.wf(),
            !old(self)@.has_collection(name@) ==> r == Err::<(), StoreError>(
                StoreError::CollectionMissing,
            ) && final(self)@ == old(self)@,
            old(self)@.has_collection(name@) ==> r == Ok::<(), StoreError>(()) && final(self)@
                == upsert_store_spec(
                old(self)@,
                name@,
                points@.map_values(|p: MemoryPoint| p@),
            ),
    {
        let idx = match self.find_collection(name) {
            None => {
                return Err(StoreError::CollectionMissing);
            },
            Some(i) => i,
        };
        let ghost orig = self@;
        let ghost all = points@.map_values(|p: MemoryPoint| p@);
        let ghost origpts = orig.collections[idx as int].points;
        let mut incoming = points;
        while incoming.len() > 0
            invariant
                idx < self.collections.len(),
                self.collections@.len() == orig.collections.len(),
                forall|i: int|
                    0 <= i < orig.collections.len() && i != idx ==> #[trigger] self@.collections[i]
                        == orig.collections[i],
                self@.collections[idx as int].name == orig.collections[idx as int].name,
                self@.collections[idx as int].dim == orig.collections[idx as int].dim,
                self@.collections[idx as int].metric == orig.collections[idx as int].metric,
                distinct_ids(self@.collections[idx as int].points),
                upsert_seq(
                    self@.collections[idx as int].points,
                    incoming@.map_values(|p: MemoryPoint| p@),
                ) == upsert_seq(origpts, all),
            decreases incoming.len(),
        {
            let ghost prev = self@;
            let ghost prev_vec = self.collections@;
            let ghost before = self@.collections[idx as int].points;
            let ghost inc_before = incoming@.map_values(|q: MemoryPoint| q@);
            let p = incoming.remove(0);
            let col = vstd::std_specs::vec::vec_index_mut(&mut self.collections, idx);
            col.upsert_point(p);
            proof {
                assert(self.collections@ == prev_vec.update(
                    idx as int,
                    self.collections@[idx as int],
                ));
                assert forall|i: int|
                    0 <= i < prev_vec.len() && i != idx implies #[trigger] self@.collections[i]
                    == prev.collections[i] by {
                    assert(self.collections@[i] == prev_vec[i]);
                    assert(self@.collections[i] == self.collections@[i]@);
                    assert(prev.collections[i] == prev_vec[i]@);
                }
                assert(self@.collections[idx as int] == self.collections@[idx as int]@);
                assert(self@.collections[idx as int].points == upsert_one(before, p@));
                assert(incoming@.map_values(|q: MemoryPoint| q@) =~= inc_before.drop_first());
                assert(inc_before[0] == p@);
                lemma_upsert_one_distinct(before, p@);
                assert(upsert_seq(before, inc_before) == upsert_seq(
                    upsert_one(before, inc_before[0]),
                    inc_before.drop_first(),
                ));
            }
        }
        proof {
            assert(incoming@.map_values(|p: MemoryPoint| p@) =~= Seq::<PointView>::empty());
            assert(self@.collections[idx as int].points == upsert_seq(origpts, all));
            let mapped = upsert_store_spec(orig, name@, all);
            assert forall|i: int| 0 <= i < orig.collections.len() implies self@.collections[i]
                =~= mapped.collections[i] by {
                if i != idx {
                    assert(orig.collections[i].name != name@);
                } else {
                    assert(orig.collections[idx as int].name == name@);
                }
            }
            assert(self@ =~= mapped);
            assert forall|i: int|
                0 <= i < self@.collections.len() implies distinct_ids(
                #[trigger] self@.collections[i].points,
            ) by {
                if i != idx {
                    assert(self@.collections[i] == orig.collections[i]);
                    assert(distinct_ids(orig.collections[i].points));
                }
            }
        }
        Ok(())
    }

    /// Reads the point carrying `id` back from the collection named `name`,
    /// if the collection and the point exist.
    pub fn get_point(&self, name: &String, id: u64) -> (r: Option<MemoryPoint>)
        requires
            self@.wf(),
        ensures
            match r {
                Some(p) => self@.get(name@, id) == Some(p@),
                None => self@.get(name@, id) is None,
            },
    {
        let idx = match self.find_collection(name) {
            None => {
                return None;
            },
            Some(i) => i,
        };
        proof {
            let c = choose|c: int|
                0 <= c < self@.collections.len() && self@.collections[c].name == name@;
            if c != idx {
                assert(false);
            }
            assert(self@.points_of(name@) == self@.collections[idx as int].points);
        }
        let n = self.collections[idx].points.len();
        for j in 0..n
            invariant
                idx < self.collections.len(),
                n == self.collections@[idx as int].points.len(),
                self@.points_of(name@) == self@.collections[idx as int].points,
                forall|k: int| 0 <= k < j ==> self@.collections[idx as int].points[k].id != id,
        {
            proof {
                assert(self@.collections[idx as int].points[j as int] == self.collections@[idx as int].points@[j as int]@);
            }
            if self.collections[idx].points[j].id == id {
                let p = self.collections[idx].points[j].clone();
                proof {
                    lemma_get_first_match(self@.collections[idx as int].points, id, j as int);
                }
                return Some(p);
            }
        }
        proof {
            lemma_get_none(self@.collections[idx as int].points, id);
        }
        None
    }

    /// Checks whether a collection named `name` exists and creates it with
    /// the requested schema when it does not; an existing collection is left
    /// exactly as it is. Safe to call at every session start.
    pub fn ensure_collection(&mut self, name: &String, dim: usize, metric: DistanceMetric)
        ensures
            final(self)@ == ensure_spec(old(self)@, name@, dim, metric),
            final(self)@.has_collection(name@),
            old(self)@.wf() ==> final(self)@.wf(),
    {
        if !self.has_collection(name) {
            let _ = self.create_collection(name.clone(), dim, metric);
            proof {
                let n = self@.collections.len() - 1;
                assert(self@.collections[n].name == name@);
                assert(self@.has_collection(name@));
            }
        }
    }
}

} // verus!
