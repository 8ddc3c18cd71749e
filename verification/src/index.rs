//! The vector index as the pipeline sees it: a set of points addressed by
//! identifier, written with insert-or-replace semantics.
//!
//! `upsert` is the only write the ingestion path performs. Because a point's
//! identifier is derived from its content key alone, writing the same key
//! twice replaces the point instead of duplicating it; the lemmas at the end
//! state that idempotence.

use vstd::prelude::*;

use crate::point::{PointModel, VectorPoint};

verus! {

/// The width of every stored embedding vector, fixed by the embedding model.
pub const VECTOR_SIZE: u64 = 1536;

/// The collection documents are stored in.
pub fn collection_name() -> (r: &'static str)
    ensures
        r@ == "rag-collection"@,
{
    "rag-collection"
}

/// Insert-or-replace on the model level: the first point with a matching
/// identifier is replaced, and a fresh identifier is appended at the end.
pub open spec fn upsert_model(s: Seq<PointModel>, p: PointModel) -> Seq<PointModel>
    decreases s.len(),
{
    if s.len() == 0 {
        seq![p]
    } else if s[0].id == p.id {
        seq![p] + s.drop_first()
    } else {
        seq![s[0]] + upsert_model(s.drop_first(), p)
    }
}

/// How many points carry the given identifier.
pub open spec fn count_id(s: Seq<PointModel>, id: Seq<char>) -> nat
    decreases s.len(),
{
    if s.len() == 0 {
        0
    } else {
        (if s[0].id == id {
            1nat
        } else {
            0nat
        }) + count_id(s.drop_first(), id)
    }
}

/// The first point stored under the given identifier, if any.
pub open spec fn find_id(s: Seq<PointModel>, id: Seq<char>) -> Option<PointModel>
    decreases s.len(),
{
    if s.len() == 0 {
        Option::None
    } else if s[0].id == id {
        Option::Some(s[0])
    } else {
        find_id(s.drop_first(), id)
    }
}

/// No two points share an identifier.
pub open spec fn ids_distinct(s: Seq<PointModel>) -> bool {
    forall|i: int, j: int| 0 <= i < j < s.len() ==> s[i].id != s[j].id
}

/// The stored points of the vector index, each under a distinct identifier.
pub struct VectorIndex {
    pub points: Vec<VectorPoint>,
}

impl View for VectorIndex {
    type V = Seq<PointModel>;

    open spec fn view(&self) -> Seq<PointModel> {
        self.points@.map_values(|p: VectorPoint| p@)
    }
}

impl VectorIndex {
    /// The index invariant: identifiers are unique.
    pub open spec fn wf(&self) -> bool {
        ids_distinct(self@)
    }

    /// An empty index.
    pub fn new() -> (r: VectorIndex)
        ensures
            r@ =~= Seq::<PointModel>::empty(),
            r.wf(),
    {
        VectorIndex { points: Vec::new() }
    }

    /// How many points the index holds.
    pub fn len(&self) -> (r: usize)
        ensures
            r == self@.len(),
    {
        self.points.len()
    }

    /// Insert the point, replacing any point already stored under its
    /// identifier.
    pub fn upsert(&mut self, p: VectorPoint)
        requires
            old(self).wf(),
        ensures
            final(self)@ == upsert_model(old(self)@, p@),
            final(self).wf(),
    {
        let ghost s0 = old(self)@;
        let n = self.points.len();
        let mut i: usize = 0;
        while i < n
            invariant
                i <= n == self.points.len(),
                self@ == s0,
                s0 == old(self)@,
                ids_distinct(s0),
                forall|k: int| 0 <= k < i ==> s0[k].id != p@.id,
            decreases n - i,
        {
            if self.points[i].id == p.id {
                proof {
                    lemma_upsert_at_index(s0, p@, i as int);
                    lemma_upsert_stores_point(s0, p@);
                }
                self.points.set(i, p);
                proof {
                    assert(self@ =~= s0.update(i as int, p@));
                    assert(self@ == upsert_model(s0, p@));
                }
                return ;
            }
            i += 1;
        }
        proof {
            lemma_upsert_fresh(s0, p@);
            lemma_upsert_stores_point(s0, p@);
        }
        self.points.push(p);
        proof {
            assert(self@ =~= s0.push(p@));
            assert(self@ == upsert_model(s0, p@));
        }
    }

    /// Look up the point stored under an identifier.
    pub fn find(&self, id: &String) -> (r: Option<&VectorPoint>)
        ensures
            match r {
                Option::Some(p) => find_id(self@, id@) == Option::Some(p@),
                Option::None => find_id(self@, id@) is None,
            },
    {
        let n = self.points.len();
        let mut i: usize = 0;
        proof {
            assert(self@.skip(0) =~= self@);
        }
        while i < n
            invariant
                i <= n == self.points.len(),
                forall|k: int| 0 <= k < i ==> self@[k].id != id@,
                find_id(self@, id@) == find_id(self@.skip(i as int), id@),
            decreases n - i,
        {
            proof {
                assert(self@.skip(i as int)[0] == self@[i as int]);
                assert(self@.skip(i as int).drop_first() =~= self@.skip(i as int + 1));
            }
            if self.points[i].id == *id {
                return Option::Some(&self.points[i]);
            }
            i += 1;
        }
        proof {
            assert(self@.skip(n as int) =~= Seq::<PointModel>::empty());
        }
        Option::None
    }
}

/// When index `i` holds the matching identifier and nothing before it does,
/// upsert replaces exactly that slot.
pub proof fn lemma_upsert_at_index(s: Seq<PointModel>, p: PointModel, i: int)
    requires
        0 <= i < s.len(),
        s[i].id == p.id,
        forall|k: int| 0 <= k < i ==> s[k].id != p.id,
    ensures
        upsert_model(s, p) =~= s.update(i, p),
    decreases s.len(),
{
    if i == 0 {
    } else {
        lemma_upsert_at_index(s.drop_first(), p, i - 1);
        assert(s.drop_first().update(i - 1, p) =~= s.update(i, p).drop_first());
    }
}

/// When no stored point has the matching identifier, upsert appends.
pub proof fn lemma_upsert_fresh(s: Seq<PointModel>, p: PointModel)
    requires
        forall|k: int| 0 <= k < s.len() ==> s[k].id != p.id,
    ensures
        upsert_model(s, p) =~= s.push(p),
    decreases s.len(),
{
    if s.len() == 0 {
    } else {
        assert(forall|k: int| 0 <= k < s.drop_first().len() ==> s.drop_first()[k].id != p.id);
        lemma_upsert_fresh(s.drop_first(), p);
        assert(s.drop_first().push(p) =~= s.push(p).drop_first());
    }
}

/// Upsert leaves points under every other identifier untouched.
pub proof fn lemma_upsert_other_ids(s: Seq<PointModel>, p: PointModel, id: Seq<char>)
    requires
        id != p.id,
    ensures
        count_id(upsert_model(s, p), id) == count_id(s, id),
        find_id(upsert_model(s, p), id) == find_id(s, id),
    decreases s.len(),
{
    if s.len() == 0 {
        let r = seq![p];
        assert(upsert_model(s, p) == r);
        assert(r.drop_first() =~= Seq::<PointModel>::empty());
        assert(count_id(Seq::<PointModel>::empty(), id) == 0);
        assert(find_id(Seq::<PointModel>::empty(), id) is None);
        assert(count_id(r, id) == 0);
        assert(find_id(r, id) is None);
    } else if s[0].id == p.id {
        let r = seq![p] + s.drop_first();
        assert(upsert_model(s, p) == r);
        assert(r[0] == p);
        assert(r.drop_first() =~= s.drop_first());
        assert(count_id(r, id) == count_id(s.drop_first(), id));
        assert(count_id(s, id) == count_id(s.drop_first(), id));
        assert(find_id(r, id) == find_id(s.drop_first(), id));
        assert(find_id(s, id) == find_id(s.drop_first(), id));
    } else {
        lemma_upsert_other_ids(s.drop_first(), p, id);
        let r = seq![s[0]] + upsert_model(s.drop_first(), p);
        assert(upsert_model(s, p) == r);
        assert(r[0] == s[0]);
        assert(r.drop_first() =~= upsert_model(s.drop_first(), p));
        assert(count_id(r, id) == count_id(s, id));
        assert(find_id(r, id) == find_id(s, id));
    }
}

/// A stored identifier makes the count positive.
proof fn lemma_count_witness(s: Seq<PointModel>, id: Seq<char>, i: int)
    requires
        0 <= i < s.len(),
        s[i].id == id,
    ensures
        count_id(s, id) >= 1,
    decreases s.len(),
{
    if i == 0 {
    } else {
        lemma_count_witness(s.drop_first(), id, i - 1);
    }
}

/// When the identifier never occurs, its count is zero.
proof fn lemma_no_id_count(s: Seq<PointModel>, id: Seq<char>)
    requires
        forall|k: int| 0 <= k < s.len() ==> s[k].id != id,
    ensures
        count_id(s, id) == 0,
    decreases s.len(),
{
    if s.len() == 0 {
    } else {
        assert(forall|k: int| 0 <= k < s.drop_first().len() ==> s.drop_first()[k].id != id);
        lemma_no_id_count(s.drop_first(), id);
    }
}

/// When exactly one index holds the identifier, its count is one.
proof fn lemma_count_unique_witness(s: Seq<PointModel>, id: Seq<char>, i: int)
    requires
        0 <= i < s.len(),
        s[i].id == id,
        forall|j: int| 0 <= j < s.len() && j != i ==> s[j].id != id,
    ensures
        count_id(s, id) == 1,
    decreases s.len(),
{
    if i == 0 {
        assert(forall|k: int| 0 <= k < s.drop_first().len() ==> s.drop_first()[k].id != id);
        lemma_no_id_count(s.drop_first(), id);
    } else {
        assert(forall|j: int|
            0 <= j < s.drop_first().len() && j != i - 1 ==> s.drop_first()[j].id != id);
        lemma_count_unique_witness(s.drop_first(), id, i - 1);
    }
}

/// The first stored point under an identifier is the one `find_id` returns.
proof fn lemma_find_witness(s: Seq<PointModel>, id: Seq<char>, i: int)
    requires
        0 <= i < s.len(),
        s[i].id == id,
        forall|k: int| 0 <= k < i ==> s[k].id != id,
    ensures
        find_id(s, id) == Option::Some(s[i]),
    decreases s.len(),
{
    if i == 0 {
    } else {
        lemma_find_witness(s.drop_first(), id, i - 1);
    }
}

/// After an upsert the point's identifier is stored exactly once, holding the
/// upserted attributes, and identifiers stay unique. The write replaces a
/// point when the identifier was present and appends one otherwise.
pub proof fn lemma_upsert_stores_point(s: Seq<PointModel>, p: PointModel)
    requires
        ids_distinct(s),
    ensures
        count_id(upsert_model(s, p), p.id) == 1,
        find_id(upsert_model(s, p), p.id) == Option::Some(p),
        ids_distinct(upsert_model(s, p)),
        count_id(s, p.id) > 0 ==> upsert_model(s, p).len() == s.len(),
        count_id(s, p.id) == 0 ==> upsert_model(s, p).len() == s.len() + 1,
{
    if exists|k: int| 0 <= k < s.len() && s[k].id == p.id {
        let i = choose|k: int| 0 <= k < s.len() && s[k].id == p.id;
        assert(s[i].id == p.id);
        assert(forall|j: int| 0 <= j < s.len() && j != i ==> s[j].id != p.id);
        lemma_upsert_at_index(s, p, i);
        let t = s.update(i, p);
        assert(upsert_model(s, p) == t);
        assert(forall|j: int| 0 <= j < t.len() && j != i ==> t[j].id != p.id);
        lemma_count_unique_witness(t, p.id, i);
        lemma_find_witness(t, p.id, i);
        assert(ids_distinct(t)) by {
            assert(forall|a: int, b: int| 0 <= a < b < t.len() ==> t[a].id != t[b].id) by {
                assert(forall|a: int| 0 <= a < t.len() && a != i ==> t[a] == s[a]);
                assert(t[i].id == s[i].id);
            }
        }
        lemma_count_witness(s, p.id, i);
    } else {
        assert(forall|k: int| 0 <= k < s.len() ==> s[k].id != p.id);
        lemma_upsert_fresh(s, p);
        let t = s.push(p);
        assert(upsert_model(s, p) == t);
        assert(t[s.len() as int] == p);
        assert(forall|j: int| 0 <= j < t.len() && j != s.len() ==> t[j].id != p.id);
        lemma_count_unique_witness(t, p.id, s.len() as int);
        lemma_find_witness(t, p.id, s.len() as int);
        assert(ids_distinct(t)) by {
            assert(forall|a: int| 0 <= a < s.len() ==> t[a] == s[a]);
        }
        lemma_no_id_count(s, p.id);
    }
}

/// Re-ingesting under the same identifier is idempotent: after writing a
/// point and then writing another with the same identifier, exactly one point
/// carries that identifier, it holds the later attributes, and the second
/// write added nothing.
pub proof fn lemma_reingestion_idempotent(s: Seq<PointModel>, p1: PointModel, p2: PointModel)
    requires
        ids_distinct(s),
        p1.id == p2.id,
    ensures
        count_id(upsert_model(upsert_model(s, p1), p2), p2.id) == 1,
        find_id(upsert_model(upsert_model(s, p1), p2), p2.id) == Option::Some(p2),
        upsert_model(upsert_model(s, p1), p2).len() == upsert_model(s, p1).len(),
{
    lemma_upsert_stores_point(s, p1);
    lemma_upsert_stores_point(upsert_model(s, p1), p2);
}

} // verus!
