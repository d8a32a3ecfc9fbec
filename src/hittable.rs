use vstd::prelude::*;

verus! {

/// An unordered collection of hittable objects queried as one.
///
/// The intersection test of each object is numeric and is supplied by the
/// caller; what the collection decides is which reported hit is the nearest.
pub struct HittableList<H> {
    pub objects: Vec<H>,
}

impl<H> HittableList<H> {
    pub fn new() -> (r: Self)
        ensures
            r.objects@.len() == 0,
    {
        HittableList { objects: Vec::new() }
    }

    pub fn clear(&mut self)
        ensures
            final(self).objects@ == Seq::<H>::empty(),
    {
        self.objects.clear();
    }

    pub fn add(&mut self, obj: H)
        ensures
            final(self).objects@ == old(self).objects@.push(obj),
    {
        self.objects.push(obj);
    }

    pub fn len(&self) -> (r: usize)
        ensures
            r == self.objects@.len(),
    {
        self.objects.len()
    }
}

/// `hits[i]` is the hit that the scan keeps: it is the smallest reported key,
/// and no earlier object reported the same key.
///
/// Keys are the ray parameters `t` of the reported hits, encoded so that the
/// integer order is the order of the distances along the ray.
pub open spec fn is_nearest(hits: Seq<Option<u64>>, i: int) -> bool {
    &&& 0 <= i < hits.len()
    &&& hits[i] is Some
    &&& forall|j: int|
        0 <= j < hits.len() && #[trigger] hits[j] is Some ==> hits[i]->Some_0 <= hits[j]->Some_0
    &&& forall|j: int| 0 <= j < i && #[trigger] hits[j] is Some ==> hits[i]->Some_0 < hits[j]->Some_0
}

pub open spec fn any_hit(hits: Seq<Option<u64>>) -> bool {
    exists|j: int| 0 <= j < hits.len() && #[trigger] hits[j] is Some
}

/// Picks the nearest of the hits that the objects of a scene reported for one
/// ray, by a single pass that only accepts a hit strictly nearer than the best
/// one so far.
pub fn nearest_hit(hits: &Vec<Option<u64>>) -> (r: Option<usize>)
    ensures
        r is None <==> !any_hit(hits@),
        r matches Some(i) ==> is_nearest(hits@, i as int),
{
    let mut best: Option<usize> = None;
    let mut best_key: u64 = 0;
    let mut k: usize = 0;
    while k < hits.len()
        invariant
            k <= hits@.len(),
            best is None <==> (forall|j: int| 0 <= j < k ==> #[trigger] hits@[j] is None),
            best matches Some(i) ==> {
                &&& i < k
                &&& hits@[i as int] == Some(best_key)
                &&& forall|j: int| 0 <= j < k && #[trigger] hits@[j] is Some ==> best_key <= hits@[j]->Some_0
                &&& forall|j: int| 0 <= j < i && #[trigger] hits@[j] is Some ==> best_key < hits@[j]->Some_0
            },
        decreases hits@.len() - k,
    {
        if let Some(t) = hits[k] {
            let closer = match best {
                None => true,
                Some(_) => t < best_key,
            };
            if closer {
                best = Some(k);
                best_key = t;
            }
        }
        k = k + 1;
    }
    best
}

/// The scan's choice is determined: at most one index is the nearest hit.
pub proof fn lemma_nearest_unique(hits: Seq<Option<u64>>, i: int, j: int)
    requires
        is_nearest(hits, i),
        is_nearest(hits, j),
    ensures
        i == j,
{
    if i < j {
        assert(hits[j] is Some);
    } else if j < i {
        assert(hits[i] is Some);
    }
}

} // verus!
