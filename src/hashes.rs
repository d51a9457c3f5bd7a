use vstd::prelude::*;

use crate::types::Digest;

verus! {

/// Who owns an index whose hash enters the aggregated state hash.
#[derive(Clone, Copy, Debug, PartialEq, Eq, Hash, Structural)]
pub enum IndexOwner {
    Dispatcher,
    Runtime(u32),
    Service(u32),
}

/// The stable coordinates of an index: its owner and its position among the owner's indices.
#[derive(Clone, Copy, Debug, PartialEq, Eq, Hash, Structural)]
pub struct IndexCoordinates {
    pub owner: IndexOwner,
    pub index: u64,
}

/// What a runtime contributes to the aggregated state hash.
#[derive(Clone, Debug, Default)]
pub struct StateHashAggregator {
    /// Hashes of the runtime's own indices.
    pub runtime: Vec<Digest>,
    /// Hashes of the indices of each instance.
    pub instances: Vec<(u32, Vec<Digest>)>,
}

/// Pairs each hash of `owner` with its coordinates.
pub open spec fn locate(owner: IndexOwner, hashes: Seq<Digest>) -> Seq<(IndexCoordinates, Digest)> {
    Seq::new(hashes.len(), |i: int| (IndexCoordinates { owner, index: i as u64 }, hashes[i]))
}

/// The located hashes of each instance, in the order given.
pub open spec fn instances_part(s: Seq<(u32, Vec<Digest>)>) -> Seq<(IndexCoordinates, Digest)>
    decreases s.len(),
{
    if s.len() == 0 {
        Seq::empty()
    } else {
        instances_part(s.drop_last()) + locate(IndexOwner::Service(s.last().0), s.last().1@)
    }
}

/// The located hashes of each runtime and of its instances, in the order given.
pub open spec fn runtimes_part(s: Seq<(u32, StateHashAggregator)>) -> Seq<(IndexCoordinates, Digest)>
    decreases s.len(),
{
    if s.len() == 0 {
        Seq::empty()
    } else {
        runtimes_part(s.drop_last()) + locate(IndexOwner::Runtime(s.last().0), s.last().1.runtime@)
            + instances_part(s.last().1.instances@)
    }
}

/// The aggregated state hashes: the dispatcher's, then each runtime's with its instances'.
pub open spec fn aggregate(
    dispatcher: Seq<Digest>,
    runtimes: Seq<(u32, StateHashAggregator)>,
) -> Seq<(IndexCoordinates, Digest)> {
    locate(IndexOwner::Dispatcher, dispatcher) + runtimes_part(runtimes)
}

/// Appends the located hashes of `owner` to `out`.
fn append_located(out: &mut Vec<(IndexCoordinates, Digest)>, owner: IndexOwner, hashes: &Vec<Digest>)
    ensures
        final(out)@ == old(out)@ + locate(owner, hashes@),
{
    let ghost start = out@;
    let mut i: usize = 0;
    while i < hashes.len()
        invariant
            0 <= i <= hashes@.len(),
            out@ == start + locate(owner, hashes@.subrange(0, i as int)),
        decreases hashes@.len() - i,
    {
        out.push((IndexCoordinates { owner, index: i as u64 }, hashes[i]));
        i = i + 1;
        assert(locate(owner, hashes@.subrange(0, i as int)) =~= locate(
            owner,
            hashes@.subrange(0, i - 1 as int),
        ).push((IndexCoordinates { owner, index: (i - 1) as u64 }, hashes@[i - 1])));
    }
    assert(hashes@.subrange(0, i as int) =~= hashes@);
}

/// Computes `aggregate` of the dispatcher's hashes and of the runtimes' contributions.
pub fn aggregate_state_hashes(
    dispatcher: &Vec<Digest>,
    runtimes: &Vec<(u32, StateHashAggregator)>,
) -> (r: Vec<(IndexCoordinates, Digest)>)
    ensures
        r@ == aggregate(dispatcher@, runtimes@),
{
    let mut out: Vec<(IndexCoordinates, Digest)> = Vec::new();
    append_located(&mut out, IndexOwner::Dispatcher, dispatcher);
    assert(out@ =~= locate(IndexOwner::Dispatcher, dispatcher@));
    let mut k: usize = 0;
    while k < runtimes.len()
        invariant
            0 <= k <= runtimes@.len(),
            out@ == locate(IndexOwner::Dispatcher, dispatcher@) + runtimes_part(
                runtimes@.subrange(0, k as int),
            ),
        decreases runtimes@.len() - k,
    {
        let ghost before = out@;
        append_located(&mut out, IndexOwner::Runtime(runtimes[k].0), &runtimes[k].1.runtime);
        let instances = &runtimes[k].1.instances;
        let ghost mid = out@;
        let mut j: usize = 0;
        while j < instances.len()
            invariant
                0 <= j <= instances@.len(),
                out@ == mid + instances_part(instances@.subrange(0, j as int)),
            decreases instances@.len() - j,
        {
            append_located(&mut out, IndexOwner::Service(instances[j].0), &instances[j].1);
            j = j + 1;
            assert(instances@.subrange(0, j as int).drop_last() =~= instances@.subrange(
                0,
                j - 1 as int,
            ));
            assert(out@ =~= mid + instances_part(instances@.subrange(0, j as int)));
        }
        assert(instances@.subrange(0, j as int) =~= instances@);
        k = k + 1;
        assert(runtimes@.subrange(0, k as int).drop_last() =~= runtimes@.subrange(0, k - 1 as int));
        assert(out@ =~= locate(IndexOwner::Dispatcher, dispatcher@) + runtimes_part(
            runtimes@.subrange(0, k as int),
        ));
    }
    assert(runtimes@.subrange(0, k as int) =~= runtimes@);
    out
}

} // verus!
