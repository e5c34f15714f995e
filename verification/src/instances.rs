//! The flattening of entities into the records that the renderer uploads.

use vstd::prelude::*;
use crate::scene::Scene;
use crate::transform::{raw_of, TransformRaw};

verus! {

/// The records of the live members of `group`, in the order of `group`.
pub open spec fn records(scene: &Scene, group: Seq<usize>) -> Seq<TransformRaw>
    decreases group.len(),
{
    if group.len() == 0 {
        Seq::empty()
    } else {
        let rest = records(scene, group.drop_last());
        if scene.is_live(group.last() as int) {
            rest.push(raw_of(scene.node(group.last() as int)))
        } else {
            rest
        }
    }
}

/// Flattens `group` into records: one for each member that is live, in
/// the order of `group`. Destroyed members are passed over.
pub fn instance_data(scene: &Scene, group: &Vec<usize>) -> (r: Vec<TransformRaw>)
    ensures
        r@ == records(scene, group@),
{
    let n = group.len();
    let mut out: Vec<TransformRaw> = Vec::with_capacity(n);
    let mut k: usize = 0;
    while k < n
        invariant
            k <= n,
            n == group@.len(),
            out@ == records(scene, group@.take(k as int)),
        decreases n - k,
    {
        proof {
            assert(group@.take(k + 1).drop_last() == group@.take(k as int));
        }
        match scene.get(group[k]) {
            Some(t) => {
                out.push(t.to_raw());
            },
            None => {},
        }
        k += 1;
    }
    proof {
        assert(group@.take(n as int) == group@);
    }
    out
}

/// A group whose members are all live flattens into as many records as
/// it has members, the record at each place being that of the member at
/// that place.
pub proof fn lemma_records_of_live_group(scene: &Scene, group: Seq<usize>)
    requires
        forall|k: int| 0 <= k < group.len() ==> scene.is_live(#[trigger] group[k] as int),
    ensures
        records(scene, group).len() == group.len(),
        forall|k: int|
            0 <= k < group.len() ==> #[trigger] records(scene, group)[k] == raw_of(
                scene.node(group[k] as int),
            ),
    decreases group.len(),
{
    if group.len() > 0 {
        lemma_records_of_live_group(scene, group.drop_last());
    }
}

/// The records depend on nothing but which members are live and on
/// their world matrices, sprites and flips: two scenes that agree on
/// these for every member of `group` flatten into the same records. So
/// flattening twice without a change in between gives the same records.
pub proof fn lemma_records_repeat(a: &Scene, b: &Scene, group: Seq<usize>)
    requires
        forall|k: int|
            0 <= k < group.len() ==> a.is_live(#[trigger] group[k] as int) == b.is_live(
                group[k] as int,
            ),
        forall|k: int|
            0 <= k < group.len() && a.is_live(#[trigger] group[k] as int) ==> raw_of(
                a.node(group[k] as int),
            ) == raw_of(b.node(group[k] as int)),
    ensures
        records(a, group) == records(b, group),
    decreases group.len(),
{
    if group.len() > 0 {
        lemma_records_repeat(a, b, group.drop_last());
    }
}

} // verus!
