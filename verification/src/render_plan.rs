//! What a frame draws, decided from the entity slots before any GPU work:
//! which entity types have a mesh, how instances are batched per type, which
//! entity the camera follows, and which extraction beams connect which
//! entities. The slots are taken in draw order (the caller sorts them by layer).

use vstd::prelude::*;
use crate::shared_world::{SabSlot, FLAG_LOCAL_PLAYER};

verus! {

/// Entity types drawn with a mesh: agents (1), heavy agents (3), carriers (4),
/// resources (5) and data drops (6).
pub open spec fn spec_has_primitive(entity_type: u16) -> bool {
    entity_type == 1 || entity_type == 3 || entity_type == 4 || entity_type == 5 || entity_type == 6
}

/// Whether entities of this type are drawn with a mesh.
pub fn has_primitive(entity_type: u16) -> (b: bool)
    ensures
        b == spec_has_primitive(entity_type),
{
    entity_type == 1 || entity_type == 3 || entity_type == 4 || entity_type == 5 || entity_type == 6
}

/// A slot's network id cut to its low 16 bits, as beam targets are stored.
pub open spec fn id16(s: SabSlot) -> u16 {
    (s.network_id % 0x1_0000) as u16
}

/// The first of the first `k` slots whose 16-bit id is `t`.
pub open spec fn first_with_id16(s: Seq<SabSlot>, t: u16, k: nat) -> Option<int>
    decreases k,
{
    if k == 0 {
        None
    } else {
        match first_with_id16(s, t, (k - 1) as nat) {
            Some(j) => Some(j),
            None => if id16(s[k - 1]) == t {
                Some(k - 1)
            } else {
                None
            },
        }
    }
}

/// The beams among the first `n` slots: for each slot (in order) extracting
/// from a non-zero target, the pair of its position and the position of the
/// first slot whose 16-bit id is the target, when there is one.
pub open spec fn beam_pairs_upto(s: Seq<SabSlot>, n: nat) -> Seq<(usize, usize)>
    decreases n,
{
    if n == 0 {
        Seq::empty()
    } else {
        let prev = beam_pairs_upto(s, (n - 1) as nat);
        let e = s[n - 1];
        if e.extraction_active != 0 && e.extraction_target_id != 0 {
            match first_with_id16(s, e.extraction_target_id, s.len()) {
                Some(j) => prev.push((((n - 1) as int) as usize, j as usize)),
                None => prev,
            }
        } else {
            prev
        }
    }
}

/// The positions, among the first `n` slots, of those of type `t`, in order.
pub open spec fn type_indices(s: Seq<SabSlot>, t: u16, n: nat) -> Seq<usize>
    decreases n,
{
    if n == 0 {
        Seq::empty()
    } else {
        let prev = type_indices(s, t, (n - 1) as nat);
        if s[n - 1].entity_type == t {
            prev.push(((n - 1) as int) as usize)
        } else {
            prev
        }
    }
}

/// The mesh-drawn types among the first `n` slots, in order of first appearance.
pub open spec fn batch_types(s: Seq<SabSlot>, n: nat) -> Seq<u16>
    decreases n,
{
    if n == 0 {
        Seq::empty()
    } else {
        let prev = batch_types(s, (n - 1) as nat);
        let t = s[n - 1].entity_type;
        if spec_has_primitive(t) && !prev.contains(t) {
            prev.push(t)
        } else {
            prev
        }
    }
}

/// The instances of one mesh: the positions of the slots of that type.
#[derive(Debug)]
pub struct DrawBatch {
    pub entity_type: u16,
    pub indices: Vec<usize>,
}

/// A type absent from the batch types among the first `n` slots has no mesh,
/// or no slot of it among them.
proof fn lemma_unbatched_type_has_no_slots(s: Seq<SabSlot>, t: u16, n: nat)
    requires
        n <= s.len(),
        spec_has_primitive(t),
        !batch_types(s, n).contains(t),
    ensures
        type_indices(s, t, n) == Seq::<usize>::empty(),
    decreases n,
{
    if n > 0 {
        let prev = batch_types(s, (n - 1) as nat);
        if prev.contains(t) {
            let j = choose|j: int| 0 <= j < prev.len() && prev[j] == t;
            assert(batch_types(s, n)[j] == t);
        }
        lemma_unbatched_type_has_no_slots(s, t, (n - 1) as nat);
        if s[n - 1].entity_type == t {
            assert(batch_types(s, n) == prev.push(t));
            assert(batch_types(s, n)[prev.len() as int] == t);
        }
    }
}

/// The batch types have no repetitions and all have meshes.
proof fn lemma_batch_types_distinct(s: Seq<SabSlot>, n: nat)
    requires
        n <= s.len(),
    ensures
        forall|a: int, b: int|
            0 <= a < b < batch_types(s, n).len() ==> #[trigger] batch_types(s, n)[a]
                != #[trigger] batch_types(s, n)[b],
        forall|a: int|
            0 <= a < batch_types(s, n).len() ==> spec_has_primitive(#[trigger] batch_types(s, n)[a]),
    decreases n,
{
    if n > 0 {
        lemma_batch_types_distinct(s, (n - 1) as nat);
        let prev = batch_types(s, (n - 1) as nat);
        let t = s[n - 1].entity_type;
        if spec_has_primitive(t) && !prev.contains(t) {
            let r = batch_types(s, n);
            assert forall|a: int, b: int| 0 <= a < b < r.len() implies #[trigger] r[a]
                != #[trigger] r[b] by {
                if b == prev.len() {
                    assert(r[a] == prev[a]);
                    if prev[a] == t {
                        assert(prev.contains(t));
                    }
                }
            }
        }
    }
}

/// Groups the mesh-drawn slots by entity type: one batch per type, in order of
/// first appearance, each listing the positions of that type's slots in order.
pub fn instance_batches(slots: &[SabSlot]) -> (r: Vec<DrawBatch>)
    ensures
        r@.len() == batch_types(slots@, slots@.len()).len(),
        forall|k: int|
            0 <= k < r@.len() ==> #[trigger] r@[k].entity_type == batch_types(
                slots@,
                slots@.len(),
            )[k] && r@[k].indices@ == type_indices(slots@, r@[k].entity_type, slots@.len()),
{
    let ghost s = slots@;
    let n = slots.len();
    let mut r: Vec<DrawBatch> = Vec::new();
    let mut i: usize = 0;
    while i < n
        invariant
            n == s.len(),
            s == slots@,
            i <= n,
            r@.len() == batch_types(s, i as nat).len(),
            forall|k: int|
                0 <= k < r@.len() ==> #[trigger] r@[k].entity_type == batch_types(s, i as nat)[k]
                    && r@[k].indices@ == type_indices(s, r@[k].entity_type, i as nat),
        decreases n - i,
    {
        let t = slots[i].entity_type;
        proof {
            lemma_batch_types_distinct(s, i as nat);
        }
        let ghost prev_types = batch_types(s, i as nat);
        if has_primitive(t) {
            let mut k: usize = 0;
            while k < r.len() && r[k].entity_type != t
                invariant
                    k <= r@.len(),
                    forall|m: int| 0 <= m < k ==> #[trigger] r@[m].entity_type != t,
                decreases r@.len() - k,
            {
                k = k + 1;
            }
            if k < r.len() {
                let ghost before = r@;
                r[k].indices.push(i);
                proof {
                    assert(prev_types[k as int] == t);
                    assert(prev_types.contains(t));
                    assert(batch_types(s, (i + 1) as nat) == prev_types);
                    assert forall|m: int| 0 <= m < r@.len() implies #[trigger] r@[m].entity_type
                        == batch_types(s, (i + 1) as nat)[m] && r@[m].indices@ == type_indices(
                        s,
                        r@[m].entity_type,
                        (i + 1) as nat,
                    ) by {
                        if m != k {
                            assert(r@[m] == before[m]);
                            assert(before[m].entity_type != t) by {
                                assert(prev_types[m] != prev_types[k as int]);
                            }
                        }
                    }
                }
            } else {
                proof {
                    assert(!prev_types.contains(t)) by {
                        if prev_types.contains(t) {
                            let j = choose|j: int| 0 <= j < prev_types.len() && prev_types[j] == t;
                            assert(r@[j].entity_type == t);
                        }
                    }
                    lemma_unbatched_type_has_no_slots(s, t, i as nat);
                }
                let ghost before = r@;
                let mut v: Vec<usize> = Vec::new();
                v.push(i);
                r.push(DrawBatch { entity_type: t, indices: v });
                proof {
                    assert(batch_types(s, (i + 1) as nat) == prev_types.push(t));
                    assert(type_indices(s, t, (i + 1) as nat) =~= seq![i]);
                    assert forall|m: int| 0 <= m < r@.len() implies #[trigger] r@[m].entity_type
                        == batch_types(s, (i + 1) as nat)[m] && r@[m].indices@ == type_indices(
                        s,
                        r@[m].entity_type,
                        (i + 1) as nat,
                    ) by {
                        if m < before.len() {
                            assert(r@[m] == before[m]);
                            assert(before[m].entity_type != t);
                        }
                    }
                }
            }
        } else {
            proof {
                assert(batch_types(s, (i + 1) as nat) == prev_types);
                assert forall|m: int| 0 <= m < r@.len() implies #[trigger] r@[m].entity_type
                    == batch_types(s, (i + 1) as nat)[m] && r@[m].indices@ == type_indices(
                    s,
                    r@[m].entity_type,
                    (i + 1) as nat,
                ) by {
                    assert(spec_has_primitive(prev_types[m]));
                }
            }
        }
        i = i + 1;
    }
    r
}

/// The position of the first slot of `t`'s 16-bit id, if any.
fn find_id16(slots: &[SabSlot], t: u16) -> (r: Option<usize>)
    ensures
        r == match first_with_id16(slots@, t, slots@.len()) {
            Some(j) => Some(j as usize),
            None => None::<usize>,
        },
{
    let n = slots.len();
    let mut j: usize = 0;
    while j < n
        invariant
            n == slots@.len(),
            j <= n,
            first_with_id16(slots@, t, j as nat) is None,
        decreases n - j,
    {
        if (slots[j].network_id % 0x1_0000) as u16 == t {
            proof {
                lemma_first_with_id16_stable(slots@, t, (j + 1) as nat, n as nat);
            }
            return Some(j);
        }
        j = j + 1;
    }
    None
}

/// Once a match is found among the first `k` slots, looking further finds the same one.
proof fn lemma_first_with_id16_stable(s: Seq<SabSlot>, t: u16, k: nat, m: nat)
    requires
        k <= m,
        first_with_id16(s, t, k) is Some,
    ensures
        first_with_id16(s, t, m) == first_with_id16(s, t, k),
    decreases m - k,
{
    if k < m {
        lemma_first_with_id16_stable(s, t, k, (m - 1) as nat);
    }
}

/// The extraction beams of the frame, as pairs of slot positions (source,
/// target); see [`beam_pairs_upto`].
pub fn beam_pairs(slots: &[SabSlot]) -> (r: Vec<(usize, usize)>)
    ensures
        r@ == beam_pairs_upto(slots@, slots@.len()),
{
    let n = slots.len();
    let mut r: Vec<(usize, usize)> = Vec::new();
    let mut i: usize = 0;
    while i < n
        invariant
            n == slots@.len(),
            i <= n,
            r@ == beam_pairs_upto(slots@, i as nat),
        decreases n - i,
    {
        let e = slots[i];
        if e.extraction_active != 0 && e.extraction_target_id != 0 {
            match find_id16(slots, e.extraction_target_id) {
                Some(j) => {
                    r.push((i, j));
                },
                None => {},
            }
        }
        i = i + 1;
    }
    r
}

/// The slot the camera follows: the first carrying the local-player flag.
pub fn camera_target_index(slots: &[SabSlot]) -> (r: Option<usize>)
    ensures
        match r {
            Some(i) => i < slots@.len() && slots@[i as int].flags & FLAG_LOCAL_PLAYER != 0
                && forall|j: int| 0 <= j < i ==> #[trigger] slots@[j].flags & FLAG_LOCAL_PLAYER == 0,
            None => forall|j: int|
                0 <= j < slots@.len() ==> #[trigger] slots@[j].flags & FLAG_LOCAL_PLAYER == 0,
        },
{
    let n = slots.len();
    let mut i: usize = 0;
    while i < n
        invariant
            n == slots@.len(),
            i <= n,
            forall|j: int| 0 <= j < i ==> #[trigger] slots@[j].flags & FLAG_LOCAL_PLAYER == 0,
        decreases n - i,
    {
        if slots[i].flags & FLAG_LOCAL_PLAYER != 0 {
            return Some(i);
        }
        i = i + 1;
    }
    None
}

} // verus!
