//! Taking an encode session down.

use crate::nvenc::encode::{pool_inputs, unmapped};
use crate::nvenc::open::{destroy_pool, push_destroys};
use crate::nvenc::session::{BitstreamSlot, NvencRelease, NvencSession, SessionView, SlotState};
use vstd::prelude::*;
use vstd::std_specs::iter::IteratorSpec;

verus! {

broadcast use vstd::std_specs::hash::group_hash_axioms;

/// Unmapping the inputs of the pending slots of a pool, in order.
pub open spec fn unmap_pool(encoder: u64, pool: Seq<BitstreamSlot>) -> Seq<NvencRelease>
    decreases pool.len(),
{
    if pool.len() == 0 {
        Seq::empty()
    } else {
        let rest = unmap_pool(encoder, pool.drop_last());
        match pool.last().state {
            SlotState::Pending { mapped_input, .. } => rest.push(
                NvencRelease::Unmap { encoder, input: mapped_input },
            ),
            SlotState::Free => rest,
        }
    }
}

/// Unregistering surfaces, in a given order of their keys.
pub open spec fn unregister_all(s: SessionView, order: Seq<u64>) -> Seq<NvencRelease> {
    order.map_values(
        |raw: u64|
            NvencRelease::Unregister {
                encoder: s.encoder,
                resource: s.registered[raw].registered_ptr,
            },
    )
}

/// Taking a session down: unmap what is pending, destroy the buffers,
/// unregister the surfaces, destroy the encoder.
pub open spec fn teardown_of(s: SessionView, order: Seq<u64>) -> Seq<NvencRelease> {
    (unmap_pool(s.encoder, s.pool) + destroy_pool(s.encoder, s.pool) + unregister_all(
        s,
        order,
    )).push(NvencRelease::DestroyEncoder { encoder: s.encoder })
}

/// A list of the registered surfaces, each once, in some order.
pub open spec fn lists_registered(s: SessionView, order: Seq<u64>) -> bool {
    order.no_duplicates() && order.to_set() == s.registered.dom()
}

/// Whether a release list takes a session down. The order in which surfaces
/// are unregistered is left open.
pub open spec fn tears_down(s: SessionView, api_ready: bool, releases: Seq<NvencRelease>) -> bool {
    if api_ready {
        exists|order: Seq<u64>| #[trigger]
            lists_registered(s, order) && releases == teardown_of(s, order)
    } else {
        releases.len() == 0
    }
}

impl NvencSession {
    /// Take the session down. Without the NVENC library there is nothing that
    /// could be called.
    pub fn teardown(self, api_ready: bool) -> (releases: Vec<NvencRelease>)
        ensures
            tears_down(self@, api_ready, releases@),
    {
        let mut releases: Vec<NvencRelease> = Vec::new();
        if !api_ready {
            return releases;
        }
        let encoder: u64 = self.encoder;
        let mut i: usize = 0;
        while i < self.pool.len()
            invariant
                i <= self.pool.len(),
                encoder == self.encoder,
                releases@ == unmap_pool(encoder, self.pool@.take(i as int)),
            decreases self.pool.len() - i,
        {
            proof {
                assert(self.pool@.take(i + 1).drop_last() =~= self.pool@.take(i as int));
                assert(self.pool@.take(i + 1).last() == self.pool@[i as int]);
            }
            if let SlotState::Pending { mapped_input, .. } = self.pool[i].state {
                releases.push(NvencRelease::Unmap { encoder, input: mapped_input });
            }
            i += 1;
        }
        proof {
            assert(self.pool@.take(i as int) =~= self.pool@);
        }
        push_destroys(&mut releases, encoder, &self.pool);
        let ghost start = releases@;
        let mut order: Vec<u64> = Vec::new();
        let ghost all = vstd::std_specs::hash::spec_keys_iter(&self.registered).remaining().unref();
        for raw in it: self.registered.keys()
            invariant
                it.seq().unref() == all,
                order@ =~= all.take(it.index()),
        {
            order.push(*raw);
        }
        proof {
            assert(order@ =~= all);
            let refs = vstd::std_specs::hash::spec_keys_iter(&self.registered).remaining();
            assert forall|a: int, b: int|
                0 <= a < order@.len() && 0 <= b < order@.len() && a != b implies order@[a]
                != order@[b] by {
                assert(refs[a] != refs[b]);
            }
        }
        let mut j: usize = 0;
        while j < order.len()
            invariant
                j <= order.len(),
                encoder == self@.encoder,
                self@.registered == self.registered@,
                order@.to_set() == self.registered@.dom(),
                releases@ == start + unregister_all(self@, order@.take(j as int)),
            decreases order.len() - j,
        {
            let raw: u64 = order[j];
            proof {
                assert(order@.contains(raw));
                assert(order@.to_set().contains(raw));
            }
            if let Some(reg) = self.registered.get(&raw) {
                releases.push(NvencRelease::Unregister { encoder, resource: reg.registered_ptr });
            }
            j += 1;
            proof {
                assert(releases@ =~= start + unregister_all(self@, order@.take(j as int)));
            }
        }
        releases.push(NvencRelease::DestroyEncoder { encoder });
        proof {
            assert(order@.take(j as int) =~= order@);
            assert(lists_registered(self@, order@));
            assert(releases@ =~= teardown_of(self@, order@));
        }
        releases
    }
}

proof fn lemma_unmap_pool(encoder: u64, pool: Seq<BitstreamSlot>)
    ensures
        unmapped(unmap_pool(encoder, pool)) == pool_inputs(pool),
    decreases pool.len(),
{
    if pool.len() > 0 {
        lemma_unmap_pool(encoder, pool.drop_last());
        let rest = unmap_pool(encoder, pool.drop_last());
        match pool.last().state {
            SlotState::Pending { mapped_input, .. } => {
                let all = rest.push(NvencRelease::Unmap { encoder, input: mapped_input });
                assert(all.drop_last() =~= rest);
            },
            SlotState::Free => {},
        }
        assert(unmapped(unmap_pool(encoder, pool)) =~= pool_inputs(pool));
    }
}

proof fn lemma_unmapped_tail(head: Seq<NvencRelease>, tail: Seq<NvencRelease>)
    requires
        forall|i: int| 0 <= i < tail.len() ==> !(#[trigger] tail[i] is Unmap),
    ensures
        unmapped(head + tail) == unmapped(head),
    decreases tail.len(),
{
    if tail.len() == 0 {
        assert(head + tail =~= head);
    } else {
        assert((head + tail).drop_last() =~= head + tail.drop_last());
        assert((head + tail).last() == tail.last());
        assert forall|i: int| 0 <= i < tail.drop_last().len() implies !(
        #[trigger] tail.drop_last()[i] is Unmap) by {
            assert(tail.drop_last()[i] == tail[i]);
        }
        lemma_unmapped_tail(head, tail.drop_last());
    }
}

/// Taking a session down unmaps exactly the inputs that pending slots hold,
/// and the encoder is destroyed last.
pub proof fn law_teardown_releases_everything(s: SessionView, order: Seq<u64>)
    requires
        lists_registered(s, order),
    ensures
        unmapped(teardown_of(s, order)) == pool_inputs(s.pool),
        teardown_of(s, order).last() == (NvencRelease::DestroyEncoder { encoder: s.encoder }),
        forall|raw: u64| #[trigger]
            s.registered.contains_key(raw) ==> teardown_of(s, order).contains(
                NvencRelease::Unregister {
                    encoder: s.encoder,
                    resource: s.registered[raw].registered_ptr,
                },
            ),
        forall|i: int|
            0 <= i < s.pool.len() ==> teardown_of(s, order).contains(
                NvencRelease::DestroyBitstream {
                    encoder: s.encoder,
                    output: (#[trigger] s.pool[i]).handle,
                },
            ),
{
    let a = unmap_pool(s.encoder, s.pool);
    let b = destroy_pool(s.encoder, s.pool);
    let c = unregister_all(s, order);
    let d = NvencRelease::DestroyEncoder { encoder: s.encoder };
    let all = teardown_of(s, order);
    lemma_unmap_pool(s.encoder, s.pool);
    let tail = (b + c).push(d);
    assert(all =~= a + tail);
    lemma_unmapped_tail(a, tail);
    assert forall|raw: u64| #[trigger] s.registered.contains_key(raw) implies all.contains(
        NvencRelease::Unregister {
            encoder: s.encoder,
            resource: s.registered[raw].registered_ptr,
        },
    ) by {
        assert(order.to_set().contains(raw));
        let k = choose|k: int| 0 <= k < order.len() && order[k] == raw;
        assert(all[a.len() + b.len() + k] == c[k]);
    }
    assert forall|i: int| 0 <= i < s.pool.len() implies all.contains(
        NvencRelease::DestroyBitstream {
            encoder: s.encoder,
            output: (#[trigger] s.pool[i]).handle,
        },
    ) by {
        assert(all[a.len() + i] == b[i]);
    }
}

/// A session goes down in four stages, and each stage is whole: first every
/// mapped input is unmapped, then every buffer is destroyed in the order of the
/// pool, then every surface is unregistered once, then the encoder goes. All of
/// it is the session's own.
pub proof fn law_teardown_goes_in_stages(s: SessionView, order: Seq<u64>)
    requires
        lists_registered(s, order),
    ensures
        ({
            let all = teardown_of(s, order);
            let m = unmap_pool(s.encoder, s.pool).len() as int;
            let n = s.pool.len() as int;
            let r = order.len() as int;
            &&& all.len() == m + n + r + 1
            &&& forall|i: int|
                0 <= i < m ==> (#[trigger] all[i] matches NvencRelease::Unmap { encoder, .. }
                    && encoder == s.encoder)
            &&& forall|i: int|
                m <= i < m + n ==> #[trigger] all[i] == (NvencRelease::DestroyBitstream {
                    encoder: s.encoder,
                    output: s.pool[i - m].handle,
                })
            &&& forall|i: int|
                m + n <= i < m + n + r ==> #[trigger] all[i] == (NvencRelease::Unregister {
                    encoder: s.encoder,
                    resource: s.registered[order[i - m - n]].registered_ptr,
                })
            &&& all[m + n + r] == (NvencRelease::DestroyEncoder { encoder: s.encoder })
        }),
        tears_down(s, false, Seq::empty()),
{
    lemma_only_unmaps(s.encoder, s.pool);
    let a = unmap_pool(s.encoder, s.pool);
    let b = destroy_pool(s.encoder, s.pool);
    let c = unregister_all(s, order);
    let all = teardown_of(s, order);
    let m = a.len() as int;
    let n = s.pool.len() as int;
    let r = order.len() as int;
    assert forall|i: int| 0 <= i < m implies #[trigger] all[i] == a[i] by {}
    assert forall|i: int| m <= i < m + n implies #[trigger] all[i] == b[i - m] by {}
    assert forall|i: int| m + n <= i < m + n + r implies #[trigger] all[i] == c[i - m - n] by {}
}

proof fn lemma_only_unmaps(encoder: u64, pool: Seq<BitstreamSlot>)
    ensures
        forall|i: int|
            0 <= i < unmap_pool(encoder, pool).len() ==> (#[trigger] unmap_pool(encoder, pool)[i]
                matches NvencRelease::Unmap { encoder: e, .. } && e == encoder),
    decreases pool.len(),
{
    if pool.len() > 0 {
        lemma_only_unmaps(encoder, pool.drop_last());
        let rest = unmap_pool(encoder, pool.drop_last());
        assert forall|i: int| 0 <= i < unmap_pool(encoder, pool).len() implies (
        #[trigger] unmap_pool(encoder, pool)[i] matches NvencRelease::Unmap { encoder: e, .. } && e
            == encoder) by {
            if i < rest.len() {
                assert(unmap_pool(encoder, pool)[i] == rest[i]);
            }
        }
    }
}

} // verus!
