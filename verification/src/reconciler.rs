use vstd::prelude::*;

use crate::config::MappingStatusStrategy;
use crate::errors::HandlerServiceError;
use crate::mapping::{HandlerMappingView, Mapping};
use crate::supervisor::{spec_start, spec_type_known, HandlerTypesRegistry};

verus! {

/// Boot-time reconciliation: under the `Continue` strategy every registered
/// directory gets one start, each independently of the others.  A directory
/// whose handler type the registry does not know (or which already runs) is
/// skipped with a failed start, never aborting the startup of the rest.
/// The result pairs each directory with whether its handler came up; under
/// any other strategy nothing is touched.
pub fn handle_mapping_strategy(
    strategy: MappingStatusStrategy,
    mapping: &mut Mapping,
    registry: &HandlerTypesRegistry,
) -> (r: Vec<(String, bool)>)
    requires
        old(mapping).wf(),
    ensures
        final(mapping).wf(),
        strategy != MappingStatusStrategy::Continue ==> final(mapping)@ == old(mapping)@
            && r@.len() == 0,
        strategy == MappingStatusStrategy::Continue ==> {
            &&& final(mapping)@.dom() == old(mapping)@.dom()
            &&& forall|k: Seq<char>|
                #[trigger] old(mapping)@.contains_key(k) ==> {
                    let before = old(mapping)@[k];
                    let after = final(mapping)@[k];
                    &&& after.handler_type_name == before.handler_type_name
                    &&& after.handler_config_path == before.handler_config_path
                    &&& after.running == (before.running || registry.spec_contains(
                        before.handler_type_name,
                    ))
                }
            &&& r@.len() == old(mapping).directory_mapping@.len()
            &&& forall|i: int|
                0 <= i < r@.len() ==> {
                    let k = old(mapping).directory_mapping@[i].0@;
                    &&& (#[trigger] r@[i]).0@ == k
                    &&& r@[i].1 == (!old(mapping)@[k].running && registry.spec_contains(
                        old(mapping)@[k].handler_type_name,
                    ))
                }
        },
{
    if !matches!(strategy, MappingStatusStrategy::Continue) {
        return Vec::new();
    }
    let keys = mapping.keys();
    let n = keys.len();
    let ghost m0 = mapping@;
    let ghost entries0 = mapping.directory_mapping@;
    proof {
        assert forall|i: int| 0 <= i < n implies m0.contains_key(#[trigger] keys@[i]@) by {
            crate::mapping::lemma_map_of_index(entries0, i);
        }
    }
    let mut results: Vec<(String, bool)> = Vec::new();
    let mut i: usize = 0;
    while i < n
        invariant
            mapping.wf(),
            n == keys@.len(),
            n == entries0.len(),
            i <= n,
            forall|j: int| 0 <= j < n ==> #[trigger] keys@[j]@ == entries0[j].0@,
            forall|a: int, b: int| 0 <= a < b < n ==> entries0[a].0@ != entries0[b].0@,
            forall|j: int| 0 <= j < n ==> m0.contains_key(#[trigger] keys@[j]@),
            mapping@.dom() == m0.dom(),
            forall|k: Seq<char>|
                #[trigger] m0.contains_key(k) ==> {
                    let before = m0[k];
                    let cur = mapping@[k];
                    &&& cur.handler_type_name == before.handler_type_name
                    &&& cur.handler_config_path == before.handler_config_path
                    &&& cur.running == (before.running || ((exists|j: int|
                        0 <= j < i && #[trigger] keys@[j]@ == k) && registry.spec_contains(
                        before.handler_type_name,
                    )))
                },
            results@.len() == i,
            forall|j: int|
                0 <= j < i ==> {
                    let k = entries0[j].0@;
                    &&& (#[trigger] results@[j]).0@ == k
                    &&& results@[j].1 == (!m0[k].running && registry.spec_contains(
                        m0[k].handler_type_name,
                    ))
                },
        decreases n - i,
    {
        let ghost k = keys@[i as int]@;
        let ghost mcur = mapping@;
        proof {
            assert(m0.contains_key(k));
            assert(!(exists|j: int| 0 <= j < i && #[trigger] keys@[j]@ == k));
            assert(mcur[k].running == m0[k].running);
            assert(mcur[k].handler_type_name == m0[k].handler_type_name);
        }
        let started = match mapping.start_handler(&keys[i], registry) {
            Ok(_) => true,
            Err(_) => false,
        };
        proof {
            let known = spec_type_known(mcur, k, *registry);
            let step = spec_start(mcur, k, known);
            assert(mapping@ == step.0);
            assert(mapping@.dom() =~= m0.dom());
            assert(started == (!m0[k].running && registry.spec_contains(
                m0[k].handler_type_name,
            )));
            assert forall|kk: Seq<char>| #[trigger] m0.contains_key(kk) implies {
                let before = m0[kk];
                let cur = mapping@[kk];
                &&& cur.handler_type_name == before.handler_type_name
                &&& cur.handler_config_path == before.handler_config_path
                &&& cur.running == (before.running || ((exists|j: int|
                    0 <= j < i + 1 && #[trigger] keys@[j]@ == kk) && registry.spec_contains(
                    before.handler_type_name,
                )))
            } by {
                if kk == k {
                    assert(keys@[i as int]@ == kk);
                } else {
                    if exists|j: int| 0 <= j < i + 1 && #[trigger] keys@[j]@ == kk {
                        let j = choose|j: int| 0 <= j < i + 1 && #[trigger] keys@[j]@ == kk;
                        assert(j < i);
                    }
                }
            }
        }
        results.push((keys[i].clone(), started));
        i += 1;
    }
    proof {
        assert forall|k: Seq<char>| #[trigger] m0.contains_key(k) implies {
            let before = m0[k];
            let cur = mapping@[k];
            cur.running == (before.running || registry.spec_contains(before.handler_type_name))
        } by {
            crate::mapping::lemma_map_of_contains(entries0, k);
            let j = choose|j: int| 0 <= j < entries0.len() && entries0[j].0@ == k;
            assert(keys@[j]@ == k);
        }
    }
    results
}

/// Law: under the `Continue` strategy two previously saved directories boot
/// independently: one with a known handler type comes up, one with an
/// unknown type fails with `UnknownHandlerType` and is skipped — the
/// registered set is untouched and the valid directory still runs, so the
/// daemon never aborts over the invalid one.
pub proof fn lemma_continue_startup_skips_unknown(
    m: Map<Seq<char>, HandlerMappingView>,
    valid: Seq<char>,
    invalid: Seq<char>,
)
    requires
        m.contains_key(valid),
        m.contains_key(invalid),
        valid != invalid,
        !m[valid].running,
        !m[invalid].running,
    ensures
        ({
            let first = spec_start(m, valid, true);
            let second = spec_start(first.0, invalid, false);
            &&& first.1 is None
            &&& second.1 == Some(HandlerServiceError::UnknownHandlerType)
            &&& second.0[valid].running
            &&& !second.0[invalid].running
            &&& second.0.dom() == m.dom()
        }),
{
    let first = spec_start(m, valid, true);
    let second = spec_start(first.0, invalid, false);
    assert(second.0.dom() =~= m.dom());
}

} // verus!
