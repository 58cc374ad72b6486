//! Resolving a node's declared slots at startup.
use crate::cardinality::Cardinality;
use crate::config;
use crate::config::{DependsOn, PairingSlotBinding, SimTimeParticipants, SlotDependency, SlotView};
use crate::error::{Error, ErrorView, Result};
use crate::observation;
use crate::observation::{
    MemberView, ObservationState, ObservationView, ObservedMemberState, SourceView,
};
use crate::pairing;
use crate::pairing::{
    PeerInfo, PeerMember, PeerMemberView, PeerSetState, PeerSetView, PeerView,
};
use crate::producer::{BoundProducers, ProducerView};
use crate::sorted_map::SortedMap;
use crate::text;
use crate::text::text_eq;
use vstd::prelude::*;

verus! {

/// The producers bound to each slot, read off their views.
pub open spec fn bound_sets(bindings: Map<Seq<char>, BoundProducers>) -> Map<
    Seq<char>,
    Seq<ProducerView>,
> {
    bindings.map_values(|bound: BoundProducers| bound@)
}

/// The producers that the launch configuration binds to `link_id`; none when it
/// has no entry for the slot.
pub open spec fn bound_to(
    bindings: Map<Seq<char>, Seq<ProducerView>>,
    link_id: Seq<char>,
) -> Seq<ProducerView> {
    if bindings.dom().contains(link_id) {
        bindings[link_id]
    } else {
        Seq::empty()
    }
}

/// Why the slot `slot` cannot be resolved. Only a `zero_or_more` slot may do
/// without an entry, and the size of an entry has to satisfy the cardinality.
pub open spec fn binding_refusal(
    bindings: Map<Seq<char>, Seq<ProducerView>>,
    slot: SlotView,
) -> Option<ErrorView> {
    if !bindings.dom().contains(slot.link_id) && slot.cardinality != Cardinality::ZeroOrMore {
        Some(ErrorView::SlotUnbound { link_id: slot.link_id, cardinality: slot.cardinality })
    } else if !slot.cardinality.spec_admits(bound_to(bindings, slot.link_id).len()) {
        Some(
            ErrorView::SlotCardinalityViolated {
                link_id: slot.link_id,
                cardinality: slot.cardinality,
                bound: bound_to(bindings, slot.link_id).len(),
            },
        )
    } else {
        None
    }
}

/// Whether `slots[at]` is the first of `slots` that cannot be resolved, with
/// `error`.
pub open spec fn first_refused(
    bindings: Map<Seq<char>, Seq<ProducerView>>,
    slots: Seq<SlotView>,
    at: int,
    error: ErrorView,
) -> bool {
    &&& 0 <= at < slots.len()
    &&& binding_refusal(bindings, slots[at]) == Some(error)
    &&& forall|j: int| 0 <= j < at ==> binding_refusal(bindings, #[trigger] slots[j]) is None
}

/// Whether no slot of `slots` is refused.
pub open spec fn all_resolve(
    bindings: Map<Seq<char>, Seq<ProducerView>>,
    slots: Seq<SlotView>,
) -> bool {
    forall|j: int| 0 <= j < slots.len() ==> binding_refusal(bindings, #[trigger] slots[j]) is None
}

/// What the slots `slots` are resolved to.
pub open spec fn resolved_sets(
    bindings: Map<Seq<char>, Seq<ProducerView>>,
    slots: Seq<SlotView>,
) -> Map<Seq<char>, Seq<ProducerView>> {
    Map::new(
        |link_id: Seq<char>| config::declares(slots, link_id),
        |link_id: Seq<char>| bound_to(bindings, link_id),
    )
}

fn resolve_slots(
    slots: &Vec<SlotDependency>,
    bindings: &SortedMap<BoundProducers>,
    resolved: &mut SortedMap<BoundProducers>,
    Ghost(before): Ghost<Seq<SlotView>>,
) -> (outcome: Result<()>)
    requires
        bound_sets(old(resolved)@) == resolved_sets(bound_sets(bindings@), before),
        all_resolve(bound_sets(bindings@), before),
    ensures
        match outcome {
            Ok(_) => {
                &&& bound_sets(final(resolved)@) == resolved_sets(
                    bound_sets(bindings@),
                    before + config::slot_views(slots@),
                )
                &&& all_resolve(bound_sets(bindings@), before + config::slot_views(slots@))
            },
            Err(error) => exists|at: int|
                before.len() <= at && #[trigger] first_refused(
                    bound_sets(bindings@),
                    before + config::slot_views(slots@),
                    at,
                    error@,
                ),
        },
{
    let ghost all = before + config::slot_views(slots@);
    let ghost sets = bound_sets(bindings@);
    let mut i: usize = 0;
    proof {
        assert(all.take(before.len() as int) =~= before);
    }
    while i < slots.len()
        invariant
            i <= slots@.len(),
            all == before + config::slot_views(slots@),
            sets == bound_sets(bindings@),
            bound_sets(resolved@) == resolved_sets(sets, all.take(before.len() + i)),
            all_resolve(sets, all.take(before.len() + i)),
        decreases slots@.len() - i,
    {
        let slot = &slots[i];
        let ghost at = before.len() + i;
        proof {
            assert(all[at] == slot@);
            assert forall|j: int| 0 <= j < at implies binding_refusal(sets, #[trigger] all[j]) is None by {
                assert(all.take(at)[j] == all[j]);
            }
        }
        let bound: BoundProducers = match bindings.get(slot.link_id.as_str()) {
            Some(bound) => bound.clone(),
            None => {
                if !slot.cardinality.allows_empty() {
                    let error = Error::SlotUnbound {
                        link_id: slot.link_id.clone(),
                        cardinality: slot.cardinality,
                    };
                    proof {
                        assert(first_refused(sets, all, at, error@));
                    }
                    return Err(error);
                }
                BoundProducers::empty()
            },
        };
        proof {
            assert(bound@ == bound_to(sets, slot.link_id@));
        }
        let size: usize = bound.len();
        if !slot.cardinality.admits(size) {
            let error = Error::SlotCardinalityViolated {
                link_id: slot.link_id.clone(),
                cardinality: slot.cardinality,
                bound: size,
            };
            proof {
                assert(first_refused(sets, all, at, error@));
            }
            return Err(error);
        }
        let ghost earlier = resolved@;
        let ghost set = bound;
        resolved.insert(slot.link_id.clone(), bound);
        proof {
            let shorter = all.take(at);
            let longer = all.take(at + 1);
            lemma_declares_one_more(all, at);
            assert(bound_sets(earlier.insert(slot.link_id@, set)) =~= bound_sets(earlier).insert(
                slot.link_id@,
                set@,
            ));
            assert(bound_sets(resolved@) =~= resolved_sets(sets, longer)) by {
                assert forall|link_id: Seq<char>| #[trigger]
                    bound_sets(resolved@).dom().contains(link_id) <==> config::declares(
                        longer,
                        link_id,
                    ) by {
                    assert(bound_sets(earlier).dom().contains(link_id) <==> config::declares(
                        shorter,
                        link_id,
                    ));
                }
            }
            assert(all_resolve(sets, longer)) by {
                assert forall|j: int| 0 <= j < longer.len() implies binding_refusal(
                    sets,
                    #[trigger] longer[j],
                ) is None by {
                    assert(longer[j] == all[j]);
                }
            }
        }
        i = i + 1;
    }
    proof {
        assert(all.take((before.len() + slots@.len()) as int) =~= all);
    }
    Ok(())
}

proof fn lemma_declares_one_more(slots: Seq<SlotView>, at: int)
    requires
        0 <= at < slots.len(),
    ensures
        forall|link_id: Seq<char>|
            config::declares(slots.take(at + 1), link_id) <==> (config::declares(
                slots.take(at),
                link_id,
            ) || link_id == slots[at].link_id),
{
    let shorter = slots.take(at);
    let longer = slots.take(at + 1);
    assert(longer[at] == slots[at]);
    assert forall|link_id: Seq<char>|
        config::declares(longer, link_id) <==> (config::declares(shorter, link_id) || link_id
            == slots[at].link_id) by {
        if config::declares(longer, link_id) && link_id != slots[at].link_id {
            let k = choose|k: int| 0 <= k < longer.len() && (#[trigger] longer[k]).link_id == link_id;
            assert(shorter[k].link_id == link_id);
        }
        if config::declares(shorter, link_id) {
            let k = choose|k: int| 0 <= k < shorter.len() && (#[trigger] shorter[k]).link_id == link_id;
            assert(longer[k].link_id == link_id);
        }
    }
}

/// Resolves every consumer slot to its bound producers: slots on nodes first, then
/// slots on contracts. The first slot whose entry is missing or has a size that
/// its cardinality forbids stops the node from starting.
pub fn build_bound_producers(bindings: &SortedMap<BoundProducers>, deps: &DependsOn) -> (resolved:
    Result<SortedMap<BoundProducers>>)
    ensures
        resolved is Ok <==> all_resolve(bound_sets(bindings@), deps.consumer_slots()),
        match resolved {
            Ok(resolved) => bound_sets(resolved@) == resolved_sets(
                bound_sets(bindings@),
                deps.consumer_slots(),
            ),
            Err(error) => exists|at: int| #[trigger]
                first_refused(bound_sets(bindings@), deps.consumer_slots(), at, error@),
        },
{
    let mut resolved: SortedMap<BoundProducers> = SortedMap::new();
    let ghost nothing = Seq::<SlotView>::empty();
    let ghost nodes = config::slot_views(deps.nodes@);
    let ghost sets = bound_sets(bindings@);
    let ghost slots = deps.consumer_slots();
    proof {
        assert(nothing + nodes =~= nodes);
        assert(bound_sets(resolved@) =~= resolved_sets(sets, nothing));
    }
    match resolve_slots(&deps.nodes, bindings, &mut resolved, Ghost(nothing)) {
        Err(error) => {
            proof {
                let at = choose|at: int|
                    nothing.len() <= at && #[trigger] first_refused(
                        sets,
                        nothing + nodes,
                        at,
                        error@,
                    );
                assert(slots[at] == nodes[at]);
                assert forall|j: int| 0 <= j < at implies binding_refusal(
                    sets,
                    #[trigger] slots[j],
                ) is None by {
                    assert(slots[j] == nodes[j]);
                }
                assert(first_refused(sets, slots, at, error@));
            }
            return Err(error);
        },
        Ok(_) => {},
    }
    match resolve_slots(&deps.contracts, bindings, &mut resolved, Ghost(nodes)) {
        Err(error) => {
            proof {
                let at = choose|at: int|
                    nodes.len() <= at && #[trigger] first_refused(sets, slots, at, error@);
                assert(binding_refusal(sets, slots[at]) is Some);
            }
            Err(error)
        },
        Ok(_) => Ok(resolved),
    }
}

/// A slot that startup accepted holds a set its cardinality admits, so the
/// accessor of that cardinality always finds what it expects.
pub proof fn law_resolved_sets_fit_their_slots(
    bindings: Map<Seq<char>, Seq<ProducerView>>,
    slots: Seq<SlotView>,
    at: int,
)
    requires
        all_resolve(bindings, slots),
        0 <= at < slots.len(),
    ensures
        resolved_sets(bindings, slots).dom().contains(slots[at].link_id),
        slots[at].cardinality.spec_admits(
            resolved_sets(bindings, slots)[slots[at].link_id].len(),
        ),
{
    assert(config::declares(slots, slots[at].link_id));
    assert(binding_refusal(bindings, slots[at]) is None);
}

/// The cardinality that each declared slot has. Of two declarations of one slot
/// the later counts.
pub open spec fn declared_cardinalities(slots: Seq<SlotView>) -> Map<Seq<char>, Cardinality>
    decreases slots.len(),
{
    if slots.len() == 0 {
        Map::empty()
    } else {
        declared_cardinalities(slots.drop_last()).insert(
            slots.last().link_id,
            slots.last().cardinality,
        )
    }
}

/// Lists the declared cardinality of each slot.
pub fn build_cardinalities(slots: &Vec<SlotDependency>) -> (cardinalities: SortedMap<Cardinality>)
    ensures
        cardinalities@ == declared_cardinalities(config::slot_views(slots@)),
{
    let mut cardinalities: SortedMap<Cardinality> = SortedMap::new();
    let ghost all = config::slot_views(slots@);
    let mut i: usize = 0;
    proof {
        assert(all.take(0).len() == 0);
    }
    while i < slots.len()
        invariant
            i <= slots@.len(),
            all == config::slot_views(slots@),
            cardinalities@ == declared_cardinalities(all.take(i as int)),
        decreases slots@.len() - i,
    {
        cardinalities.insert(slots[i].link_id.clone(), slots[i].cardinality);
        proof {
            assert(all.take(i + 1).drop_last() =~= all.take(i as int));
            assert(all.take(i + 1).last() == slots@[i as int]@);
        }
        i = i + 1;
    }
    proof {
        assert(all.take(i as int) =~= all);
    }
    cardinalities
}

/// The members seeded to each slot, read off their views.
pub open spec fn seed_sets(seeds: Map<Seq<char>, Vec<ObservedMemberState>>) -> Map<
    Seq<char>,
    Seq<MemberView>,
> {
    seeds.map_values(|members: Vec<ObservedMemberState>| observation::member_views(members@))
}

/// The members that the launch configuration seeds the observer slot `link_id`
/// with; none when it has no entry for the slot.
pub open spec fn seeded_for(
    seeds: Map<Seq<char>, Seq<MemberView>>,
    link_id: Seq<char>,
) -> Seq<MemberView> {
    if seeds.dom().contains(link_id) {
        seeds[link_id]
    } else {
        Seq::empty()
    }
}

/// The sources of a sequence of members.
pub open spec fn sources_of(members: Seq<MemberView>) -> Seq<SourceView> {
    members.map_values(|member: MemberView| member.source)
}

/// Whether `members[at]` is the first to repeat an earlier member's source.
pub open spec fn first_repeated_source(members: Seq<MemberView>, at: int) -> bool {
    &&& 0 <= at < members.len()
    &&& sources_of(members).take(at).no_duplicates()
    &&& sources_of(members).take(at).contains(members[at].source)
}

/// Whether a seed with `members` fits a slot of this cardinality.
pub open spec fn seed_fits(cardinality: Cardinality, members: Seq<MemberView>) -> bool {
    sources_of(members).no_duplicates() && cardinality.spec_admits(members.len())
}

/// Whether a seed with `members` is refused with `error`: a repeated source is
/// named, else the size is at fault.
pub open spec fn seed_refused(
    link_id: Seq<char>,
    cardinality: Cardinality,
    members: Seq<MemberView>,
    error: ErrorView,
) -> bool {
    ||| exists|at: int| #[trigger]
        first_repeated_source(members, at) && error == (ErrorView::ObservationSeedDuplicate {
            link_id,
            core_node: members[at].source.producer.core_node,
            instance_id: members[at].source.producer.instance_id,
            source_link_id: members[at].source.source_link_id,
        })
    ||| {
        &&& sources_of(members).no_duplicates()
        &&& !cardinality.spec_admits(members.len())
        &&& error == (ErrorView::ObservationSeedViolated {
            link_id,
            cardinality,
            seeded: members.len(),
        })
    }
}

fn copy_members(members: &Vec<ObservedMemberState>) -> (copies: Vec<ObservedMemberState>)
    ensures
        observation::member_views(copies@) == observation::member_views(members@),
{
    let mut copies: Vec<ObservedMemberState> = Vec::new();
    let mut i: usize = 0;
    while i < members.len()
        invariant
            i <= members@.len(),
            copies@.len() == i,
            forall|j: int| 0 <= j < i ==> (#[trigger] copies@[j])@ == members@[j]@,
        decreases members@.len() - i,
    {
        copies.push(members[i].clone());
        i = i + 1;
    }
    proof {
        assert(observation::member_views(copies@) =~= observation::member_views(members@));
    }
    copies
}

/// Checks the seed of one observer slot.
pub fn check_seed(link_id: &str, cardinality: Cardinality, members: &Vec<ObservedMemberState>) -> (checked:
    Result<()>)
    ensures
        match checked {
            Ok(_) => seed_fits(cardinality, observation::member_views(members@)),
            Err(error) => seed_refused(
                link_id@,
                cardinality,
                observation::member_views(members@),
                error@,
            ),
        },
{
    let ghost views = observation::member_views(members@);
    let ghost sources = sources_of(views);
    let mut i: usize = 0;
    while i < members.len()
        invariant
            i <= members@.len(),
            views == observation::member_views(members@),
            sources == sources_of(views),
            sources.take(i as int).no_duplicates(),
        decreases members@.len() - i,
    {
        let mut j: usize = 0;
        while j < i
            invariant
                j <= i < members@.len(),
                views == observation::member_views(members@),
                sources == sources_of(views),
                sources.take(i as int).no_duplicates(),
                forall|k: int| 0 <= k < j ==> (#[trigger] members@[k]).source@ != members@[i as int].source@,
            decreases i - j,
        {
            if members[j].source.same_as(&members[i].source) {
                proof {
                    assert(sources.take(i as int)[j as int] == sources[i as int]);
                    assert(first_repeated_source(views, i as int));
                }
                return Err(
                    Error::ObservationSeedDuplicate {
                        link_id: link_id.to_owned(),
                        core_node: members[i].source.producer.core_node.clone(),
                        instance_id: members[i].source.producer.instance_id.clone(),
                        source_link_id: members[i].source.source_link_id.clone(),
                    },
                );
            }
            j = j + 1;
        }
        proof {
            let next = sources.take(i + 1);
            assert forall|a: int, b: int|
                0 <= a < next.len() && 0 <= b < next.len() && a != b implies next[a] != next[b] by {
                if a < i && b < i {
                    assert(sources.take(i as int)[a] != sources.take(i as int)[b]);
                } else if a < i {
                    assert(members@[a].source@ != members@[i as int].source@);
                } else {
                    assert(members@[b].source@ != members@[i as int].source@);
                }
            }
        }
        i = i + 1;
    }
    proof {
        assert(sources.take(i as int) =~= sources);
    }
    let size: usize = members.len();
    if !cardinality.admits(size) {
        return Err(
            Error::ObservationSeedViolated { link_id: link_id.to_owned(), cardinality, seeded: size },
        );
    }
    Ok(())
}

/// Whether `link_id` is the first seeded slot, in key order, that is not declared.
pub open spec fn first_undeclared(
    seeds: Map<Seq<char>, Seq<MemberView>>,
    declared: Map<Seq<char>, Cardinality>,
    link_id: Seq<char>,
) -> bool {
    &&& seeds.dom().contains(link_id)
    &&& !declared.dom().contains(link_id)
    &&& forall|other: Seq<char>| #[trigger]
        seeds.dom().contains(other) && text::text_less(other, link_id) ==> declared.dom().contains(
            other,
        )
}

/// Whether every seeded slot is declared.
pub open spec fn all_declared(
    seeds: Map<Seq<char>, Seq<MemberView>>,
    declared: Map<Seq<char>, Cardinality>,
) -> bool {
    forall|link_id: Seq<char>| #[trigger]
        seeds.dom().contains(link_id) ==> declared.dom().contains(link_id)
}

/// Whether `link_id` is the first declared slot, in key order, whose seed is
/// refused, with `error`.
pub open spec fn first_bad_seed(
    seeds: Map<Seq<char>, Seq<MemberView>>,
    declared: Map<Seq<char>, Cardinality>,
    link_id: Seq<char>,
    error: ErrorView,
) -> bool {
    &&& declared.dom().contains(link_id)
    &&& seed_refused(link_id, declared[link_id], seeded_for(seeds, link_id), error)
    &&& forall|other: Seq<char>| #[trigger]
        declared.dom().contains(other) && text::text_less(other, link_id) ==> seed_fits(
            declared[other],
            seeded_for(seeds, other),
        )
}

/// Whether every declared slot's seed fits it.
pub open spec fn all_fit(
    seeds: Map<Seq<char>, Seq<MemberView>>,
    declared: Map<Seq<char>, Cardinality>,
) -> bool {
    forall|link_id: Seq<char>| #[trigger]
        declared.dom().contains(link_id) ==> seed_fits(
            declared[link_id],
            seeded_for(seeds, link_id),
        )
}

/// Whether the seeds stop the node from starting, with `error`: a seed for an
/// undeclared slot comes first, then the first seed that does not fit.
pub open spec fn seeds_refused(
    seeds: Map<Seq<char>, Seq<MemberView>>,
    declared: Map<Seq<char>, Cardinality>,
    error: ErrorView,
) -> bool {
    if all_declared(seeds, declared) {
        exists|link_id: Seq<char>| #[trigger] first_bad_seed(seeds, declared, link_id, error)
    } else {
        exists|link_id: Seq<char>| #[trigger]
            first_undeclared(seeds, declared, link_id) && error
                == (ErrorView::ObservationSeedUndeclared { link_id })
    }
}

/// The states of observer slots, read off their views.
pub open spec fn observation_states(slots: Map<Seq<char>, ObservationState>) -> Map<
    Seq<char>,
    ObservationView,
> {
    slots.map_values(|state: ObservationState| state@)
}

/// The states that the declared observer slots boot with: their seeds, at sequence
/// zero.
pub open spec fn boot_observations(
    seeds: Map<Seq<char>, Seq<MemberView>>,
    declared: Map<Seq<char>, Cardinality>,
) -> Map<Seq<char>, ObservationView> {
    Map::new(
        |link_id: Seq<char>| declared.dom().contains(link_id),
        |link_id: Seq<char>|
            ObservationView { sequence: 0, members: seeded_for(seeds, link_id) },
    )
}

pub proof fn lemma_earlier_key<V>(map: &SortedMap<V>, at: int, other: Seq<char>)
    requires
        map.keys_listed(),
        0 <= at < map.keys().len(),
        map@.dom().contains(other),
        text::text_less(other, map.keys()[at]),
    ensures
        exists|j: int| 0 <= j < at && #[trigger] map.keys()[j] == other,
{
    let j = choose|j: int| 0 <= j < map.keys().len() && map.keys()[j] == other;
    text::lemma_text_total(other, map.keys()[at]);
    if at < j {
        assert(text::text_less(map.keys()[at], map.keys()[j]));
    }
}

/// Seeds every declared observer slot. A seed for a slot that the manifest does
/// not declare, a seed that repeats a source and a seed whose size the slot's
/// cardinality forbids stop the node from starting; a missing seed is an empty
/// one.
pub fn build_observation_slots(
    seeds: &SortedMap<Vec<ObservedMemberState>>,
    cardinalities: &SortedMap<Cardinality>,
) -> (slots: Result<SortedMap<ObservationState>>)
    ensures
        slots is Ok <==> all_declared(seed_sets(seeds@), cardinalities@) && all_fit(
            seed_sets(seeds@),
            cardinalities@,
        ),
        match slots {
            Ok(slots) => observation_states(slots@) == boot_observations(
                seed_sets(seeds@),
                cardinalities@,
            ),
            Err(error) => seeds_refused(seed_sets(seeds@), cardinalities@, error@),
        },
{
    let ghost sets = seed_sets(seeds@);
    let seed_count: usize = seeds.len();
    let slot_count: usize = cardinalities.len();
    let mut i: usize = 0;
    while i < seed_count
        invariant
            sets == seed_sets(seeds@),
            seed_count == seeds.keys().len(),
            slot_count == cardinalities.keys().len(),
            i <= seed_count,
            seeds.keys_listed(),
            cardinalities.keys_listed(),
            forall|j: int| 0 <= j < i ==> cardinalities@.dom().contains(#[trigger] seeds.keys()[j]),
        decreases seed_count - i,
    {
        let key = seeds.key_at(i);
        if !cardinalities.contains_key(key.as_str()) {
            let error = Error::ObservationSeedUndeclared { link_id: key.clone() };
            proof {
                assert forall|other: Seq<char>| #[trigger]
                    sets.dom().contains(other) && text::text_less(
                        other,
                        key@,
                    ) implies cardinalities@.dom().contains(other) by {
                    lemma_earlier_key(seeds, i as int, other);
                    let j = choose|j: int| 0 <= j < i && #[trigger] seeds.keys()[j] == other;
                    assert(cardinalities@.dom().contains(seeds.keys()[j]));
                }
                assert(sets.dom().contains(key@));
                assert(first_undeclared(sets, cardinalities@, key@));
            }
            return Err(error);
        }
        i = i + 1;
    }
    proof {
        assert forall|link_id: Seq<char>| #[trigger]
            sets.dom().contains(link_id) implies cardinalities@.dom().contains(link_id) by {
            assert(seeds@.dom().contains(link_id));
            let k = choose|k: int| 0 <= k < seeds.keys().len() && seeds.keys()[k] == link_id;
            assert(cardinalities@.dom().contains(seeds.keys()[k]));
        }
    }
    let mut slots: SortedMap<ObservationState> = SortedMap::new();
    let ghost keys = cardinalities.keys();
    let mut n: usize = 0;
    while n < slot_count
        invariant
            sets == seed_sets(seeds@),
            slot_count == keys.len(),
            keys == cardinalities.keys(),
            n <= slot_count,
            cardinalities.keys_listed(),
            all_declared(sets, cardinalities@),
            forall|link_id: Seq<char>| #[trigger]
                slots@.dom().contains(link_id) <==> keys.take(n as int).contains(link_id),
            forall|j: int|
                0 <= j < n ==> seed_fits(
                    cardinalities@[#[trigger] keys[j]],
                    seeded_for(sets, keys[j]),
                ) && slots@[keys[j]]@ == (ObservationView {
                    sequence: 0,
                    members: seeded_for(sets, keys[j]),
                }),
        decreases slot_count - n,
    {
        let key = cardinalities.key_at(n);
        let cardinality: Cardinality = *cardinalities.value_at(n);
        let members: Vec<ObservedMemberState> = match seeds.get(key.as_str()) {
            Some(seeded) => copy_members(seeded),
            None => Vec::new(),
        };
        proof {
            assert(observation::member_views(members@) =~= seeded_for(sets, key@));
        }
        if let Err(error) = check_seed(key.as_str(), cardinality, &members) {
            proof {
                assert forall|other: Seq<char>| #[trigger]
                    cardinalities@.dom().contains(other) && text::text_less(
                        other,
                        key@,
                    ) implies seed_fits(cardinalities@[other], seeded_for(sets, other)) by {
                    lemma_earlier_key(cardinalities, n as int, other);
                    let j = choose|j: int| 0 <= j < n && #[trigger] cardinalities.keys()[j] == other;
                    assert(keys[j] == other);
                }
                assert(first_bad_seed(sets, cardinalities@, key@, error@));
                lemma_refused_does_not_fit(key@, cardinality, seeded_for(sets, key@), error@);
            }
            return Err(error);
        }
        let state = ObservationState::seeded(members);
        let ghost boot = state;
        let ghost earlier = slots@;
        slots.insert(key.clone(), state);
        proof {
            assert(slots@ =~= earlier.insert(key@, boot));
            let shorter = keys.take(n as int);
            let longer = keys.take(n + 1);
            assert(longer[n as int] == key@);
            assert forall|link_id: Seq<char>| #[trigger]
                slots@.dom().contains(link_id) <==> longer.contains(link_id) by {
                if link_id != key@ {
                    if longer.contains(link_id) {
                        let k = choose|k: int| 0 <= k < longer.len() && longer[k] == link_id;
                        assert(shorter[k] == link_id);
                    }
                    if shorter.contains(link_id) {
                        let k = choose|k: int| 0 <= k < shorter.len() && shorter[k] == link_id;
                        assert(longer[k] == link_id);
                    }
                }
            }
            assert forall|j: int| 0 <= j < n + 1 implies seed_fits(
                cardinalities@[#[trigger] keys[j]],
                seeded_for(sets, keys[j]),
            ) && slots@[keys[j]]@ == (ObservationView {
                sequence: 0,
                members: seeded_for(sets, keys[j]),
            }) by {
                if j < n {
                    text::lemma_text_total(keys[j], keys[n as int]);
                }
            }
        }
        n = n + 1;
    }
    proof {
        assert(keys.take(n as int) =~= keys);
        assert forall|link_id: Seq<char>| #[trigger]
            cardinalities@.dom().contains(link_id) implies seed_fits(
            cardinalities@[link_id],
            seeded_for(sets, link_id),
        ) by {
            let k = choose|k: int| 0 <= k < keys.len() && keys[k] == link_id;
            assert(keys[k] == link_id);
        }
        let states = observation_states(slots@);
        let boots = boot_observations(sets, cardinalities@);
        assert forall|link_id: Seq<char>| #[trigger] states.dom().contains(link_id) <==> #[trigger]
            boots.dom().contains(link_id) by {
            if slots@.dom().contains(link_id) {
                let k = choose|k: int| 0 <= k < keys.len() && keys[k] == link_id;
                assert(cardinalities@.dom().contains(keys[k]));
            }
            if cardinalities@.dom().contains(link_id) {
                assert(keys.contains(link_id));
            }
        }
        assert forall|link_id: Seq<char>| #[trigger]
            states.dom().contains(link_id) implies states[link_id] == boots[link_id] by {
            let k = choose|k: int| 0 <= k < keys.len() && keys[k] == link_id;
            assert(slots@[keys[k]]@.members == seeded_for(sets, keys[k]));
        }
        assert(states =~= boots);
    }
    Ok(slots)
}

proof fn lemma_refused_does_not_fit(
    link_id: Seq<char>,
    cardinality: Cardinality,
    members: Seq<MemberView>,
    error: ErrorView,
)
    requires
        seed_refused(link_id, cardinality, members, error),
    ensures
        !seed_fits(cardinality, members),
{
    if sources_of(members).no_duplicates() && cardinality.spec_admits(members.len()) {
        let sources = sources_of(members);
        let at = choose|at: int| #[trigger]
            first_repeated_source(members, at) && error == (ErrorView::ObservationSeedDuplicate {
                link_id,
                core_node: members[at].source.producer.core_node,
                instance_id: members[at].source.producer.instance_id,
                source_link_id: members[at].source.source_link_id,
            });
        let k = choose|k: int| 0 <= k < at && sources.take(at)[k] == members[at].source;
        assert(sources[k] == sources[at]);
    }
}

/// The pairs that a pairing slot starts with.
pub open spec fn initial_pairs(
    bindings: Map<Seq<char>, PairingSlotBinding>,
    link_id: Seq<char>,
) -> Seq<PeerMemberView> {
    if bindings.dom().contains(link_id) {
        match bindings[link_id] {
            PairingSlotBinding::Paired { peer, peer_link_id } => seq![
                PeerMemberView {
                    info: PeerView { producer: peer@, peer_link_id: peer_link_id@ },
                    copy: None,
                },
            ],
            PairingSlotBinding::Unpaired => Seq::empty(),
        }
    } else {
        Seq::empty()
    }
}

/// The states of pairing slots, read off their views.
pub open spec fn pairing_states(slots: Map<Seq<char>, PeerSetState>) -> Map<Seq<char>, PeerSetView> {
    slots.map_values(|state: PeerSetState| state@)
}

/// The states that the declared pairing slots boot with, at sequence zero.
pub open spec fn boot_pairings(
    bindings: Map<Seq<char>, PairingSlotBinding>,
    declared: Seq<SlotView>,
) -> Map<Seq<char>, PeerSetView> {
    Map::new(
        |link_id: Seq<char>| config::declares(declared, link_id),
        |link_id: Seq<char>|
            PeerSetView { sequence: 0, members: initial_pairs(bindings, link_id) },
    )
}

/// Starts every declared pairing slot with the pair that the launch configuration
/// gives it, or unpaired.
pub fn build_pairing_slots(
    bindings: &SortedMap<PairingSlotBinding>,
    declared: &Vec<SlotDependency>,
) -> (slots: SortedMap<PeerSetState>)
    ensures
        pairing_states(slots@) == boot_pairings(bindings@, config::slot_views(declared@)),
{
    let mut slots: SortedMap<PeerSetState> = SortedMap::new();
    let ghost all = config::slot_views(declared@);
    let mut i: usize = 0;
    proof {
        assert(pairing_states(slots@) =~= boot_pairings(bindings@, all.take(0)));
    }
    while i < declared.len()
        invariant
            i <= declared@.len(),
            all == config::slot_views(declared@),
            pairing_states(slots@) == boot_pairings(bindings@, all.take(i as int)),
        decreases declared@.len() - i,
    {
        let link_id = &declared[i].link_id;
        let mut members: Vec<PeerMember> = Vec::new();
        if let Some(PairingSlotBinding::Paired { peer, peer_link_id }) = bindings.get(link_id.as_str()) {
            members.push(
                PeerMember {
                    info: PeerInfo {
                        producer: peer.clone(),
                        peer_link_id: peer_link_id.clone(),
                    },
                    copy: None,
                },
            );
        }
        proof {
            assert(pairing::peer_member_views(members@) =~= initial_pairs(bindings@, link_id@));
        }
        let state = PeerSetState::seeded(members);
        let ghost boot = state;
        let ghost earlier = slots@;
        slots.insert(link_id.clone(), state);
        proof {
            lemma_declares_one_more(all, i as int);
            assert(pairing_states(earlier.insert(link_id@, boot)) =~= pairing_states(
                earlier,
            ).insert(link_id@, boot@));
            assert forall|name: Seq<char>| #[trigger]
                pairing_states(slots@).dom().contains(name) <==> config::declares(
                    all.take(i + 1),
                    name,
                ) by {
                assert(pairing_states(earlier).dom().contains(name) <==> config::declares(
                    all.take(i as int),
                    name,
                ));
            }
            assert(pairing_states(slots@) =~= boot_pairings(bindings@, all.take(i + 1)));
        }
        i = i + 1;
    }
    proof {
        assert(all.take(i as int) =~= all);
    }
    slots
}

/// Whether `names[at]` is the first to repeat an earlier name.
pub open spec fn first_repeated_name(names: Seq<Seq<char>>, at: int) -> bool {
    &&& 0 <= at < names.len()
    &&& names.take(at).no_duplicates()
    &&& names.take(at).contains(names[at])
}

/// Whether `verdicts[at]` is the first that refuses a name.
pub open spec fn first_invalid(verdicts: Seq<std::result::Result<(), String>>, at: int) -> bool {
    &&& 0 <= at < verdicts.len()
    &&& verdicts[at] is Err
    &&& forall|j: int| 0 <= j < at ==> (#[trigger] verdicts[j]) is Ok
}

/// Resolves the core nodes that a standalone node publishes simulated time to. No
/// core node means that it is no source; else every one has to have a valid name,
/// according to `verdicts`, and none may occur twice.
pub fn standalone_sim_time_source(
    core_nodes: &Vec<String>,
    verdicts: &Vec<std::result::Result<(), String>>,
) -> (source: Result<Option<SimTimeParticipants>>)
    requires
        verdicts@.len() == core_nodes@.len(),
    ensures
        match source {
            Ok(None) => core_nodes@.len() == 0,
            Ok(Some(participants)) => {
                &&& core_nodes@.len() > 0
                &&& forall|j: int| 0 <= j < verdicts@.len() ==> (#[trigger] verdicts@[j]) is Ok
                &&& text::texts(core_nodes@).no_duplicates()
                &&& text::texts(participants.core_nodes@) == text::texts(core_nodes@)
            },
            Err(error) => {
                ||| exists|at: int| #[trigger]
                    first_invalid(verdicts@, at) && error@ == (ErrorView::InvalidCoreNodeName {
                        node_name: core_nodes@[at]@,
                        reason: verdicts@[at]->Err_0@,
                    })
                ||| {
                    &&& forall|j: int| 0 <= j < verdicts@.len() ==> (#[trigger] verdicts@[j]) is Ok
                    &&& exists|at: int| #[trigger]
                        first_repeated_name(text::texts(core_nodes@), at) && error@
                            == (ErrorView::DuplicateSimTimeParticipant {
                            core_node: core_nodes@[at]@,
                        })
                }
            },
        },
{
    if core_nodes.len() == 0 {
        return Ok(None);
    }
    let ghost names = text::texts(core_nodes@);
    let mut i: usize = 0;
    while i < verdicts.len()
        invariant
            verdicts@.len() == core_nodes@.len(),
            i <= verdicts@.len(),
            forall|j: int| 0 <= j < i ==> (#[trigger] verdicts@[j]) is Ok,
        decreases verdicts@.len() - i,
    {
        if let Err(reason) = &verdicts[i] {
            proof {
                assert(first_invalid(verdicts@, i as int));
            }
            return Err(
                Error::InvalidCoreNodeName {
                    node_name: core_nodes[i].clone(),
                    reason: reason.clone(),
                },
            );
        }
        i = i + 1;
    }
    let mut participants: Vec<String> = Vec::new();
    let mut n: usize = 0;
    while n < core_nodes.len()
        invariant
            n <= core_nodes@.len(),
            names == text::texts(core_nodes@),
            forall|j: int| 0 <= j < verdicts@.len() ==> (#[trigger] verdicts@[j]) is Ok,
            names.take(n as int).no_duplicates(),
            participants@.len() == n,
            forall|k: int| 0 <= k < n ==> (#[trigger] participants@[k])@ == core_nodes@[k]@,
        decreases core_nodes@.len() - n,
    {
        let mut j: usize = 0;
        while j < n
            invariant
                j <= n < core_nodes@.len(),
                names == text::texts(core_nodes@),
                forall|k: int| 0 <= k < verdicts@.len() ==> (#[trigger] verdicts@[k]) is Ok,
                names.take(n as int).no_duplicates(),
                forall|k: int| 0 <= k < j ==> (#[trigger] core_nodes@[k])@ != core_nodes@[n as int]@,
            decreases n - j,
        {
            if text_eq(core_nodes[j].as_str(), core_nodes[n].as_str()) {
                proof {
                    assert(names.take(n as int)[j as int] == names[n as int]);
                    assert(first_repeated_name(names, n as int));
                }
                return Err(
                    Error::DuplicateSimTimeParticipant { core_node: core_nodes[n].clone() },
                );
            }
            j = j + 1;
        }
        participants.push(core_nodes[n].clone());
        proof {
            let next = names.take(n + 1);
            assert forall|a: int, b: int|
                0 <= a < next.len() && 0 <= b < next.len() && a != b implies next[a] != next[b] by {
                if a < n && b < n {
                    assert(names.take(n as int)[a] != names.take(n as int)[b]);
                } else if a < n {
                    assert(core_nodes@[a]@ != core_nodes@[n as int]@);
                } else {
                    assert(core_nodes@[b]@ != core_nodes@[n as int]@);
                }
            }
        }
        n = n + 1;
    }
    proof {
        assert(names.take(n as int) =~= names);
        assert(text::texts(participants@) =~= names);
    }
    Ok(Some(SimTimeParticipants { core_nodes: participants }))
}

/// A slot is refused for one of two reasons. It is unbound when nothing is said of it
/// and it may not be left open; else it is bound to too few or too many producers for
/// its cardinality. The error names the slot, what it admits and what it got.
pub proof fn law_slot_is_refused_for_its_size(
    bindings: Map<Seq<char>, Seq<ProducerView>>,
    slot: SlotView,
)
    ensures
        ({
            let said = bindings.dom().contains(slot.link_id);
            let size = if said {
                bindings[slot.link_id].len()
            } else {
                0
            };
            let fits = match slot.cardinality {
                Cardinality::One => size == 1,
                Cardinality::ZeroOrOne => size == 0 || size == 1,
                Cardinality::OneOrMore => size != 0,
                Cardinality::ZeroOrMore => true,
            };
            let open = slot.cardinality == Cardinality::ZeroOrMore;
            match binding_refusal(bindings, slot) {
                None => (said || open) && fits,
                Some(error) => if !said && !open {
                    error == (ErrorView::SlotUnbound {
                        link_id: slot.link_id,
                        cardinality: slot.cardinality,
                    })
                } else {
                    !fits && error == (ErrorView::SlotCardinalityViolated {
                        link_id: slot.link_id,
                        cardinality: slot.cardinality,
                        bound: size,
                    })
                },
            }
        }),
{
}

/// The slots of a node resolve when none of them is refused, and otherwise the first
/// one that is refused, in the order in which they are declared, is reported.
pub proof fn law_first_refused_slot_is_reported(
    bindings: Map<Seq<char>, Seq<ProducerView>>,
    slots: Seq<SlotView>,
    at: int,
    other: int,
    error: ErrorView,
)
    requires
        first_refused(bindings, slots, at, error),
    ensures
        0 <= at < slots.len(),
        binding_refusal(bindings, slots[at]) == Some(error),
        0 <= other < at ==> binding_refusal(bindings, slots[other]) is None,
        !all_resolve(bindings, slots),
{
    if 0 <= other < at {
        assert(binding_refusal(bindings, slots[other]) is None);
    }
    assert(binding_refusal(bindings, slots[at]) is Some);
}

/// A node's slots resolve only when each of them does.
pub proof fn law_every_slot_resolves(
    bindings: Map<Seq<char>, Seq<ProducerView>>,
    slots: Seq<SlotView>,
    at: int,
)
    requires
        0 <= at < slots.len(),
    ensures
        all_resolve(bindings, slots) ==> binding_refusal(bindings, slots[at]) is None,
        !all_resolve(bindings, slots) ==> exists|j: int|
            0 <= j < slots.len() && binding_refusal(bindings, #[trigger] slots[j]) is Some,
{
    if all_resolve(bindings, slots) {
        assert(binding_refusal(bindings, slots[at]) is None);
    }
}

/// A resolved node has a set for every slot it declares and for no other, and each
/// set holds the producers that were bound to the slot, in their order, or none.
pub proof fn law_slot_gets_what_was_bound(
    bindings: Map<Seq<char>, Seq<ProducerView>>,
    slots: Seq<SlotView>,
    link_id: Seq<char>,
)
    ensures
        resolved_sets(bindings, slots).dom().contains(link_id) <==> exists|i: int|
            0 <= i < slots.len() && (#[trigger] slots[i]).link_id == link_id,
        resolved_sets(bindings, slots).dom().contains(link_id) && bindings.dom().contains(link_id)
            ==> resolved_sets(bindings, slots)[link_id] == bindings[link_id],
        resolved_sets(bindings, slots).dom().contains(link_id) && !bindings.dom().contains(link_id)
            ==> resolved_sets(bindings, slots)[link_id].len() == 0,
{
}

/// A slot has the cardinality that it was declared with; where a link id is declared
/// more than once, the last declaration holds. No other link id has one.
pub proof fn law_slot_has_its_declared_cardinality(slots: Seq<SlotView>, link_id: Seq<char>, at: int)
    ensures
        declared_cardinalities(slots).dom().contains(link_id) <==> exists|i: int|
            0 <= i < slots.len() && (#[trigger] slots[i]).link_id == link_id,
        0 <= at < slots.len() && slots[at].link_id == link_id && (forall|j: int|
            at < j < slots.len() ==> (#[trigger] slots[j]).link_id != link_id)
            ==> declared_cardinalities(slots)[link_id] == slots[at].cardinality,
    decreases slots.len(),
{
    if slots.len() > 0 {
        let shorter = slots.drop_last();
        law_slot_has_its_declared_cardinality(shorter, link_id, at);
        if exists|i: int| 0 <= i < shorter.len() && (#[trigger] shorter[i]).link_id == link_id {
            let i = choose|i: int| 0 <= i < shorter.len() && (#[trigger] shorter[i]).link_id == link_id;
            assert(slots[i].link_id == link_id);
        }
        if exists|i: int| 0 <= i < slots.len() && (#[trigger] slots[i]).link_id == link_id {
            let i = choose|i: int| 0 <= i < slots.len() && (#[trigger] slots[i]).link_id == link_id;
            if i < shorter.len() {
                assert(shorter[i].link_id == link_id);
            }
        }
        assert(slots[slots.len() - 1] == slots.last());
        if 0 <= at < slots.len() - 1 && slots[at].link_id == link_id && (forall|j: int|
            at < j < slots.len() ==> (#[trigger] slots[j]).link_id != link_id) {
            assert(slots[slots.len() - 1].link_id != link_id);
            assert(shorter[at].link_id == link_id);
            assert forall|j: int| at < j < shorter.len() implies (#[trigger] shorter[j]).link_id
                != link_id by {
                assert(slots[j].link_id != link_id);
            }
        }
    }
}

/// A seed fits its observer slot exactly when no source is in it twice and their
/// number is admitted. A source that is in it twice is reported first, the earliest
/// repetition by its address and slot; else the wrong number is.
pub proof fn law_seed_fits_its_slot(
    link_id: Seq<char>,
    cardinality: Cardinality,
    members: Seq<MemberView>,
    error: ErrorView,
)
    ensures
        ({
            let distinct = forall|i: int, j: int|
                0 <= i < j < members.len() ==> (#[trigger] members[i]).source != (
                #[trigger] members[j]).source;
            let admitted = match cardinality {
                Cardinality::One => members.len() == 1,
                Cardinality::ZeroOrOne => members.len() == 0 || members.len() == 1,
                Cardinality::OneOrMore => members.len() != 0,
                Cardinality::ZeroOrMore => true,
            };
            &&& seed_fits(cardinality, members) <==> distinct && admitted
            &&& seed_refused(link_id, cardinality, members, error) ==> match error {
                ErrorView::ObservationSeedDuplicate {
                    link_id: named,
                    core_node,
                    instance_id,
                    source_link_id,
                } => !distinct && named == link_id && exists|i: int, j: int|
                    0 <= i < j < members.len() && (#[trigger] members[i]).source == (
                    #[trigger] members[j]).source && members[j].source.producer.core_node
                        == core_node && members[j].source.producer.instance_id == instance_id
                        && members[j].source.source_link_id == source_link_id,
                ErrorView::ObservationSeedViolated { link_id: named, cardinality: wanted, seeded } => {
                    distinct && !admitted && named == link_id && wanted == cardinality && seeded
                        == members.len()
                },
                _ => false,
            }
        }),
{
    let sources = sources_of(members);
    assert(sources.len() == members.len());
    if sources.no_duplicates() {
        assert forall|i: int, j: int| 0 <= i < j < members.len() implies (
        #[trigger] members[i]).source != (#[trigger] members[j]).source by {
            assert(sources[i] != sources[j]);
        }
    } else {
        let (i, j) = choose|i: int, j: int|
            0 <= i < sources.len() && 0 <= j < sources.len() && i != j && sources[i] == sources[j];
        if i < j {
            assert(members[i].source == members[j].source);
        } else {
            assert(members[j].source == members[i].source);
        }
    }
    if exists|at: int| #[trigger] first_repeated_source(members, at) && error
        == (ErrorView::ObservationSeedDuplicate {
        link_id,
        core_node: members[at].source.producer.core_node,
        instance_id: members[at].source.producer.instance_id,
        source_link_id: members[at].source.source_link_id,
    }) {
        let at = choose|at: int| #[trigger] first_repeated_source(members, at) && error
            == (ErrorView::ObservationSeedDuplicate {
            link_id,
            core_node: members[at].source.producer.core_node,
            instance_id: members[at].source.producer.instance_id,
            source_link_id: members[at].source.source_link_id,
        });
        let earlier = sources.take(at);
        let i = choose|i: int| 0 <= i < earlier.len() && earlier[i] == members[at].source;
        assert(members[i].source == members[at].source);
    }
}

/// A first repetition of a source has the same source before it, and none of those
/// before it is repeated.
pub proof fn law_first_repeated_source(members: Seq<MemberView>, at: int)
    requires
        first_repeated_source(members, at),
    ensures
        0 <= at < members.len(),
        exists|i: int| 0 <= i < at && (#[trigger] members[i]).source == members[at].source,
        forall|i: int, j: int|
            0 <= i < j < at ==> (#[trigger] members[i]).source != (#[trigger] members[j]).source,
{
    let earlier = sources_of(members).take(at);
    let i = choose|i: int| 0 <= i < earlier.len() && earlier[i] == members[at].source;
    assert(members[i].source == members[at].source);
    assert forall|i: int, j: int| 0 <= i < j < at implies (#[trigger] members[i]).source != (
    #[trigger] members[j]).source by {
        assert(earlier[i] != earlier[j]);
    }
}

/// A node's seeds are accepted exactly when each is for a declared observer slot and
/// every declared slot's seed, an empty one where none is given, fits the slot. A
/// seed for an undeclared slot is reported before one that does not fit, and of
/// either kind the one with the lowest link id.
pub proof fn law_seeds_are_for_declared_slots(
    seeds: Map<Seq<char>, Seq<MemberView>>,
    declared: Map<Seq<char>, Cardinality>,
    link_id: Seq<char>,
    other: Seq<char>,
    error: ErrorView,
)
    ensures
        all_declared(seeds, declared) && seeds.dom().contains(link_id) ==> declared.dom().contains(
            link_id,
        ),
        all_fit(seeds, declared) && declared.dom().contains(link_id) ==> seed_fits(
            declared[link_id],
            if seeds.dom().contains(link_id) {
                seeds[link_id]
            } else {
                Seq::empty()
            },
        ),
        first_undeclared(seeds, declared, link_id) ==> seeds.dom().contains(link_id)
            && !declared.dom().contains(link_id) && (seeds.dom().contains(other) && text::text_less(
            other,
            link_id,
        ) ==> declared.dom().contains(other)),
        first_bad_seed(seeds, declared, link_id, error) ==> declared.dom().contains(link_id)
            && seed_refused(
            link_id,
            declared[link_id],
            if seeds.dom().contains(link_id) {
                seeds[link_id]
            } else {
                Seq::empty()
            },
            error,
        ),
        seeds_refused(seeds, declared, error) ==> (error is ObservationSeedUndeclared
            <==> !all_declared(seeds, declared)),
        !all_declared(seeds, declared) ==> exists|named: Seq<char>|
            #[trigger] seeds.dom().contains(named) && !declared.dom().contains(named),
        !all_fit(seeds, declared) ==> exists|named: Seq<char>|
            #[trigger] declared.dom().contains(named) && !seed_fits(
                declared[named],
                seeded_for(seeds, named),
            ),
{
}

/// What seeds and bindings say is read as it is: for the same link ids, with the same
/// entries in the same order.
pub proof fn law_configuration_is_read_as_written(
    bindings: Map<Seq<char>, BoundProducers>,
    seeds: Map<Seq<char>, Vec<ObservedMemberState>>,
    pairs: Map<Seq<char>, PeerSetState>,
    sources: Map<Seq<char>, ObservationState>,
    link_id: Seq<char>,
)
    ensures
        bound_sets(bindings).dom().contains(link_id) <==> bindings.dom().contains(link_id),
        bindings.dom().contains(link_id) ==> bound_sets(bindings)[link_id] == bindings[link_id]@,
        seed_sets(seeds).dom().contains(link_id) <==> seeds.dom().contains(link_id),
        seeds.dom().contains(link_id) ==> seed_sets(seeds)[link_id].len() == seeds[link_id]@.len()
            && forall|i: int|
            0 <= i < seeds[link_id]@.len() ==> #[trigger] seed_sets(seeds)[link_id][i]
                == seeds[link_id]@[i]@,
        pairing_states(pairs).dom().contains(link_id) <==> pairs.dom().contains(link_id),
        pairs.dom().contains(link_id) ==> pairing_states(pairs)[link_id] == pairs[link_id]@,
        observation_states(sources).dom().contains(link_id) <==> sources.dom().contains(link_id),
        sources.dom().contains(link_id) ==> observation_states(sources)[link_id]
            == sources[link_id]@,
{
}

/// At start every declared observer slot, and no other, is there with the members
/// that were seeded for it, or with none; and any delivery replaces them.
pub proof fn law_observer_slots_start_with_their_seeds(
    seeds: Map<Seq<char>, Seq<MemberView>>,
    declared: Map<Seq<char>, Cardinality>,
    link_id: Seq<char>,
    delivered: nat,
)
    ensures
        boot_observations(seeds, declared).dom().contains(link_id) <==> declared.dom().contains(
            link_id,
        ),
        declared.dom().contains(link_id) ==> boot_observations(seeds, declared)[link_id].members == (
        if seeds.dom().contains(link_id) {
            seeds[link_id]
        } else {
            Seq::empty()
        }),
        declared.dom().contains(link_id) && delivered > 0 ==> observation::delivery_outcome(
            boot_observations(seeds, declared)[link_id].sequence,
            delivered,
        ) == observation::DeliveryOutcome::Replaced,
        declared.dom().contains(link_id) ==> boot_observations(seeds, declared)[link_id].sequence
            == 0,
{
}

/// At start every declared pairing slot, and no other, is there with the one pair that
/// its launch says, or with none; and any delivery replaces it.
pub proof fn law_pairing_slots_start_as_launched(
    bindings: Map<Seq<char>, PairingSlotBinding>,
    declared: Seq<SlotView>,
    link_id: Seq<char>,
)
    ensures
        boot_pairings(bindings, declared).dom().contains(link_id) <==> exists|i: int|
            0 <= i < declared.len() && (#[trigger] declared[i]).link_id == link_id,
        boot_pairings(bindings, declared).dom().contains(link_id) ==> {
            let state = boot_pairings(bindings, declared)[link_id];
            &&& state.sequence == 0
            &&& !bindings.dom().contains(link_id) ==> state.members.len() == 0
            &&& bindings.dom().contains(link_id) ==> match bindings[link_id] {
                PairingSlotBinding::Unpaired => state.members.len() == 0,
                PairingSlotBinding::Paired { peer, peer_link_id } => state.members.len() == 1
                    && state.members[0].info.producer.core_node == peer.core_node@
                    && state.members[0].info.producer.instance_id == peer.instance_id@
                    && state.members[0].info.peer_link_id == peer_link_id@
                    && state.members[0].copy is None,
            }
        },
{
}

/// The first invalid name is one that was refused while all before it were accepted;
/// the first repeated name is one that came before while all before it differ.
pub proof fn law_first_offending_name(
    verdicts: Seq<std::result::Result<(), String>>,
    names: Seq<Seq<char>>,
    at: int,
    other: int,
)
    ensures
        first_invalid(verdicts, at) ==> 0 <= at < verdicts.len() && verdicts[at] is Err && (0 <= other
            < at ==> verdicts[other] is Ok),
        first_repeated_name(names, at) ==> 0 <= at < names.len() && (exists|i: int|
            0 <= i < at && #[trigger] names[i] == names[at]) && (forall|i: int, j: int|
            0 <= i < j < at ==> #[trigger] names[i] != #[trigger] names[j]),
{
    if first_invalid(verdicts, at) && 0 <= other < at {
        assert(verdicts[other] is Ok);
    }
    if first_repeated_name(names, at) {
        let earlier = names.take(at);
        let i = choose|i: int| 0 <= i < earlier.len() && earlier[i] == names[at];
        assert(names[i] == names[at]);
        assert forall|i: int, j: int| 0 <= i < j < at implies #[trigger] names[i]
            != #[trigger] names[j] by {
            assert(earlier[i] != earlier[j]);
        }
    }
}

} // verus!
