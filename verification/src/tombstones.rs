//! A bounded record of goals whose retained result has been evicted.
use crate::sorted_map::SortedMap;
use crate::text;
use std::collections::VecDeque;
use vstd::prelude::*;

verus! {

/// The goal ids whose terminal result was evicted, oldest first. Once the cap is
/// reached the oldest entries fall out.
pub struct ExpiredTombstones {
    order: VecDeque<String>,
    members: SortedMap<()>,
    cap: usize,
}

/// How many of `count` tombstones fall out before one more is recorded.
pub open spec fn fallen(count: nat, cap: nat) -> nat {
    if count < cap {
        0
    } else if cap == 0 {
        count
    } else {
        (count - cap + 1) as nat
    }
}

/// The record after `goal_id` is recorded in it.
pub open spec fn recorded(order: Seq<Seq<char>>, cap: nat, goal_id: Seq<char>) -> Seq<Seq<char>> {
    if order.contains(goal_id) {
        order
    } else {
        order.skip(fallen(order.len(), cap) as int).push(goal_id)
    }
}

/// The record after each of `goal_ids` is recorded in it, in order.
pub open spec fn recorded_all(
    order: Seq<Seq<char>>,
    cap: nat,
    goal_ids: Seq<Seq<char>>,
) -> Seq<Seq<char>>
    decreases goal_ids.len(),
{
    if goal_ids.len() == 0 {
        order
    } else {
        recorded(recorded_all(order, cap, goal_ids.drop_last()), cap, goal_ids.last())
    }
}

impl View for ExpiredTombstones {
    type V = Seq<Seq<char>>;

    closed spec fn view(&self) -> Seq<Seq<char>> {
        text::texts(self.order@)
    }
}

impl ExpiredTombstones {
    /// The most entries that are kept.
    pub closed spec fn cap(&self) -> nat {
        self.cap as nat
    }

    /// The record lists each goal once, within its cap, and its index agrees
    /// with the list.
    pub closed spec fn wf(&self) -> bool {
        &&& self@.no_duplicates()
        &&& self@.len() <= self.cap || self@.len() <= 1
        &&& forall|goal_id: Seq<char>| #[trigger] self.members@.dom().contains(goal_id) <==> self@.contains(goal_id)
    }

    /// A record lists each goal once and stays within its cap.
    pub proof fn law_bounded(&self)
        requires
            self.wf(),
        ensures
            self@.no_duplicates(),
            self.cap() > 0 ==> self@.len() <= self.cap(),
    {
    }

    /// An empty record that keeps at most `cap` entries.
    pub fn new(cap: usize) -> (tombstones: Self)
        ensures
            tombstones.wf(),
            tombstones@ == Seq::<Seq<char>>::empty(),
            tombstones.cap() == cap,
    {
        let tombstones = ExpiredTombstones {
            order: VecDeque::new(),
            members: SortedMap::new(),
            cap,
        };
        proof {
            assert(tombstones@ =~= Seq::<Seq<char>>::empty());
        }
        tombstones
    }

    /// Records `goal_id`. The oldest entries fall out to make room.
    pub fn insert(&mut self, goal_id: String)
        requires
            old(self).wf(),
        ensures
            final(self).wf(),
            final(self).cap() == old(self).cap(),
            final(self)@ == recorded(old(self)@, old(self).cap(), goal_id@),
    {
        if self.members.contains_key(goal_id.as_str()) {
            return;
        }
        let ghost before = self@;
        let ghost mut gone: nat = 0;
        while self.order.len() >= self.cap
            invariant
                self.cap == old(self).cap,
                gone <= before.len(),
                self@ == before.skip(gone as int),
                self.order@.len() == before.len() - gone,
                before.no_duplicates(),
                before == old(self)@,
                !before.contains(goal_id@),
                gone <= fallen(before.len(), self.cap as nat),
                forall|id: Seq<char>| #[trigger] self.members@.dom().contains(id) <==> self@.contains(id),
            ensures
                gone == fallen(before.len(), self.cap as nat),
            decreases self.order@.len(),
        {
            let ghost held = self@;
            match self.order.pop_front() {
                Some(oldest) => {
                    self.members.remove(oldest.as_str());
                    proof {
                        assert(held[0] == oldest@);
                        assert(self@ =~= held.skip(1));
                        assert(held.skip(1) =~= before.skip(gone as int + 1));
                        gone = gone + 1;
                        assert forall|id: Seq<char>| #[trigger] self.members@.dom().contains(id)
                            <==> self@.contains(id) by {
                            if self@.contains(id) {
                                let i = choose|i: int| 0 <= i < self@.len() && self@[i] == id;
                                assert(held[i + 1] == id);
                                assert(held[i + 1] != held[0]) by {
                                    assert(held[i + 1] == before[gone + i]);
                                    assert(held[0] == before[gone - 1]);
                                }
                                assert(held.contains(id));
                            }
                            if held.contains(id) && id != oldest@ {
                                let i = choose|i: int| 0 <= i < held.len() && held[i] == id;
                                assert(self@[i - 1] == id);
                            }
                        }
                    }
                },
                None => {
                    break;
                },
            }
        }
        let ghost kept = self@;
        let key = goal_id.clone();
        self.members.insert(key, ());
        self.order.push_back(goal_id);
        proof {
            assert(self@ =~= kept.push(goal_id@));
            assert(!kept.contains(goal_id@)) by {
                if kept.contains(goal_id@) {
                    let i = choose|i: int| 0 <= i < kept.len() && kept[i] == goal_id@;
                    assert(before[gone + i] == goal_id@);
                }
            }
            assert forall|id: Seq<char>| #[trigger] self.members@.dom().contains(id)
                <==> self@.contains(id) by {
                if kept.contains(id) {
                    let i = choose|i: int| 0 <= i < kept.len() && kept[i] == id;
                    assert(self@[i] == id);
                }
                if self@.contains(id) && id != goal_id@ {
                    let i = choose|i: int| 0 <= i < self@.len() && self@[i] == id;
                    assert(kept[i] == id);
                }
                assert(self@[kept.len() as int] == goal_id@);
            }
        }
    }

    /// Whether `goal_id` is recorded.
    pub fn contains(&self, goal_id: &str) -> (found: bool)
        requires
            self.wf(),
        ensures
            found == self@.contains(goal_id@),
    {
        self.members.contains_key(goal_id)
    }
}

/// A goal just recorded is found, and every goal found was found before or was
/// just recorded.
pub proof fn law_recorded_is_found(order: Seq<Seq<char>>, cap: nat, goal_id: Seq<char>, other: Seq<char>)
    ensures
        recorded(order, cap, goal_id).contains(goal_id),
        recorded(order, cap, goal_id).contains(other) ==> other == goal_id || order.contains(other),
{
    let after = recorded(order, cap, goal_id);
    if !order.contains(goal_id) {
        let kept = order.skip(fallen(order.len(), cap) as int);
        assert(after[kept.len() as int] == goal_id);
        if after.contains(other) && other != goal_id {
            let i = choose|i: int| 0 <= i < after.len() && after[i] == other;
            assert(kept[i] == other);
            assert(order[i + fallen(order.len(), cap)] == other);
        }
    }
}

/// The record is first in, first out: while there is room nothing falls out, and
/// at the cap exactly the oldest entry makes way.
pub proof fn law_oldest_falls_out(order: Seq<Seq<char>>, cap: nat, goal_id: Seq<char>)
    requires
        !order.contains(goal_id),
    ensures
        order.len() < cap ==> recorded(order, cap, goal_id) == order.push(goal_id),
        order.len() == cap && cap > 0 ==> recorded(order, cap, goal_id) == order.skip(1).push(goal_id),
{
    assert(order.skip(0) =~= order);
}

/// A goal that is remembered already is neither remembered twice nor made younger.
pub proof fn law_remembered_once(order: Seq<Seq<char>>, cap: nat, goal_id: Seq<char>)
    ensures
        order.contains(goal_id) ==> recorded(order, cap, goal_id) == order,
        order.no_duplicates() ==> recorded(order, cap, goal_id).no_duplicates(),
{
    if !order.contains(goal_id) && order.no_duplicates() {
        let gone = fallen(order.len(), cap) as int;
        let kept = order.skip(gone);
        let after = recorded(order, cap, goal_id);
        assert forall|i: int, j: int|
            0 <= i < after.len() && 0 <= j < after.len() && i != j implies after[i] != after[j] by {
            if i < kept.len() {
                assert(after[i] == order[gone + i]);
            }
            if j < kept.len() {
                assert(after[j] == order[gone + j]);
            }
        }
    }
}

/// Recording several goals is recording one after the other.
pub proof fn law_recorded_one_by_one(
    order: Seq<Seq<char>>,
    cap: nat,
    goal_ids: Seq<Seq<char>>,
    goal_id: Seq<char>,
)
    ensures
        recorded_all(order, cap, Seq::empty()) == order,
        recorded_all(order, cap, goal_ids.push(goal_id)) == recorded(
            recorded_all(order, cap, goal_ids),
            cap,
            goal_id,
        ),
{
    assert(goal_ids.push(goal_id).drop_last() =~= goal_ids);
}

} // verus!
