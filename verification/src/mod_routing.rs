//! The MOD page's ROUTING table: per part, a list of modulation
//! assignments (source, destination, depth). Each edit returns the
//! messages that bring the engine's copy of the list along: the
//! engine appends on `Add`, removes by index on `Remove` and sets a
//! depth in place on `SetDepth`. The depth type is the caller's.

use vstd::prelude::*;

verus! {

/// Number of parts with a routing list.
pub const ROUTING_PARTS: usize = 4;

/// Number of modulation sources: Lfo1, Lfo2, Seq1, Seq2.
pub const SOURCE_COUNT: usize = 4;

/// Number of modulation destinations offered.
pub const DEST_COUNT: usize = 13;

/// One routing: a source index, a destination index and a depth.
#[derive(Debug, Clone, Copy, PartialEq)]
pub struct Assignment<D> {
    pub source: usize,
    pub dest: usize,
    pub depth: D,
}

/// A message to the engine about a part's routing list.
#[derive(Debug, Clone, Copy, PartialEq)]
pub enum RoutingMsg<D> {
    /// Append an assignment.
    Add { part: u8, source: usize, dest: usize, depth: D },
    /// Remove the assignment at `index`.
    Remove { part: u8, index: u8 },
    /// Set the depth of the assignment at `index`.
    SetDepth { part: u8, index: u8, depth: D },
}

/// The engine's list for `part` after applying `m`: appends, removals
/// by index and depth updates addressed to `part`; messages for other
/// parts or out-of-range indices leave it unchanged.
pub open spec fn apply_msg<D>(list: Seq<Assignment<D>>, part: u8, m: RoutingMsg<D>) -> Seq<Assignment<D>> {
    match m {
        RoutingMsg::Add { part: p, source, dest, depth } => if p == part {
            list.push(Assignment { source, dest, depth })
        } else {
            list
        },
        RoutingMsg::Remove { part: p, index } => if p == part && index < list.len() {
            list.remove(index as int)
        } else {
            list
        },
        RoutingMsg::SetDepth { part: p, index, depth } => if p == part && index < list.len() {
            list.update(index as int, Assignment { depth, ..list[index as int] })
        } else {
            list
        },
    }
}

/// The engine's list for `part` after the messages `ms`, in order.
pub open spec fn apply_msgs<D>(list: Seq<Assignment<D>>, part: u8, ms: Seq<RoutingMsg<D>>) -> Seq<Assignment<D>>
    decreases ms.len(),
{
    if ms.len() == 0 {
        list
    } else {
        apply_msg(apply_msgs(list, part, ms.drop_last()), part, ms.last())
    }
}

/// Removals of the routings at indices `n - 1` down to `idx`, last
/// first.
pub open spec fn removes_from_end<D>(part: u8, idx: int, n: int) -> Seq<RoutingMsg<D>> {
    Seq::new((n - idx) as nat, |j: int| RoutingMsg::Remove { part, index: (n - 1 - j) as u8 })
}

/// Appends of `items`, in order.
pub open spec fn adds_of<D>(part: u8, items: Seq<Assignment<D>>) -> Seq<RoutingMsg<D>> {
    items.map_values(|x: Assignment<D>| RoutingMsg::Add { part, source: x.source, dest: x.dest, depth: x.depth })
}

/// The messages that replace routing `idx` of `list` with `a` in the
/// engine's copy: remove from the last down to `idx`, then append `a`
/// and the routings after it.
pub open spec fn respin_msgs<D>(list: Seq<Assignment<D>>, part: u8, idx: int, a: Assignment<D>) -> Seq<RoutingMsg<D>> {
    removes_from_end(part, idx, list.len() as int) + adds_of(part, list.update(idx, a).subrange(idx, list.len() as int))
}

/// The routing lists of the four parts.
pub struct ModRouting<D> {
    lists: Vec<Vec<Assignment<D>>>,
}

/// The source after `source` in the cycle of sources.
pub open spec fn next_source(source: usize) -> usize {
    ((source + 1) % (SOURCE_COUNT as int)) as usize
}

/// The destination after `dest` in the cycle of destinations.
pub open spec fn next_dest(dest: usize) -> usize {
    ((dest + 1) % (DEST_COUNT as int)) as usize
}

impl<D: Copy> ModRouting<D> {
    /// The routing list of each part.
    pub closed spec fn lists_view(&self) -> Seq<Seq<Assignment<D>>> {
        Seq::new(self.lists@.len(), |p: int| self.lists@[p]@)
    }

    /// Four lists; each assignment names a source and a destination in
    /// range.
    pub closed spec fn wf(&self) -> bool {
        &&& self.lists@.len() == ROUTING_PARTS
        &&& forall|p: int, i: int|
            0 <= p < ROUTING_PARTS && 0 <= i < self.lists@[p]@.len() ==> #[trigger] self.lists@[p]@[i].source
                < SOURCE_COUNT && self.lists@[p]@[i].dest < DEST_COUNT
    }

    /// No routing on any part.
    pub fn new() -> (r: Self)
        ensures
            r.wf(),
            r.lists_view() == Seq::new(4, |_p: int| Seq::<Assignment<D>>::empty()),
    {
        let mut lists: Vec<Vec<Assignment<D>>> = Vec::new();
        let mut p: usize = 0;
        while p < ROUTING_PARTS
            invariant
                p <= ROUTING_PARTS,
                lists.len() == p,
                forall|q: int| 0 <= q < p ==> #[trigger] lists@[q]@.len() == 0,
            decreases ROUTING_PARTS - p,
        {
            lists.push(Vec::new());
            p = p + 1;
        }
        let r = ModRouting { lists };
        assert(r.lists_view() =~= Seq::new(4, |_p: int| Seq::<Assignment<D>>::empty())) by {
            assert forall|q: int| 0 <= q < 4 implies r.lists_view()[q] =~= Seq::<Assignment<D>>::empty() by {
                assert(r.lists@[q]@.len() == 0);
            }
        }
        r
    }

    /// Number of routings on `part` (none on a part past the fourth).
    pub fn len(&self, part: u8) -> (n: usize)
        requires
            self.wf(),
        ensures
            n == (if part < ROUTING_PARTS {
                self.lists_view()[part as int].len()
            } else {
                0
            }),
    {
        if (part as usize) < ROUTING_PARTS {
            self.lists[part as usize].len()
        } else {
            0
        }
    }

    /// The routing at `idx` on `part`, if there is one.
    pub fn get(&self, part: u8, idx: u8) -> (a: Option<Assignment<D>>)
        requires
            self.wf(),
        ensures
            a == (if part < ROUTING_PARTS && idx < self.lists_view()[part as int].len() {
                Some(self.lists_view()[part as int][idx as int])
            } else {
                None::<Assignment<D>>
            }),
    {
        if (part as usize) < ROUTING_PARTS && (idx as usize) < self.lists[part as usize].len() {
            Some(self.lists[part as usize][idx as usize])
        } else {
            None
        }
    }

    /// Replaces the list of `part` with `list`.
    fn put(&mut self, part: usize, list: Vec<Assignment<D>>)
        requires
            old(self).wf(),
            part < ROUTING_PARTS,
            forall|i: int| 0 <= i < list@.len() ==> #[trigger] list@[i].source < SOURCE_COUNT && list@[i].dest
                < DEST_COUNT,
        ensures
            final(self).wf(),
            final(self).lists_view() == old(self).lists_view().update(part as int, list@),
    {
        let ghost lv = self.lists_view();
        self.lists.set(part, list);
        proof {
            assert(self.lists_view() =~= lv.update(part as int, list@));
        }
    }

    /// Takes the list of `part` out, leaving it empty.
    fn take(&mut self, part: usize) -> (list: Vec<Assignment<D>>)
        requires
            old(self).wf(),
            part < ROUTING_PARTS,
        ensures
            final(self).wf(),
            list@ == old(self).lists_view()[part as int],
            final(self).lists_view() == old(self).lists_view().update(part as int, Seq::empty()),
            forall|i: int| 0 <= i < list@.len() ==> #[trigger] list@[i].source < SOURCE_COUNT && list@[i].dest
                < DEST_COUNT,
    {
        let ghost lv = self.lists_view();
        let mut list: Vec<Assignment<D>> = Vec::new();
        self.lists.set_and_swap(part, &mut list);
        proof {
            assert(forall|i: int| 0 <= i < list@.len() ==> #[trigger] list@[i].source < SOURCE_COUNT
                && list@[i].dest < DEST_COUNT);
            assert(self.lists_view() =~= lv.update(part as int, Seq::empty()));
        }
        list
    }

    /// + ADD ROUTING on `part`: appends source 0 → destination 0 at
    /// `depth`. Nothing happens on a part past the fourth.
    pub fn add(&mut self, part: u8, depth: D) -> (msgs: Vec<RoutingMsg<D>>)
        requires
            old(self).wf(),
        ensures
            final(self).wf(),
            part < ROUTING_PARTS ==> final(self).lists_view()
                == old(self).lists_view().update(
                part as int,
                old(self).lists_view()[part as int].push(Assignment { source: 0, dest: 0, depth }),
            ) && msgs@ == seq![RoutingMsg::Add { part, source: 0, dest: 0, depth }],
            part >= ROUTING_PARTS ==> final(self).lists_view() == old(self).lists_view() && msgs@.len() == 0,
    {
        let mut msgs: Vec<RoutingMsg<D>> = Vec::new();
        if (part as usize) >= ROUTING_PARTS {
            return msgs;
        }
        let mut list = self.take(part as usize);
        list.push(Assignment { source: 0, dest: 0, depth });
        self.put(part as usize, list);
        msgs.push(RoutingMsg::Add { part, source: 0, dest: 0, depth });
        msgs
    }

    /// The × on routing `idx` of `part`: removes it. Nothing happens
    /// when there is no such routing.
    pub fn remove(&mut self, part: u8, idx: u8) -> (msgs: Vec<RoutingMsg<D>>)
        requires
            old(self).wf(),
        ensures
            final(self).wf(),
            part < ROUTING_PARTS && idx < old(self).lists_view()[part as int].len() ==> final(self).lists_view()
                == old(self).lists_view().update(part as int, old(self).lists_view()[part as int].remove(idx as int))
                && msgs@ == seq![RoutingMsg::<D>::Remove { part, index: idx }],
            !(part < ROUTING_PARTS && idx < old(self).lists_view()[part as int].len()) ==> final(self).lists_view() == old(self).lists_view() && msgs@.len() == 0,
    {
        let mut msgs: Vec<RoutingMsg<D>> = Vec::new();
        if (part as usize) >= ROUTING_PARTS || (idx as usize) >= self.lists[part as usize].len() {
            return msgs;
        }
        let mut list = self.take(part as usize);
        let ghost before = list@;
        list.remove(idx as usize);
        proof {
            assert forall|i: int| 0 <= i < list@.len() implies #[trigger] list@[i].source < SOURCE_COUNT
                && list@[i].dest < DEST_COUNT by {
                if i < idx {
                    assert(list@[i] == before[i]);
                } else {
                    assert(list@[i] == before[i + 1]);
                }
            }
        }
        self.put(part as usize, list);
        msgs.push(RoutingMsg::Remove { part, index: idx });
        msgs
    }

    /// Replaces routing `idx` of `part` with `a`. The engine is told by
    /// removing the routings from the last down to `idx`, then appending
    /// the new one and the later ones again, so that the edited routing
    /// keeps its index there too.
    fn respin(&mut self, part: u8, idx: u8, a: Assignment<D>) -> (msgs: Vec<RoutingMsg<D>>)
        requires
            old(self).wf(),
            part < ROUTING_PARTS,
            idx < old(self).lists_view()[part as int].len(),
            old(self).lists_view()[part as int].len() <= 256,
            a.source < SOURCE_COUNT,
            a.dest < DEST_COUNT,
        ensures
            final(self).wf(),
            final(self).lists_view() == old(self).lists_view().update(
                part as int,
                old(self).lists_view()[part as int].update(idx as int, a),
            ),
            msgs@ == respin_msgs(old(self).lists_view()[part as int], part, idx as int, a),
    {
        let ghost old_list = self.lists_view()[part as int];
        let mut list = self.take(part as usize);
        let n = list.len();
        let mut msgs: Vec<RoutingMsg<D>> = Vec::new();
        let mut k: usize = n;
        while k > idx as usize
            invariant
                idx < n <= 256,
                idx <= k <= n,
                list@ == old_list,
                n == old_list.len(),
                msgs@ =~= removes_from_end::<D>(part, k as int, n as int),
            decreases k,
        {
            k = k - 1;
            msgs.push(RoutingMsg::Remove { part, index: k as u8 });
        }
        list.set(idx as usize, a);
        let ghost new_list = list@;
        let ghost rm = msgs@;
        let mut j: usize = idx as usize;
        while j < n
            invariant
                idx <= j <= n,
                n == list@.len(),
                list@ == new_list,
                msgs@ =~= rm + adds_of(part, new_list.subrange(idx as int, j as int)),
            decreases n - j,
        {
            let x = list[j];
            msgs.push(RoutingMsg::Add { part, source: x.source, dest: x.dest, depth: x.depth });
            proof {
                assert(new_list.subrange(idx as int, j + 1) =~= new_list.subrange(idx as int, j as int).push(x));
            }
            j = j + 1;
        }
        proof {
            assert(new_list == old_list.update(idx as int, a));
            assert forall|i: int| 0 <= i < list@.len() implies #[trigger] list@[i].source < SOURCE_COUNT
                && list@[i].dest < DEST_COUNT by {
                if i != idx {
                    assert(list@[i] == old_list[i]);
                }
            }
        }
        self.put(part as usize, list);
        msgs
    }

    /// Tapping the source of routing `idx` on `part` advances it to the
    /// next source, wrapping. Nothing happens when there is no such
    /// routing.
    pub fn cycle_source(&mut self, part: u8, idx: u8) -> (msgs: Vec<RoutingMsg<D>>)
        requires
            old(self).wf(),
            part < ROUTING_PARTS ==> old(self).lists_view()[part as int].len() <= 256,
        ensures
            final(self).wf(),
            part < ROUTING_PARTS && idx < old(self).lists_view()[part as int].len() ==> {
                let a = old(self).lists_view()[part as int][idx as int];
                let b = Assignment { source: next_source(a.source), ..a };
                &&& final(self).lists_view() == old(self).lists_view().update(
                    part as int,
                    old(self).lists_view()[part as int].update(idx as int, b),
                )
                &&& msgs@ == respin_msgs(old(self).lists_view()[part as int], part, idx as int, b)
            },
            !(part < ROUTING_PARTS && idx < old(self).lists_view()[part as int].len()) ==> final(self).lists_view() == old(self).lists_view() && msgs@.len() == 0,
    {
        if (part as usize) >= ROUTING_PARTS || (idx as usize) >= self.lists[part as usize].len() {
            let msgs: Vec<RoutingMsg<D>> = Vec::new();
            return msgs;
        }
        let a = self.lists[part as usize][idx as usize];
        proof {
            assert(self.lists@[part as int]@[idx as int] == a);
        }
        let b = Assignment { source: (a.source + 1) % SOURCE_COUNT, dest: a.dest, depth: a.depth };
        self.respin(part, idx, b)
    }

    /// Tapping the destination of routing `idx` on `part` advances it
    /// to the next destination, wrapping. Nothing happens when there is
    /// no such routing.
    pub fn cycle_dest(&mut self, part: u8, idx: u8) -> (msgs: Vec<RoutingMsg<D>>)
        requires
            old(self).wf(),
            part < ROUTING_PARTS ==> old(self).lists_view()[part as int].len() <= 256,
        ensures
            final(self).wf(),
            part < ROUTING_PARTS && idx < old(self).lists_view()[part as int].len() ==> {
                let a = old(self).lists_view()[part as int][idx as int];
                let b = Assignment { dest: next_dest(a.dest), ..a };
                &&& final(self).lists_view() == old(self).lists_view().update(
                    part as int,
                    old(self).lists_view()[part as int].update(idx as int, b),
                )
                &&& msgs@ == respin_msgs(old(self).lists_view()[part as int], part, idx as int, b)
            },
            !(part < ROUTING_PARTS && idx < old(self).lists_view()[part as int].len()) ==> final(self).lists_view() == old(self).lists_view() && msgs@.len() == 0,
    {
        if (part as usize) >= ROUTING_PARTS || (idx as usize) >= self.lists[part as usize].len() {
            let msgs: Vec<RoutingMsg<D>> = Vec::new();
            return msgs;
        }
        let a = self.lists[part as usize][idx as usize];
        proof {
            assert(self.lists@[part as int]@[idx as int] == a);
        }
        let b = Assignment { source: a.source, dest: (a.dest + 1) % DEST_COUNT, depth: a.depth };
        self.respin(part, idx, b)
    }

    /// Sets the depth of routing `idx` on `part`. Nothing happens when
    /// there is no such routing.
    pub fn set_depth(&mut self, part: u8, idx: u8, depth: D) -> (msgs: Vec<RoutingMsg<D>>)
        requires
            old(self).wf(),
        ensures
            final(self).wf(),
            part < ROUTING_PARTS && idx < old(self).lists_view()[part as int].len() ==> final(self).lists_view()
                == old(self).lists_view().update(
                part as int,
                old(self).lists_view()[part as int].update(
                    idx as int,
                    Assignment { depth, ..old(self).lists_view()[part as int][idx as int] },
                ),
            ) && msgs@ == seq![RoutingMsg::SetDepth { part, index: idx, depth }],
            !(part < ROUTING_PARTS && idx < old(self).lists_view()[part as int].len()) ==> final(self).lists_view() == old(self).lists_view() && msgs@.len() == 0,
    {
        let mut msgs: Vec<RoutingMsg<D>> = Vec::new();
        if (part as usize) >= ROUTING_PARTS || (idx as usize) >= self.lists[part as usize].len() {
            return msgs;
        }
        let a = self.lists[part as usize][idx as usize];
        let mut list = self.take(part as usize);
        list.set(idx as usize, Assignment { source: a.source, dest: a.dest, depth });
        self.put(part as usize, list);
        msgs.push(RoutingMsg::SetDepth { part, index: idx, depth });
        msgs
    }
}

/// Law: the messages of an append, a removal or a depth change, applied
/// to the engine's copy of a part's list, give back the table's new
/// list: the engine stays in step.
pub proof fn lemma_engine_follows_edits<D>(list: Seq<Assignment<D>>, part: u8, idx: u8, depth: D)
    ensures
        apply_msgs(list, part, seq![RoutingMsg::Add { part, source: 0, dest: 0, depth }]) == list.push(
            Assignment { source: 0, dest: 0, depth },
        ),
        idx < list.len() ==> apply_msgs(list, part, seq![RoutingMsg::<D>::Remove { part, index: idx }])
            == list.remove(idx as int),
        idx < list.len() ==> apply_msgs(list, part, seq![RoutingMsg::SetDepth { part, index: idx, depth }])
            == list.update(idx as int, Assignment { depth, ..list[idx as int] }),
{
    reveal_with_fuel(apply_msgs, 2);
    let ms1 = seq![RoutingMsg::Add { part, source: 0, dest: 0, depth }];
    assert(ms1.drop_last() =~= Seq::<RoutingMsg<D>>::empty());
    let ms2 = seq![RoutingMsg::<D>::Remove { part, index: idx }];
    assert(ms2.drop_last() =~= Seq::<RoutingMsg<D>>::empty());
    let ms3 = seq![RoutingMsg::SetDepth { part, index: idx, depth }];
    assert(ms3.drop_last() =~= Seq::<RoutingMsg<D>>::empty());
}

/// Applying `ms1` and then `ms2` is applying their concatenation.
proof fn lemma_apply_concat<D>(list: Seq<Assignment<D>>, part: u8, ms1: Seq<RoutingMsg<D>>, ms2: Seq<RoutingMsg<D>>)
    ensures
        apply_msgs(list, part, ms1 + ms2) == apply_msgs(apply_msgs(list, part, ms1), part, ms2),
    decreases ms2.len(),
{
    if ms2.len() == 0 {
        assert(ms1 + ms2 =~= ms1);
    } else {
        assert((ms1 + ms2).drop_last() =~= ms1 + ms2.drop_last());
        assert((ms1 + ms2).last() == ms2.last());
        lemma_apply_concat(list, part, ms1, ms2.drop_last());
    }
}

/// Removing from the last routing down to `idx` leaves the first `idx`.
proof fn lemma_apply_removes<D>(list: Seq<Assignment<D>>, part: u8, idx: int)
    requires
        0 <= idx <= list.len() <= 256,
    ensures
        apply_msgs(list, part, removes_from_end::<D>(part, idx, list.len() as int)) == list.take(idx),
    decreases list.len() - idx,
{
    let n = list.len() as int;
    let ms = removes_from_end::<D>(part, idx, n);
    if idx == n {
        assert(ms =~= Seq::<RoutingMsg<D>>::empty());
        assert(list.take(idx) =~= list);
    } else {
        assert(ms.drop_last() =~= removes_from_end::<D>(part, idx + 1, n));
        lemma_apply_removes(list, part, idx + 1);
        assert(ms.last() == RoutingMsg::<D>::Remove { part, index: idx as u8 });
        assert((idx as u8) as int == idx);
        assert(list.take(idx + 1).remove(idx) =~= list.take(idx));
    }
}

/// Appending `items` one by one adds them at the end.
proof fn lemma_apply_adds<D>(list: Seq<Assignment<D>>, part: u8, items: Seq<Assignment<D>>)
    ensures
        apply_msgs(list, part, adds_of(part, items)) == list + items,
    decreases items.len(),
{
    if items.len() == 0 {
        assert(adds_of(part, items) =~= Seq::<RoutingMsg<D>>::empty());
        assert(list + items =~= list);
    } else {
        assert(adds_of(part, items).drop_last() =~= adds_of(part, items.drop_last()));
        lemma_apply_adds(list, part, items.drop_last());
        let x = items.last();
        assert(Assignment { source: x.source, dest: x.dest, depth: x.depth } == x);
        assert((list + items.drop_last()).push(x) =~= list + items);
    }
}

/// Law: changing the source or destination of any routing keeps the
/// engine's copy in step: the respin messages, applied to the engine's
/// list, give back the table's list with that routing replaced in
/// place.
pub proof fn lemma_respin_follows<D>(list: Seq<Assignment<D>>, part: u8, idx: int, b: Assignment<D>)
    requires
        0 <= idx < list.len() <= 256,
    ensures
        apply_msgs(list, part, respin_msgs(list, part, idx, b)) == list.update(idx, b),
{
    let n = list.len() as int;
    let rm = removes_from_end::<D>(part, idx, n);
    let tail = list.update(idx, b).subrange(idx, n);
    lemma_apply_concat(list, part, rm, adds_of(part, tail));
    lemma_apply_removes(list, part, idx);
    lemma_apply_adds(list.take(idx), part, tail);
    assert(list.take(idx) + tail =~= list.update(idx, b));
}

} // verus!
