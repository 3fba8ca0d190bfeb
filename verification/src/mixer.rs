//! Part mute and exclusive solo on the MIX page.
//!
//! Every change reports the mute messages the engine must receive: one
//! per part whose mute actually flipped, so the engine's view and the
//! UI's never drift apart and no redundant echo is sent.

use vstd::prelude::*;

verus! {

/// Number of parts on the mixer.
pub const PARTS: usize = 4;

/// Mute state of the four parts and the soloed part, if any.
pub struct MixSolo {
    mutes: Vec<bool>,
    solo: Option<u8>,
}

/// The mute flags after applying `msgs` (part, muted) in order.
pub open spec fn apply_mute_msgs(mutes: Seq<bool>, msgs: Seq<(u8, bool)>) -> Seq<bool>
    decreases msgs.len(),
{
    if msgs.len() == 0 {
        mutes
    } else {
        let m = apply_mute_msgs(mutes, msgs.drop_last());
        m.update(msgs.last().0 as int, msgs.last().1)
    }
}

/// `msgs` names each flipped part once, in part order, with its new
/// state, and no other part: exactly the differences from `a` to `b`.
pub open spec fn msgs_are_flips(a: Seq<bool>, b: Seq<bool>, msgs: Seq<(u8, bool)>) -> bool {
    &&& forall|i: int| 0 <= i < msgs.len() ==> (#[trigger] msgs[i]).0 < PARTS && a[msgs[i].0 as int] != b[msgs[i].0 as int]
        && msgs[i].1 == b[msgs[i].0 as int]
    &&& forall|i: int, j: int| 0 <= i < j < msgs.len() ==> (#[trigger] msgs[i]).0 < (#[trigger] msgs[j]).0
    &&& forall|p: int| 0 <= p < PARTS && a[p] != b[p] ==> exists|i: int| 0 <= i < msgs.len() && (#[trigger] msgs[i]).0 == p
}

impl MixSolo {
    /// The mute flag of each part.
    pub closed spec fn mute_flags(&self) -> Seq<bool> {
        self.mutes@
    }

    /// The soloed part, if any.
    pub closed spec fn soloed(&self) -> Option<u8> {
        self.solo
    }

    /// Four parts, each with one mute flag; a solo names a part.
    pub closed spec fn wf(&self) -> bool {
        &&& self.mutes.len() == PARTS
        &&& (self.solo matches Some(p) ==> p < PARTS)
    }

    /// Nothing muted, nothing soloed.
    pub fn new() -> (m: Self)
        ensures
            m.wf(),
            m.mute_flags() == seq![false, false, false, false],
            m.soloed() is None,
    {
        let m = MixSolo { mutes: vec![false, false, false, false], solo: None };
        assert(m.mutes@ =~= seq![false, false, false, false]);
        m
    }

    /// Whether part `p` is muted.
    pub fn is_muted(&self, p: u8) -> (b: bool)
        requires
            self.wf(),
            p < PARTS,
        ensures
            b == self.mute_flags()[p as int],
    {
        self.mutes[p as usize]
    }

    /// The soloed part, if any.
    pub fn solo(&self) -> (s: Option<u8>)
        ensures
            s == self.soloed(),
    {
        self.solo
    }

    /// Sets every part's mute to `want(p)`, reporting the flips.
    fn set_mutes(&mut self, target: &Vec<bool>) -> (msgs: Vec<(u8, bool)>)
        requires
            old(self).wf(),
            target.len() == PARTS,
        ensures
            final(self).wf(),
            final(self).mute_flags() == target@,
            final(self).soloed() == old(self).soloed(),
            msgs_are_flips(old(self).mute_flags(), target@, msgs@),
            apply_mute_msgs(old(self).mute_flags(), msgs@) == target@,
    {
        let ghost a = self.mutes@;
        let mut msgs: Vec<(u8, bool)> = Vec::new();
        let mut p: usize = 0;
        while p < PARTS
            invariant
                p <= PARTS,
                self.wf(),
                self.solo == old(self).solo,
                a == old(self).mute_flags(),
                target.len() == PARTS,
                forall|q: int| 0 <= q < p ==> self.mutes@[q] == target@[q],
                forall|q: int| p <= q < PARTS ==> self.mutes@[q] == a[q],
                forall|i: int| 0 <= i < msgs.len() ==> (#[trigger] msgs@[i]).0 < p && a[msgs@[i].0 as int]
                    != target@[msgs@[i].0 as int] && msgs@[i].1 == target@[msgs@[i].0 as int],
                forall|i: int, j: int| 0 <= i < j < msgs.len() ==> (#[trigger] msgs@[i]).0 < (#[trigger] msgs@[j]).0,
                forall|q: int| 0 <= q < p && a[q] != target@[q] ==> exists|i: int| 0 <= i < msgs.len() && (#[trigger] msgs@[i]).0 == q,
                apply_mute_msgs(a, msgs@) == self.mutes@,
            decreases PARTS - p,
        {
            let want = target[p];
            if self.mutes[p] != want {
                let ghost before = msgs@;
                self.mutes.set(p, want);
                msgs.push((p as u8, want));
                proof {
                    assert(msgs@.drop_last() =~= before);
                    assert(msgs@[msgs.len() - 1] == (p as u8, want));
                    assert forall|q: int| 0 <= q < p + 1 && a[q] != target@[q] implies exists|i: int|
                        0 <= i < msgs.len() && (#[trigger] msgs@[i]).0 == q by {
                        if q == p {
                            assert(msgs@[msgs.len() - 1].0 == q);
                        } else {
                            let i = choose|i: int| 0 <= i < before.len() && (#[trigger] before[i]).0 == q;
                            assert(msgs@[i] == before[i]);
                        }
                    }
                }
            }
            p = p + 1;
        }
        assert(self.mutes@ =~= target@);
        msgs
    }

    /// Flips mute on `part`. Acting on the soloed part first clears the
    /// solo, unmuting every part (reported in part order), so only
    /// `part` ends up muted; the flip of `part` is reported last. Parts
    /// past the last do nothing.
    pub fn toggle_mute(&mut self, part: u8) -> (msgs: Vec<(u8, bool)>)
        requires
            old(self).wf(),
        ensures
            final(self).wf(),
            (final(self).mute_flags(), final(self).soloed()) == mute_step(
                old(self).mute_flags(),
                old(self).soloed(),
                part,
            ),
            part >= PARTS ==> msgs@.len() == 0,
            part < PARTS ==> msgs@.len() >= 1 && msgs@.last() == (part, final(self).mute_flags()[part as int]),
            part < PARTS && old(self).soloed() == Some(part) ==> msgs_are_flips(
                old(self).mute_flags(),
                seq![false, false, false, false],
                msgs@.drop_last(),
            ),
            part < PARTS && old(self).soloed() != Some(part) ==> msgs@.len() == 1,
            apply_mute_msgs(old(self).mute_flags(), msgs@) == final(self).mute_flags(),
    {
        if part as usize >= PARTS {
            let v: Vec<(u8, bool)> = Vec::new();
            return v;
        }
        let p = part as usize;
        let mut msgs: Vec<(u8, bool)> = if self.solo == Some(part) {
            self.solo = None;
            let cleared: Vec<bool> = vec![false, false, false, false];
            assert(cleared@ =~= seq![false, false, false, false]);
            self.set_mutes(&cleared)
        } else {
            Vec::new()
        };
        let ghost before = msgs@;
        let ghost mid = self.mutes@;
        let now_muted = !self.mutes[p];
        self.mutes.set(p, now_muted);
        msgs.push((part, now_muted));
        proof {
            assert(msgs@.drop_last() =~= before);
            assert(self.mutes@ =~= mid.update(part as int, now_muted));
            if old(self).solo != Some(part) {
                assert(before =~= Seq::<(u8, bool)>::empty());
            }
            assert(apply_mute_msgs(old(self).mutes@, before) == mid);
            assert(apply_mute_msgs(old(self).mutes@, msgs@) == apply_mute_msgs(old(self).mutes@, before).update(
                part as int,
                now_muted,
            ));
            if old(self).solo == Some(part) {
                assert(self.mutes@ =~= Seq::new(4, |i: int| i == part));
            } else {
                assert(before =~= Seq::<(u8, bool)>::empty());
                assert(self.mutes@ =~= old(self).mutes@.update(part as int, !old(self).mutes@[part as int]));
            }
        }
        msgs
    }

    /// Takes the mutes of a loaded snapshot: the solo is cleared and each
    /// part's mute becomes `mutes[p]`, reporting only the parts that
    /// flipped, in part order.
    pub fn restore(&mut self, mutes: [bool; 4]) -> (msgs: Vec<(u8, bool)>)
        requires
            old(self).wf(),
        ensures
            final(self).wf(),
            final(self).mute_flags() == mutes@,
            final(self).soloed() is None,
            msgs_are_flips(old(self).mute_flags(), mutes@, msgs@),
            apply_mute_msgs(old(self).mute_flags(), msgs@) == final(self).mute_flags(),
    {
        let target: Vec<bool> = vec![mutes[0], mutes[1], mutes[2], mutes[3]];
        assert(target@ =~= mutes@);
        self.solo = None;
        self.set_mutes(&target)
    }

    /// Toggles exclusive solo on `part`: soloing it again clears the
    /// solo and unmutes everyone; a fresh solo mutes every other part
    /// and unmutes `part`. Parts past the last do nothing.
    pub fn toggle_solo(&mut self, part: u8) -> (msgs: Vec<(u8, bool)>)
        requires
            old(self).wf(),
        ensures
            final(self).wf(),
            (final(self).mute_flags(), final(self).soloed()) == solo_step(
                old(self).mute_flags(),
                old(self).soloed(),
                part,
            ),
            part >= PARTS ==> msgs@.len() == 0,
            msgs_are_flips(old(self).mute_flags(), final(self).mute_flags(), msgs@),
            apply_mute_msgs(old(self).mute_flags(), msgs@) == final(self).mute_flags(),
    {
        if part as usize >= PARTS {
            let v: Vec<(u8, bool)> = Vec::new();
            proof {
                assert(msgs_are_flips(old(self).mute_flags(), self.mute_flags(), v@));
            }
            return v;
        }
        let clearing = self.solo == Some(part);
        let mut target: Vec<bool> = Vec::new();
        let mut q: usize = 0;
        while q < PARTS
            invariant
                q <= PARTS,
                target.len() == q,
                forall|i: int| 0 <= i < q ==> target@[i] == (!clearing && i != part),
            decreases PARTS - q,
        {
            target.push(!clearing && q != part as usize);
            q = q + 1;
        }
        self.solo = if clearing {
            None
        } else {
            Some(part)
        };
        let msgs = self.set_mutes(&target);
        proof {
            if clearing {
                assert(self.mutes@ =~= seq![false, false, false, false]);
            } else {
                assert(self.mutes@ =~= Seq::new(4, |i: int| i != part));
            }
        }
        msgs
    }
}

/// The mixer after toggling mute on `part`.
pub open spec fn mute_step(mutes: Seq<bool>, solo: Option<u8>, part: u8) -> (Seq<bool>, Option<u8>) {
    if part >= PARTS {
        (mutes, solo)
    } else if solo == Some(part) {
        (Seq::new(4, |i: int| i == part), None)
    } else {
        (mutes.update(part as int, !mutes[part as int]), solo)
    }
}

/// The mixer after toggling solo on `part`.
pub open spec fn solo_step(mutes: Seq<bool>, solo: Option<u8>, part: u8) -> (Seq<bool>, Option<u8>) {
    if part >= PARTS {
        (mutes, solo)
    } else if solo == Some(part) {
        (seq![false, false, false, false], None)
    } else {
        (Seq::new(4, |i: int| i != part), Some(part))
    }
}

/// Law: soloing the same part twice leaves nothing soloed and nothing
/// muted, whatever the mixer held before.
pub proof fn lemma_solo_twice_clears(mutes: Seq<bool>, solo: Option<u8>, part: u8)
    requires
        part < PARTS,
        solo != Some(part),
    ensures
        ({
            let (m1, s1) = solo_step(mutes, solo, part);
            solo_step(m1, s1, part) == (seq![false, false, false, false], None::<u8>)
        }),
{
}

/// Law: a solo mutes exactly the other parts.
pub proof fn lemma_solo_is_exclusive(mutes: Seq<bool>, solo: Option<u8>, part: u8, q: int)
    requires
        part < PARTS,
        solo != Some(part),
        0 <= q < PARTS,
    ensures
        solo_step(mutes, solo, part).0[q] == (q != part),
{
}

/// Law: muting and unmuting a part that is not soloed restores the
/// mixer.
pub proof fn lemma_mute_twice_restores(mutes: Seq<bool>, solo: Option<u8>, part: u8)
    requires
        mutes.len() == PARTS,
        solo != Some(part),
    ensures
        ({
            let (m1, s1) = mute_step(mutes, solo, part);
            mute_step(m1, s1, part) == (mutes, solo)
        }),
{
    if part < PARTS {
        let (m1, s1) = mute_step(mutes, solo, part);
        assert(m1.update(part as int, !m1[part as int]) =~= mutes);
    }
}

} // verus!
