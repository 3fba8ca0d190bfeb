//! MIDI channel routing on the MIDI page: which of the sixteen input
//! channels drives which part. A channel routes to at most one part by
//! construction; picking a channel for a part also keeps each part on
//! at most one channel, stealing the channel from another part if need
//! be.

use vstd::prelude::*;

verus! {

/// Number of MIDI channels.
pub const MIDI_CHANNELS: usize = 16;

/// The channel → part table.
pub struct ChannelRouting {
    map: Vec<Option<u8>>,
}

/// The table after picking `channel` for `part`: every channel that
/// routed to `part` is cleared, then `channel` (when it is one of the
/// sixteen) routes to `part`, whatever it routed to before.
pub open spec fn pick_channel(m: Seq<Option<u8>>, part: u8, channel: Option<u8>) -> Seq<Option<u8>> {
    Seq::new(
        m.len(),
        |c: int|
            if channel == Some(c as u8) && c < MIDI_CHANNELS {
                Some(part)
            } else if m[c] == Some(part) {
                None
            } else {
                m[c]
            },
    )
}

impl ChannelRouting {
    /// The part each channel routes to, channel by channel.
    pub closed spec fn view_map(&self) -> Seq<Option<u8>> {
        self.map@
    }

    /// Exactly sixteen channels.
    pub closed spec fn wf(&self) -> bool {
        self.map.len() == MIDI_CHANNELS
    }

    /// No channel routed.
    pub fn new() -> (r: Self)
        ensures
            r.wf(),
            forall|c: int| 0 <= c < MIDI_CHANNELS ==> r.view_map()[c] is None,
    {
        let mut map: Vec<Option<u8>> = Vec::new();
        let mut c: usize = 0;
        while c < MIDI_CHANNELS
            invariant
                c <= MIDI_CHANNELS,
                map.len() == c,
                forall|d: int| 0 <= d < c ==> map@[d] is None,
            decreases MIDI_CHANNELS - c,
        {
            map.push(None);
            c = c + 1;
        }
        ChannelRouting { map }
    }

    /// The part `ch` routes to; channels past the sixteenth route nowhere.
    pub fn part_for_channel(&self, ch: u8) -> (p: Option<u8>)
        requires
            self.wf(),
        ensures
            p == (if ch < MIDI_CHANNELS {
                self.view_map()[ch as int]
            } else {
                None::<u8>
            }),
    {
        if (ch as usize) < MIDI_CHANNELS {
            self.map[ch as usize]
        } else {
            None
        }
    }

    /// Routes `ch` to `part`, or nowhere; channels past the sixteenth
    /// are ignored.
    pub fn set_channel(&mut self, ch: u8, part: Option<u8>)
        requires
            old(self).wf(),
        ensures
            final(self).wf(),
            final(self).view_map() == (if ch < MIDI_CHANNELS {
                old(self).view_map().update(ch as int, part)
            } else {
                old(self).view_map()
            }),
    {
        if (ch as usize) < MIDI_CHANNELS {
            self.map.set(ch as usize, part);
        }
    }

    /// The lowest channel that routes to `part`, if any: the channel the
    /// MIDI page shows for the part.
    pub fn channel_for_part(&self, part: u8) -> (c: Option<u8>)
        requires
            self.wf(),
        ensures
            match c {
                Some(ch) => ch < MIDI_CHANNELS && self.view_map()[ch as int] == Some(part) && forall|d: int|
                    0 <= d < ch ==> self.view_map()[d] != Some(part),
                None => forall|d: int| 0 <= d < MIDI_CHANNELS ==> self.view_map()[d] != Some(part),
            },
    {
        let mut c: usize = 0;
        while c < MIDI_CHANNELS
            invariant
                self.wf(),
                c <= MIDI_CHANNELS,
                forall|d: int| 0 <= d < c ==> self.map@[d] != Some(part),
            decreases MIDI_CHANNELS - c,
        {
            if self.map[c] == Some(part) {
                return Some(c as u8);
            }
            c = c + 1;
        }
        None
    }

    /// Picks `channel` for `part`: the part leaves whatever channel it
    /// was on, and `channel`, if it is one of the sixteen, now routes to
    /// `part`, taken from any other part it routed to.
    pub fn set_channel_for_part(&mut self, part: u8, channel: Option<u8>)
        requires
            old(self).wf(),
        ensures
            final(self).wf(),
            final(self).view_map() == pick_channel(old(self).view_map(), part, channel),
    {
        let ghost m = self.map@;
        let mut c: usize = 0;
        while c < MIDI_CHANNELS
            invariant
                self.wf(),
                c <= MIDI_CHANNELS,
                m.len() == MIDI_CHANNELS,
                forall|d: int| 0 <= d < c ==> self.map@[d] == (if m[d] == Some(part) { None } else { m[d] }),
                forall|d: int| c <= d < MIDI_CHANNELS ==> self.map@[d] == m[d],
            decreases MIDI_CHANNELS - c,
        {
            if self.map[c] == Some(part) {
                self.map.set(c, None);
            }
            c = c + 1;
        }
        if let Some(ch) = channel {
            if (ch as usize) < MIDI_CHANNELS {
                self.map.set(ch as usize, Some(part));
            }
        }
        proof {
            assert(self.map@ =~= pick_channel(m, part, channel));
        }
    }
}

/// Law: after picking a channel for a part, that part is on exactly the
/// picked channel (on none if the pick was empty or past the sixteenth),
/// and every other part keeps its channels except the one taken.
pub proof fn lemma_pick_is_exclusive(m: Seq<Option<u8>>, part: u8, channel: Option<u8>, c: int)
    requires
        m.len() == MIDI_CHANNELS,
        0 <= c < MIDI_CHANNELS,
    ensures
        (pick_channel(m, part, channel)[c] == Some(part)) == (channel == Some(c as u8)),
        channel != Some(c as u8) && m[c] != Some(part) ==> pick_channel(m, part, channel)[c] == m[c],
{
}

/// Law: picking never routes a channel to a third part. Every channel
/// other than the picked one either keeps its part or routes nowhere,
/// and it routes nowhere exactly when it routed nowhere before or to
/// the picking part.
pub proof fn lemma_pick_moves_no_other_part(m: Seq<Option<u8>>, part: u8, channel: Option<u8>, c: int)
    requires
        m.len() == MIDI_CHANNELS,
        0 <= c < MIDI_CHANNELS,
        channel != Some(c as u8),
    ensures
        pick_channel(m, part, channel)[c] == m[c] || pick_channel(m, part, channel)[c] is None,
        (pick_channel(m, part, channel)[c] is None) == (m[c] is None || m[c] == Some(part)),
{
}

} // verus!
