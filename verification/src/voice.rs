use vstd::prelude::*;

verus! {

/// Identifier of the modulation source a re-modulation request is tagged
/// with, so that only voices whose modulation routing depends on that source
/// need recompute.
#[derive(Clone, Copy, PartialEq, Eq, Structural, Debug)]
pub enum ModSource {
    /// A plain MIDI controller, by its number.
    Controller(u8),
    PitchWheel,
    PitchWheelSens,
    ChannelPressure,
    KeyPressure,
}

/// Lifecycle tag of a voice. A voice that is removed leaves the pool
/// altogether; no transition leads back from removal.
#[derive(Clone, Copy, PartialEq, Eq, Structural, Debug)]
pub enum VoiceStatus {
    Sounding,
    Releasing,
}

/// One actively rendering note instance, bound to a channel, a key and a
/// never-reused note identity. The sample-rendering state itself lives in
/// the signal-path collaborator; the pool tracks the lifecycle and the
/// re-modulation requests addressed to the voice.
#[derive(Clone, Copy, PartialEq, Eq, Debug)]
pub struct Voice {
    pub chan: usize,
    pub key: u8,
    pub vel: u8,
    pub note_id: u64,
    /// Tick at which the voice started sounding.
    pub start_tick: u64,
    pub status: VoiceStatus,
    /// A note-off arrived before the minimum hold time elapsed; the release
    /// fires on the tick sweep once the hold time is reached.
    pub deferred_release: bool,
    /// Most recent re-modulation request addressed to this voice.
    pub last_mod: Option<ModSource>,
}

/// The set of live voices plus the monotonically increasing note-identity
/// counter.
pub struct VoicePool {
    pub voices: Vec<Voice>,
    pub noteid: u64,
}

/// Effect of a note-off request on one voice: a sounding voice on the pair
/// that has held at least `min_len` ticks enters release; one that has not
/// keeps sounding with the release deferred to the tick sweep. Other voices
/// are untouched.
pub open spec fn noteoff_voice(v: Voice, chan: usize, key: u8, min_len: u64, now: u64) -> Voice {
    if v.chan == chan && v.key == key && v.status is Sounding {
        if now >= v.start_tick + min_len {
            Voice { status: VoiceStatus::Releasing, ..v }
        } else {
            Voice { deferred_release: true, ..v }
        }
    } else {
        v
    }
}

pub open spec fn pool_noteoff(s: Seq<Voice>, chan: usize, key: u8, min_len: u64, now: u64) -> Seq<
    Voice,
> {
    Seq::new(s.len(), |i: int| noteoff_voice(s[i], chan, key, min_len, now))
}

/// Effect of a same-note steal on one voice: a sounding voice on the pair is
/// forced into release unconditionally, so that no two sounding voices ever
/// coexist on one (channel, key) pair.
pub open spec fn steal_voice(v: Voice, chan: usize, key: u8) -> Voice {
    if v.chan == chan && v.key == key && v.status is Sounding {
        Voice { status: VoiceStatus::Releasing, ..v }
    } else {
        v
    }
}

pub open spec fn pool_steal(s: Seq<Voice>, chan: usize, key: u8) -> Seq<Voice> {
    Seq::new(s.len(), |i: int| steal_voice(s[i], chan, key))
}

/// Effect of all-notes-off on one voice: every sounding voice of the channel
/// gets the note-off treatment, whatever its key.
pub open spec fn release_chan_voice(v: Voice, chan: usize, min_len: u64, now: u64) -> Voice {
    if v.chan == chan && v.status is Sounding {
        if now >= v.start_tick + min_len {
            Voice { status: VoiceStatus::Releasing, ..v }
        } else {
            Voice { deferred_release: true, ..v }
        }
    } else {
        v
    }
}

pub open spec fn pool_release_chan(s: Seq<Voice>, chan: usize, min_len: u64, now: u64) -> Seq<
    Voice,
> {
    Seq::new(s.len(), |i: int| release_chan_voice(s[i], chan, min_len, now))
}

/// What remains of the pool after a hard stop of one channel: the voices of
/// the other channels, in order, with no release tail for the stopped ones.
pub open spec fn remove_chan(s: Seq<Voice>, chan: usize) -> Seq<Voice>
    decreases s.len(),
{
    if s.len() == 0 {
        s
    } else if s.last().chan == chan {
        remove_chan(s.drop_last(), chan)
    } else {
        remove_chan(s.drop_last(), chan).push(s.last())
    }
}

/// Nothing of the stopped channel survives `remove_chan`, and every voice of
/// another channel does, unchanged.
pub proof fn lemma_remove_chan(s: Seq<Voice>, chan: usize)
    ensures
        forall|i: int| 0 <= i < remove_chan(s, chan).len() ==> (#[trigger] remove_chan(s, chan)[i]).chan != chan,
        forall|i: int|
            0 <= i < s.len() && (#[trigger] s[i]).chan != chan ==> remove_chan(s, chan).contains(s[i]),
        remove_chan(s, chan).len() <= s.len(),
    decreases s.len(),
{
    if s.len() > 0 {
        lemma_remove_chan(s.drop_last(), chan);
        assert(forall|i: int| 0 <= i < s.len() - 1 ==> s.drop_last()[i] == s[i]);
        let out = remove_chan(s, chan);
        if s.last().chan != chan {
            assert(out.last() == s.last());
            assert forall|i: int| 0 <= i < s.len() && (#[trigger] s[i]).chan != chan implies out.contains(
                s[i],
            ) by {
                if i == s.len() - 1 {
                    assert(out[out.len() - 1] == s[i]);
                } else {
                    let sub = remove_chan(s.drop_last(), chan);
                    assert(sub.contains(s[i]));
                    let j = choose|j: int| 0 <= j < sub.len() && sub[j] == s[i];
                    assert(out[j] == s[i]);
                }
            }
        }
    }
}

/// `b` is a subsequence of `a`, drawn from the strictly increasing source
/// positions `srcs`. Witnessing the positions lets a caller carry pairwise
/// facts about `a` (distinct identities, at most one sounding voice per
/// (channel, key) pair) over to `b`.
pub open spec fn subseq_map(a: Seq<Voice>, b: Seq<Voice>, srcs: Seq<int>) -> bool {
    &&& srcs.len() == b.len()
    &&& forall|i: int, j: int| 0 <= i < j < srcs.len() ==> #[trigger] srcs[i] < #[trigger] srcs[j]
    &&& forall|i: int| 0 <= i < srcs.len() ==> 0 <= #[trigger] srcs[i] < a.len() && b[i] == a[srcs[i]]
}

/// Effect of a channel-scoped re-modulation broadcast on one voice.
pub open spec fn mod_voice(v: Voice, chan: usize, src: ModSource) -> Voice {
    if v.chan == chan {
        Voice { last_mod: Some(src), ..v }
    } else {
        v
    }
}

pub open spec fn pool_modulate(s: Seq<Voice>, chan: usize, src: ModSource) -> Seq<Voice> {
    Seq::new(s.len(), |i: int| mod_voice(s[i], chan, src))
}

/// Effect of a key-pressure notification on one voice: only voices on the
/// exact (channel, key) pair are told to recompute.
pub open spec fn keypress_voice(v: Voice, chan: usize, key: u8) -> Voice {
    if v.chan == chan && v.key == key {
        Voice { last_mod: Some(ModSource::KeyPressure), ..v }
    } else {
        v
    }
}

pub open spec fn pool_keypress(s: Seq<Voice>, chan: usize, key: u8) -> Seq<Voice> {
    Seq::new(s.len(), |i: int| keypress_voice(s[i], chan, key))
}

/// Effect of the tick sweep on one voice: a deferred release fires once the
/// minimum hold time has elapsed.
pub open spec fn sweep_voice(v: Voice, min_len: u64, now: u64) -> Voice {
    if v.status is Sounding && v.deferred_release && now >= v.start_tick + min_len {
        Voice { status: VoiceStatus::Releasing, ..v }
    } else {
        v
    }
}

pub open spec fn pool_sweep(s: Seq<Voice>, min_len: u64, now: u64) -> Seq<Voice> {
    Seq::new(s.len(), |i: int| sweep_voice(s[i], min_len, now))
}

/// The voice allocated by a note-on.
pub open spec fn new_voice(chan: usize, key: u8, vel: u8, note_id: u64, start_tick: u64) -> Voice {
    Voice {
        chan,
        key,
        vel,
        note_id,
        start_tick,
        status: VoiceStatus::Sounding,
        deferred_release: false,
        last_mod: None,
    }
}

impl VoicePool {
    pub fn new() -> (p: VoicePool)
        ensures
            p.voices@ == Seq::<Voice>::empty(),
            p.noteid == 0,
    {
        VoicePool { voices: Vec::new(), noteid: 0 }
    }

    /// Force every sounding voice on the (channel, key) pair into release,
    /// ahead of a new allocation on the same pair.
    pub fn release_voice_on_same_note(&mut self, chan: usize, key: u8)
        ensures
            final(self).noteid == old(self).noteid,
            final(self).voices@ == pool_steal(old(self).voices@, chan, key),
    {
        let n = self.voices.len();
        let mut i: usize = 0;
        while i < n
            invariant
                n == self.voices@.len(),
                i <= n,
                self.noteid == old(self).noteid,
                forall|j: int|
                    0 <= j < i ==> self.voices@[j] == steal_voice(old(self).voices@[j], chan, key),
                forall|j: int| i <= j < n ==> self.voices@[j] == old(self).voices@[j],
            decreases n - i,
        {
            let v = self.voices[i];
            if v.chan == chan && v.key == key && v.status == VoiceStatus::Sounding {
                let mut nv = v;
                nv.status = VoiceStatus::Releasing;
                self.voices[i] = nv;
            }
            i = i + 1;
        }
        proof {
            assert(self.voices@ =~= pool_steal(old(self).voices@, chan, key));
        }
    }

    /// Request release of the sounding voices on the (channel, key) pair,
    /// honouring the minimum hold time: a too-young voice keeps sounding
    /// with its release deferred to the tick sweep.
    pub fn noteoff(&mut self, chan: usize, key: u8, min_len: u64, now: u64)
        ensures
            final(self).noteid == old(self).noteid,
            final(self).voices@ == pool_noteoff(old(self).voices@, chan, key, min_len, now),
    {
        let n = self.voices.len();
        let mut i: usize = 0;
        while i < n
            invariant
                n == self.voices@.len(),
                i <= n,
                self.noteid == old(self).noteid,
                forall|j: int|
                    0 <= j < i ==> self.voices@[j] == noteoff_voice(
                        old(self).voices@[j],
                        chan,
                        key,
                        min_len,
                        now,
                    ),
                forall|j: int| i <= j < n ==> self.voices@[j] == old(self).voices@[j],
            decreases n - i,
        {
            let v = self.voices[i];
            if v.chan == chan && v.key == key && v.status == VoiceStatus::Sounding {
                let mut nv = v;
                if now >= v.start_tick && now - v.start_tick >= min_len {
                    nv.status = VoiceStatus::Releasing;
                } else {
                    nv.deferred_release = true;
                }
                self.voices[i] = nv;
            }
            i = i + 1;
        }
        proof {
            assert(self.voices@ =~= pool_noteoff(old(self).voices@, chan, key, min_len, now));
        }
    }

    /// Request release of every sounding voice on the channel, gracefully:
    /// envelopes are respected and the minimum hold time is honoured.
    pub fn all_notes_off(&mut self, chan: usize, min_len: u64, now: u64)
        ensures
            final(self).noteid == old(self).noteid,
            final(self).voices@ == pool_release_chan(old(self).voices@, chan, min_len, now),
    {
        let n = self.voices.len();
        let mut i: usize = 0;
        while i < n
            invariant
                n == self.voices@.len(),
                i <= n,
                self.noteid == old(self).noteid,
                forall|j: int|
                    0 <= j < i ==> self.voices@[j] == release_chan_voice(
                        old(self).voices@[j],
                        chan,
                        min_len,
                        now,
                    ),
                forall|j: int| i <= j < n ==> self.voices@[j] == old(self).voices@[j],
            decreases n - i,
        {
            let v = self.voices[i];
            if v.chan == chan && v.status == VoiceStatus::Sounding {
                let mut nv = v;
                if now >= v.start_tick && now - v.start_tick >= min_len {
                    nv.status = VoiceStatus::Releasing;
                } else {
                    nv.deferred_release = true;
                }
                self.voices[i] = nv;
            }
            i = i + 1;
        }
        proof {
            assert(self.voices@ =~= pool_release_chan(old(self).voices@, chan, min_len, now));
        }
    }

    /// Hard-stop the channel: every one of its voices is removed at once,
    /// with no release tail.
    pub fn all_sounds_off(&mut self, chan: usize)
        ensures
            final(self).noteid == old(self).noteid,
            final(self).voices@ == remove_chan(old(self).voices@, chan),
            exists|srcs: Seq<int>| subseq_map(old(self).voices@, final(self).voices@, srcs),
    {
        let n = self.voices.len();
        let mut kept: Vec<Voice> = Vec::new();
        let ghost mut srcs: Seq<int> = Seq::empty();
        let mut i: usize = 0;
        while i < n
            invariant
                n == self.voices@.len(),
                i <= n,
                self.noteid == old(self).noteid,
                self.voices@ == old(self).voices@,
                kept@ == remove_chan(self.voices@.subrange(0, i as int), chan),
                srcs.len() == kept@.len(),
                forall|a: int, b: int| 0 <= a < b < srcs.len() ==> #[trigger] srcs[a] < #[trigger] srcs[b],
                forall|a: int|
                    0 <= a < srcs.len() ==> 0 <= #[trigger] srcs[a] < i && kept@[a]
                        == self.voices@[srcs[a]],
            decreases n - i,
        {
            let v = self.voices[i];
            proof {
                let part = self.voices@.subrange(0, i + 1);
                assert(part.drop_last() =~= self.voices@.subrange(0, i as int));
                assert(part.last() == self.voices@[i as int]);
            }
            if v.chan != chan {
                kept.push(v);
                proof {
                    srcs = srcs.push(i as int);
                }
            }
            i = i + 1;
        }
        proof {
            assert(self.voices@.subrange(0, n as int) =~= self.voices@);
            assert(subseq_map(self.voices@, kept@, srcs));
        }
        self.voices = kept;
    }

    /// Hard-stop everything: the panic reset leaves no voice in the pool.
    /// The note-identity counter is kept, so identities are never reused.
    pub fn system_reset(&mut self)
        ensures
            final(self).noteid == old(self).noteid,
            final(self).voices@ == Seq::<Voice>::empty(),
    {
        self.voices = Vec::new();
    }

    /// Broadcast a re-modulation request, tagged with its source, to every
    /// voice of the channel.
    pub fn modulate_voices(&mut self, chan: usize, src: ModSource)
        ensures
            final(self).noteid == old(self).noteid,
            final(self).voices@ == pool_modulate(old(self).voices@, chan, src),
    {
        let n = self.voices.len();
        let mut i: usize = 0;
        while i < n
            invariant
                n == self.voices@.len(),
                i <= n,
                self.noteid == old(self).noteid,
                forall|j: int|
                    0 <= j < i ==> self.voices@[j] == mod_voice(old(self).voices@[j], chan, src),
                forall|j: int| i <= j < n ==> self.voices@[j] == old(self).voices@[j],
            decreases n - i,
        {
            let v = self.voices[i];
            if v.chan == chan {
                let mut nv = v;
                nv.last_mod = Some(src);
                self.voices[i] = nv;
            }
            i = i + 1;
        }
        proof {
            assert(self.voices@ =~= pool_modulate(old(self).voices@, chan, src));
        }
    }

    /// Notify only the voices on the exact (channel, key) pair of a key
    /// pressure change.
    pub fn key_pressure(&mut self, chan: usize, key: u8)
        ensures
            final(self).noteid == old(self).noteid,
            final(self).voices@ == pool_keypress(old(self).voices@, chan, key),
    {
        let n = self.voices.len();
        let mut i: usize = 0;
        while i < n
            invariant
                n == self.voices@.len(),
                i <= n,
                self.noteid == old(self).noteid,
                forall|j: int|
                    0 <= j < i ==> self.voices@[j] == keypress_voice(old(self).voices@[j], chan, key),
                forall|j: int| i <= j < n ==> self.voices@[j] == old(self).voices@[j],
            decreases n - i,
        {
            let v = self.voices[i];
            if v.chan == chan && v.key == key {
                let mut nv = v;
                nv.last_mod = Some(ModSource::KeyPressure);
                self.voices[i] = nv;
            }
            i = i + 1;
        }
        proof {
            assert(self.voices@ =~= pool_keypress(old(self).voices@, chan, key));
        }
    }

    /// The tick sweep: fire every deferred release whose minimum hold time
    /// has now elapsed.
    pub fn sweep(&mut self, min_len: u64, now: u64)
        ensures
            final(self).noteid == old(self).noteid,
            final(self).voices@ == pool_sweep(old(self).voices@, min_len, now),
    {
        let n = self.voices.len();
        let mut i: usize = 0;
        while i < n
            invariant
                n == self.voices@.len(),
                i <= n,
                self.noteid == old(self).noteid,
                forall|j: int|
                    0 <= j < i ==> self.voices@[j] == sweep_voice(old(self).voices@[j], min_len, now),
                forall|j: int| i <= j < n ==> self.voices@[j] == old(self).voices@[j],
            decreases n - i,
        {
            let v = self.voices[i];
            if v.status == VoiceStatus::Sounding && v.deferred_release && now >= v.start_tick
                && now - v.start_tick >= min_len {
                let mut nv = v;
                nv.status = VoiceStatus::Releasing;
                self.voices[i] = nv;
            }
            i = i + 1;
        }
        proof {
            assert(self.voices@ =~= pool_sweep(old(self).voices@, min_len, now));
        }
    }

    /// Take the next note identity and start a sounding voice with it.
    pub fn start_voice(&mut self, chan: usize, key: u8, vel: u8, start_tick: u64)
        requires
            old(self).noteid < u64::MAX,
        ensures
            final(self).noteid == old(self).noteid + 1,
            final(self).voices@ == old(self).voices@.push(
                new_voice(chan, key, vel, (old(self).noteid + 1) as u64, start_tick),
            ),
    {
        self.noteid = self.noteid + 1;
        let v = Voice {
            chan,
            key,
            vel,
            note_id: self.noteid,
            start_tick,
            status: VoiceStatus::Sounding,
            deferred_release: false,
            last_mod: None,
        };
        self.voices.push(v);
    }
}

} // verus!
