use vstd::prelude::*;
use crate::channel::Channel;
use crate::channel::DRUM_CHANNEL;
use crate::channel::PERCUSSION_BANK;
use crate::error::MidiError;
use crate::font::PresetId;
use crate::font::PresetKey;
use crate::font::SoundFont;
use crate::font::fonts_wf;
use crate::font::find_preset;
use crate::font::get_preset;
use crate::font::lemma_font_find;
use crate::font::lemma_stack_find;
use crate::font::slot_find;
use crate::font::stack_find;
use crate::voice::ModSource;
use crate::voice::Voice;
use crate::voice::VoicePool;
use crate::voice::new_voice;
use crate::voice::pool_keypress;
use crate::voice::pool_modulate;
use crate::voice::pool_noteoff;
use crate::voice::pool_release_chan;
use crate::voice::pool_steal;
use crate::voice::steal_voice;
use crate::voice::pool_sweep;
use crate::voice::remove_chan;
use crate::voice::subseq_map;

verus! {

/// Report of a substitution applied by a program change whose requested
/// (bank, program) pair did not resolve: the pair attempted and the pair
/// the deterministic cascade substituted. A substitution is reported, never
/// a failure of the call.
#[derive(Clone, Copy, PartialEq, Eq, Structural, Debug)]
pub struct SubstEvent {
    pub chan: usize,
    /// Pair the lookup first attempted.
    pub bank: u32,
    pub prog: u8,
    /// Pair the cascade fell back to.
    pub subst_bank: u32,
    pub subst_prog: u8,
}

/// The synthesizer control core: the one explicit context object every
/// operation works on. It owns the channel array and the voice pool, and
/// shares the loaded soundfont stack read-only with the channels.
pub struct Synth {
    pub channels: Vec<Channel>,
    /// The loaded soundfont stack; later entries mask earlier ones.
    pub fonts: Vec<SoundFont>,
    pub voices: VoicePool,
    /// Current time in sample ticks, advanced by the rendering collaborator.
    pub ticks: u64,
    /// Shortest permitted sounding time before a voice may be released.
    pub min_note_length_ticks: u64,
    /// Whether channel 9 addresses the percussion bank on program change.
    pub drums_channel_active: bool,
    /// Report channel for preset substitutions, in place of a logging sink:
    /// the most recent substitution applied by a program change.
    pub last_substitution: Option<SubstEvent>,
}

/// `b` is `a` with controller `num` set to `val` and nothing else changed.
pub open spec fn ctrl_updated(a: Channel, b: Channel, num: int, val: u8) -> bool {
    &&& b.controllers@ == a.controllers@.update(num, val)
    &&& b.id == a.id
    &&& b.banknum == a.banknum
    &&& b.prognum == a.prognum
    &&& b.sfontnum == a.sfontnum
    &&& b.preset == a.preset
    &&& b.pitch_bend == a.pitch_bend
    &&& b.pitch_wheel_sensitivity == a.pitch_wheel_sensitivity
    &&& b.channel_pressure == a.channel_pressure
    &&& b.key_pressure@ == a.key_pressure@
}

/// `b` is `a` with the pressure of `key` set to `val` and nothing else
/// changed.
pub open spec fn key_pressure_updated(a: Channel, b: Channel, key: int, val: i8) -> bool {
    &&& b.key_pressure@ == a.key_pressure@.update(key, val)
    &&& b.id == a.id
    &&& b.banknum == a.banknum
    &&& b.prognum == a.prognum
    &&& b.sfontnum == a.sfontnum
    &&& b.preset == a.preset
    &&& b.controllers@ == a.controllers@
    &&& b.pitch_bend == a.pitch_bend
    &&& b.pitch_wheel_sensitivity == a.pitch_wheel_sensitivity
    &&& b.channel_pressure == a.channel_pressure
}

/// Pointwise pool transition that keeps every voice's binding and identity
/// and at most moves voices out of the sounding state — the shape of every
/// release, steal, broadcast and sweep.
pub open spec fn pointwise_release_only(a: Seq<Voice>, b: Seq<Voice>) -> bool {
    &&& b.len() == a.len()
    &&& forall|i: int|
        0 <= i < a.len() ==> {
            &&& (#[trigger] b[i]).chan == a[i].chan
            &&& b[i].key == a[i].key
            &&& b[i].note_id == a[i].note_id
            &&& b[i].start_tick == a[i].start_tick
            &&& (b[i].status is Sounding ==> a[i].status is Sounding)
        }
}

/// Pool validity survives any pointwise transition that only releases
/// voices, as long as the channel count does not shrink and the clock and
/// identity counter do not run backwards.
pub proof fn lemma_voices_wf_preserved(pre: Synth, post: Synth)
    requires
        pre.voices_wf(),
        pointwise_release_only(pre.voices.voices@, post.voices.voices@),
        post.channels@.len() >= pre.channels@.len(),
        post.ticks >= pre.ticks,
        post.voices.noteid >= pre.voices.noteid,
    ensures
        post.voices_wf(),
{
}

/// The handle names an existing preset of the stack.
pub open spec fn preset_valid(fonts: Seq<SoundFont>, p: PresetId) -> bool {
    &&& p.sfont_id < fonts.len()
    &&& p.preset_idx < fonts[p.sfont_id as int].presets@.len()
}

/// Bank a program change resolves against: the percussion sentinel on the
/// drum channel while drum mode is active, the channel's bank otherwise.
pub open spec fn lookup_bank(ch: Channel, drums_active: bool) -> u32 {
    if ch.id == DRUM_CHANNEL && drums_active {
        PERCUSSION_BANK
    } else {
        ch.banknum
    }
}

/// The deterministic substitution cascade of a program change: the
/// requested pair, then — off the percussion bank — (0, program) and
/// (0, 0), or on the percussion bank (128, 0). A final miss leaves the
/// channel silent; it is never a failure of the call.
pub open spec fn cascade(fonts: Seq<SoundFont>, bank: u32, prog: u8) -> Option<PresetId> {
    match stack_find(fonts, bank, prog) {
        Some(p) => Some(p),
        None => if bank != PERCUSSION_BANK {
            match stack_find(fonts, 0, prog) {
                Some(p) => Some(p),
                None => if prog != 0 {
                    stack_find(fonts, 0, 0)
                } else {
                    None
                },
            }
        } else {
            stack_find(fonts, PERCUSSION_BANK, 0)
        },
    }
}

/// The (bank, program) pair the cascade substitutes when the requested
/// pair misses.
pub open spec fn subst_pair(fonts: Seq<SoundFont>, bank: u32, prog: u8) -> (u32, u8) {
    if bank != PERCUSSION_BANK {
        if stack_find(fonts, 0, prog) is Some || prog == 0 {
            (0u32, prog)
        } else {
            (0u32, 0u8)
        }
    } else {
        (PERCUSSION_BANK, 0u8)
    }
}

/// The substitution report of a program change whose first lookup missed.
pub open spec fn subst_event_of(chan: usize, fonts: Seq<SoundFont>, bank: u32, prog: u8) -> SubstEvent {
    SubstEvent {
        chan,
        bank,
        prog,
        subst_bank: subst_pair(fonts, bank, prog).0,
        subst_prog: subst_pair(fonts, bank, prog).1,
    }
}

/// The channel after a program change to `prog`: the program selector is
/// recorded unconditionally — even when nothing resolves — and the binding
/// follows the cascade; the bank selector is untouched.
pub open spec fn pc_channel(ch: Channel, fonts: Seq<SoundFont>, drums_active: bool, prog: u8) -> Channel {
    let preset = cascade(fonts, lookup_bank(ch, drums_active), prog);
    Channel {
        prognum: prog,
        sfontnum: match preset {
            Some(p) => Some(p.sfont_id),
            None => None,
        },
        preset,
        ..ch
    }
}

/// Law: a note-on with velocity 0 has the observable effect of a note-off
/// on the same (channel, key) pair. Two final states satisfying, the one
/// the zero-velocity branch of `noteon`'s contract, the other `noteoff`'s
/// contract, from one starting state, agree on every component.
pub proof fn lemma_noteon_zero_velocity_is_noteoff(
    pre: Synth,
    after_on: Synth,
    after_off: Synth,
    chan: usize,
    key: u8,
)
    requires
        after_on.channels == pre.channels,
        after_on.last_substitution == pre.last_substitution,
        pre.same_config(after_on),
        after_on.voices.noteid == pre.voices.noteid,
        after_on.voices.voices@ == pool_noteoff(
            pre.voices.voices@,
            chan,
            key,
            pre.min_note_length_ticks,
            pre.ticks,
        ),
        after_off.channels == pre.channels,
        after_off.last_substitution == pre.last_substitution,
        pre.same_config(after_off),
        after_off.voices.noteid == pre.voices.noteid,
        after_off.voices.voices@ == pool_noteoff(
            pre.voices.voices@,
            chan,
            key,
            pre.min_note_length_ticks,
            pre.ticks,
        ),
    ensures
        after_on.channels == after_off.channels,
        after_on.fonts == after_off.fonts,
        after_on.voices.voices@ == after_off.voices.voices@,
        after_on.voices.noteid == after_off.voices.noteid,
        after_on.ticks == after_off.ticks,
        after_on.last_substitution == after_off.last_substitution,
{
}

/// Law: a successful program change records the requested program in the
/// channel, whether or not a preset was found for it.
pub proof fn lemma_program_change_records_program(
    ch: Channel,
    fonts: Seq<SoundFont>,
    drums_active: bool,
    prog: u8,
)
    ensures
        pc_channel(ch, fonts, drums_active, prog).prognum == prog,
{
}

/// Law: the hard stop removes every voice of the channel with no release
/// tail, while all-notes-off keeps the voices and only moves the eligible
/// sounding ones to the releasing state.
pub proof fn lemma_panic_vs_graceful(s: Seq<Voice>, chan: usize, min_len: u64, now: u64)
    ensures
        forall|i: int|
            0 <= i < remove_chan(s, chan).len() ==> (#[trigger] remove_chan(s, chan)[i]).chan
                != chan,
        pool_release_chan(s, chan, min_len, now).len() == s.len(),
        forall|i: int|
            0 <= i < s.len() && (#[trigger] s[i]).chan == chan && s[i].status is Sounding && now
                >= s[i].start_tick + min_len ==> pool_release_chan(s, chan, min_len, now)[i].status
                is Releasing,
{
    crate::voice::lemma_remove_chan(s, chan);
}

/// Law: a valid synth never holds two sounding voices on one
/// (channel, key) pair.
pub proof fn lemma_sounding_unique(s: Synth, i: int, j: int)
    requires
        s.wf(),
        0 <= i < s.voices.voices@.len(),
        0 <= j < s.voices.voices@.len(),
        i != j,
        s.voices.voices@[i].status is Sounding,
        s.voices.voices@[j].status is Sounding,
    ensures
        !(s.voices.voices@[i].chan == s.voices.voices@[j].chan && s.voices.voices@[i].key
            == s.voices.voices@[j].key),
{
}

/// Law: the same-note steal ahead of a new allocation forces every sounding
/// voice on the pair into the releasing state, so the stolen voice releases
/// before the new voice starts to sound.
pub proof fn lemma_steal_releases(s: Seq<Voice>, chan: usize, key: u8, i: int)
    requires
        0 <= i < s.len(),
        s[i].chan == chan,
        s[i].key == key,
        s[i].status is Sounding,
    ensures
        pool_steal(s, chan, key)[i].status is Releasing,
{
}

impl Synth {
    /// Validity of the voice pool against the rest of the synth state:
    /// every voice is bound to a real channel and a real key, started in the
    /// past, carries an identity the counter has issued — and no two
    /// sounding voices ever coexist on one (channel, key) pair.
    pub open spec fn voices_wf(self) -> bool {
        let vs = self.voices.voices@;
        &&& forall|i: int|
            0 <= i < vs.len() ==> {
                &&& (#[trigger] vs[i]).chan < self.channels@.len()
                &&& vs[i].key < 128
                &&& vs[i].start_tick <= self.ticks
                &&& 1 <= vs[i].note_id <= self.voices.noteid
            }
        &&& forall|i: int, j: int|
            0 <= i < j < vs.len() ==> (#[trigger] vs[i]).note_id != (#[trigger] vs[j]).note_id
        &&& forall|i: int, j: int|
            0 <= i < j < vs.len() && (#[trigger] vs[i]).status is Sounding
                && (#[trigger] vs[j]).status is Sounding ==> !(vs[i].chan == vs[j].chan
                && vs[i].key == vs[j].key)
    }

    /// Validity of the whole synth state, established by the constructor
    /// and preserved by every operation.
    pub open spec fn wf(self) -> bool {
        &&& forall|c: int| 0 <= c < self.channels@.len() ==> (#[trigger] self.channels@[c]).wf()
        &&& forall|c: int| 0 <= c < self.channels@.len() ==> (#[trigger] self.channels@[c]).id == c
        &&& forall|c: int|
            0 <= c < self.channels@.len() ==> match (#[trigger] self.channels@[c]).preset {
                Some(p) => preset_valid(self.fonts@, p),
                None => true,
            }
        &&& fonts_wf(self.fonts@)
        &&& self.voices_wf()
    }

    /// Everything a per-channel message never touches: the font stack, the
    /// clock and the configuration.
    pub open spec fn same_config(self, o: Synth) -> bool {
        &&& o.fonts == self.fonts
        &&& o.ticks == self.ticks
        &&& o.min_note_length_ticks == self.min_note_length_ticks
        &&& o.drums_channel_active == self.drums_channel_active
    }

    /// Build a synth with `nchan` channels in their power-on state, no
    /// loaded soundfont and no sounding voice.
    pub fn new(nchan: usize, drums_channel_active: bool, min_note_length_ticks: u64) -> (s: Synth)
        ensures
            s.wf(),
            s.channels@.len() == nchan,
            forall|c: int|
                0 <= c < nchan ==> (#[trigger] s.channels@[c]).is_init(
                    c as usize,
                    None,
                    drums_channel_active,
                ),
            s.fonts@ == Seq::<SoundFont>::empty(),
            s.voices.voices@.len() == 0,
            s.voices.noteid == 0,
            s.ticks == 0,
            s.min_note_length_ticks == min_note_length_ticks,
            s.drums_channel_active == drums_channel_active,
            s.last_substitution is None,
    {
        let mut channels: Vec<Channel> = Vec::new();
        let mut c: usize = 0;
        while c < nchan
            invariant
                c <= nchan,
                channels@.len() == c,
                forall|j: int| 0 <= j < c ==> (#[trigger] channels@[j]).wf(),
                forall|j: int| 0 <= j < c ==> (#[trigger] channels@[j]).id == j,
                forall|j: int|
                    0 <= j < c ==> (#[trigger] channels@[j]).is_init(
                        j as usize,
                        None,
                        drums_channel_active,
                    ),
            decreases nchan - c,
        {
            channels.push(Channel::new(c, None, drums_channel_active));
            c = c + 1;
        }
        Synth {
            channels,
            fonts: Vec::new(),
            voices: VoicePool::new(),
            ticks: 0,
            min_note_length_ticks,
            drums_channel_active,
            last_substitution: None,
        }
    }

    /// Push a soundfont onto the stack and return its slot id. A later font
    /// masks earlier ones in `program_change` resolution.
    pub fn add_font(&mut self, presets: Vec<PresetKey>) -> (id: usize)
        requires
            old(self).wf(),
            old(self).fonts@.len() < usize::MAX,
        ensures
            final(self).wf(),
            id == old(self).fonts@.len(),
            final(self).fonts@ == old(self).fonts@.push(SoundFont { presets: presets }),
            final(self).channels == old(self).channels,
            final(self).voices == old(self).voices,
            final(self).ticks == old(self).ticks,
            final(self).min_note_length_ticks == old(self).min_note_length_ticks,
            final(self).drums_channel_active == old(self).drums_channel_active,
            final(self).last_substitution == old(self).last_substitution,
    {
        proof {
            assert(presets.len() == presets@.len());
            assert(self.fonts.len() == self.fonts@.len());
        }
        let id = self.fonts.len();
        self.fonts.push(SoundFont { presets });
        proof {
            assert forall|f: int| 0 <= f < self.fonts@.len() implies (#[trigger] self.fonts@[f]).presets@.len()
                <= usize::MAX by {
                if f < old(self).fonts@.len() {
                    assert(self.fonts@[f] == old(self).fonts@[f]);
                }
            }
            assert forall|c: int|
                0 <= c < self.channels@.len() implies match (#[trigger] self.channels@[c]).preset {
                Some(p) => preset_valid(self.fonts@, p),
                None => true,
            } by {
                match self.channels@[c].preset {
                    Some(p) => {
                        assert(self.fonts@[p.sfont_id as int] == old(self).fonts@[p.sfont_id as int]);
                    }
                    None => {}
                }
            }
        }
        id
    }

    /// The preset handle a channel is currently bound to; `None` both for
    /// the silent state and never-resolved channels.
    pub fn channel_preset(&self, chan: usize) -> (r: Result<Option<PresetId>, MidiError>)
        ensures
            match r {
                Ok(p) => chan < self.channels@.len() && p == self.channels@[chan as int].preset,
                Err(e) => chan >= self.channels@.len() && e == MidiError::ChannelOutOfRange,
            },
    {
        if chan < self.channels.len() {
            Ok(self.channels[chan].preset)
        } else {
            Err(MidiError::ChannelOutOfRange)
        }
    }

    /// The soundfont slot, bank and program selectors of a channel, as last
    /// accepted — whether or not a preset resolved for them.
    pub fn get_program(&self, chan: u8) -> (r: Result<(Option<usize>, u32, u32), MidiError>)
        ensures
            match r {
                Ok((sfont, bank, prog)) => {
                    &&& (chan as int) < self.channels@.len()
                    &&& sfont == self.channels@[chan as int].sfontnum
                    &&& bank == self.channels@[chan as int].banknum
                    &&& prog == self.channels@[chan as int].prognum as u32
                },
                Err(e) => chan as int >= self.channels@.len() && e == MidiError::ChannelOutOfRange,
            },
    {
        if (chan as usize) < self.channels.len() {
            let c = &self.channels[chan as usize];
            Ok((c.sfontnum, c.banknum, c.prognum as u32))
        } else {
            Err(MidiError::ChannelOutOfRange)
        }
    }

    /// A control value as last received.
    pub fn get_cc(&self, chan: usize, num: u16) -> (r: Result<u8, MidiError>)
        requires
            self.wf(),
        ensures
            match r {
                Ok(v) => {
                    &&& chan < self.channels@.len()
                    &&& num < 128
                    &&& v == self.channels@[chan as int].controllers@[num as int]
                },
                Err(e) => if chan >= self.channels@.len() {
                    e == MidiError::ChannelOutOfRange
                } else {
                    num >= 128 && e == MidiError::CtrlOutOfRange
                },
            },
    {
        if chan >= self.channels.len() {
            Err(MidiError::ChannelOutOfRange)
        } else if num >= 128 {
            Err(MidiError::CtrlOutOfRange)
        } else {
            proof {
                assert(self.channels@[chan as int].wf());
            }
            Ok(self.channels[chan].controllers[num as usize])
        }
    }

    /// The pitch bend value as last received.
    pub fn get_pitch_bend(&self, chan: usize) -> (r: Result<i16, MidiError>)
        ensures
            match r {
                Ok(v) => chan < self.channels@.len() && v == self.channels@[chan as int].pitch_bend,
                Err(e) => chan >= self.channels@.len() && e == MidiError::ChannelOutOfRange,
            },
    {
        if chan < self.channels.len() {
            Ok(self.channels[chan].pitch_bend)
        } else {
            Err(MidiError::ChannelOutOfRange)
        }
    }

    /// One channel replaced, everything about it that validity needs shown:
    /// the whole state is valid again.
    proof fn lemma_wf_channel_update(pre: Synth, post: Synth, chan: int)
        requires
            pre.wf(),
            post.fonts == pre.fonts,
            0 <= chan < pre.channels@.len(),
            post.channels@ == pre.channels@.update(chan, post.channels@[chan]),
            post.channels@[chan].wf(),
            post.channels@[chan].id == chan,
            match post.channels@[chan].preset {
                Some(p) => preset_valid(post.fonts@, p),
                None => true,
            },
        ensures
            forall|c: int| 0 <= c < post.channels@.len() ==> (#[trigger] post.channels@[c]).wf(),
            forall|c: int| 0 <= c < post.channels@.len() ==> (#[trigger] post.channels@[c]).id == c,
            forall|c: int|
                0 <= c < post.channels@.len() ==> match (#[trigger] post.channels@[c]).preset {
                    Some(p) => preset_valid(post.fonts@, p),
                    None => true,
                },
            fonts_wf(post.fonts@),
    {
        assert forall|c: int| 0 <= c < post.channels@.len() implies (#[trigger] post.channels@[c]).wf()
            && post.channels@[c].id == c && match post.channels@[c].preset {
            Some(p) => preset_valid(post.fonts@, p),
            None => true,
        } by {
            if c != chan {
                assert(post.channels@[c] == pre.channels@[c]);
            }
        }
    }

    /// Send a control change: record the controller value and broadcast a
    /// re-modulation request tagged with the controller to the channel's
    /// voices. Invalid input is rejected before any state changes.
    pub fn cc(&mut self, chan: usize, num: u16, val: u16) -> (r: Result<(), MidiError>)
        requires
            old(self).wf(),
        ensures
            final(self).wf(),
            old(self).same_config(*final(self)),
            final(self).voices.noteid == old(self).voices.noteid,
            final(self).last_substitution == old(self).last_substitution,
            match r {
                Ok(()) => {
                    &&& chan < old(self).channels@.len()
                    &&& num < 128
                    &&& val < 128
                    &&& final(self).channels@.len() == old(self).channels@.len()
                    &&& ctrl_updated(
                        old(self).channels@[chan as int],
                        final(self).channels@[chan as int],
                        num as int,
                        val as u8,
                    )
                    &&& forall|c: int|
                        0 <= c < old(self).channels@.len() && c != chan
                            ==> final(self).channels@[c] == old(self).channels@[c]
                    &&& final(self).voices.voices@ == pool_modulate(
                        old(self).voices.voices@,
                        chan,
                        ModSource::Controller(num as u8),
                    )
                },
                Err(e) => {
                    &&& *final(self) == *old(self)
                    &&& if chan >= old(self).channels@.len() {
                        e == MidiError::ChannelOutOfRange
                    } else if num >= 128 {
                        e == MidiError::CtrlOutOfRange
                    } else {
                        val >= 128 && e == MidiError::ValueOutOfRange
                    }
                },
            },
    {
        if chan >= self.channels.len() {
            return Err(MidiError::ChannelOutOfRange);
        }
        if num >= 128 {
            return Err(MidiError::CtrlOutOfRange);
        }
        if val >= 128 {
            return Err(MidiError::ValueOutOfRange);
        }
        proof {
            assert(self.channels@[chan as int].wf());
        }
        let c = &mut self.channels[chan];
        c.controllers[num as usize] = val as u8;
        self.voices.modulate_voices(chan, ModSource::Controller(num as u8));
        proof {
            assert(self.channels@[chan as int].wf());
            Self::lemma_wf_channel_update(*old(self), *self, chan as int);
            assert(pointwise_release_only(old(self).voices.voices@, self.voices.voices@));
            lemma_voices_wf_preserved(*old(self), *self);
        }
        Ok(())
    }

    /// Send a pitch bend: record the 14-bit value and broadcast a pitch
    /// wheel re-modulation request to the channel's voices.
    pub fn pitch_bend(&mut self, chan: usize, val: u16) -> (r: Result<(), MidiError>)
        requires
            old(self).wf(),
        ensures
            final(self).wf(),
            old(self).same_config(*final(self)),
            final(self).voices.noteid == old(self).voices.noteid,
            final(self).last_substitution == old(self).last_substitution,
            match r {
                Ok(()) => {
                    &&& chan < old(self).channels@.len()
                    &&& val < 16384
                    &&& final(self).channels@ == old(self).channels@.update(
                        chan as int,
                        Channel { pitch_bend: val as i16, ..old(self).channels@[chan as int] },
                    )
                    &&& final(self).voices.voices@ == pool_modulate(
                        old(self).voices.voices@,
                        chan,
                        ModSource::PitchWheel,
                    )
                },
                Err(e) => {
                    &&& *final(self) == *old(self)
                    &&& if chan >= old(self).channels@.len() {
                        e == MidiError::ChannelOutOfRange
                    } else {
                        val >= 16384 && e == MidiError::ValueOutOfRange
                    }
                },
            },
    {
        if chan >= self.channels.len() {
            return Err(MidiError::ChannelOutOfRange);
        }
        if val >= 16384 {
            return Err(MidiError::ValueOutOfRange);
        }
        let c = &mut self.channels[chan];
        c.pitch_bend = val as i16;
        self.voices.modulate_voices(chan, ModSource::PitchWheel);
        proof {
            Self::lemma_wf_channel_update(*old(self), *self, chan as int);
            assert(pointwise_release_only(old(self).voices.voices@, self.voices.voices@));
            lemma_voices_wf_preserved(*old(self), *self);
        }
        Ok(())
    }

    /// Set the pitch wheel sensitivity and broadcast the matching
    /// re-modulation request to the channel's voices.
    pub fn pitch_wheel_sens(&mut self, chan: usize, val: u16) -> (r: Result<(), MidiError>)
        requires
            old(self).wf(),
        ensures
            final(self).wf(),
            old(self).same_config(*final(self)),
            final(self).voices.noteid == old(self).voices.noteid,
            final(self).last_substitution == old(self).last_substitution,
            match r {
                Ok(()) => {
                    &&& chan < old(self).channels@.len()
                    &&& val < 16384
                    &&& final(self).channels@ == old(self).channels@.update(
                        chan as int,
                        Channel {
                            pitch_wheel_sensitivity: val,
                            ..old(self).channels@[chan as int]
                        },
                    )
                    &&& final(self).voices.voices@ == pool_modulate(
                        old(self).voices.voices@,
                        chan,
                        ModSource::PitchWheelSens,
                    )
                },
                Err(e) => {
                    &&& *final(self) == *old(self)
                    &&& if chan >= old(self).channels@.len() {
                        e == MidiError::ChannelOutOfRange
                    } else {
                        val >= 16384 && e == MidiError::ValueOutOfRange
                    }
                },
            },
    {
        if chan >= self.channels.len() {
            return Err(MidiError::ChannelOutOfRange);
        }
        if val >= 16384 {
            return Err(MidiError::ValueOutOfRange);
        }
        let c = &mut self.channels[chan];
        c.pitch_wheel_sensitivity = val;
        self.voices.modulate_voices(chan, ModSource::PitchWheelSens);
        proof {
            Self::lemma_wf_channel_update(*old(self), *self, chan as int);
            assert(pointwise_release_only(old(self).voices.voices@, self.voices.voices@));
            lemma_voices_wf_preserved(*old(self), *self);
        }
        Ok(())
    }

    /// Set the channel aftertouch and broadcast the matching re-modulation
    /// request to the channel's voices.
    pub fn channel_pressure(&mut self, chan: usize, val: u16) -> (r: Result<(), MidiError>)
        requires
            old(self).wf(),
        ensures
            final(self).wf(),
            old(self).same_config(*final(self)),
            final(self).voices.noteid == old(self).voices.noteid,
            final(self).last_substitution == old(self).last_substitution,
            match r {
                Ok(()) => {
                    &&& chan < old(self).channels@.len()
                    &&& val < 128
                    &&& final(self).channels@ == old(self).channels@.update(
                        chan as int,
                        Channel {
                            channel_pressure: val as i16,
                            ..old(self).channels@[chan as int]
                        },
                    )
                    &&& final(self).voices.voices@ == pool_modulate(
                        old(self).voices.voices@,
                        chan,
                        ModSource::ChannelPressure,
                    )
                },
                Err(e) => {
                    &&& *final(self) == *old(self)
                    &&& if chan >= old(self).channels@.len() {
                        e == MidiError::ChannelOutOfRange
                    } else {
                        val >= 128 && e == MidiError::ValueOutOfRange
                    }
                },
            },
    {
        if chan >= self.channels.len() {
            return Err(MidiError::ChannelOutOfRange);
        }
        if val >= 128 {
            return Err(MidiError::ValueOutOfRange);
        }
        let c = &mut self.channels[chan];
        c.channel_pressure = val as i16;
        self.voices.modulate_voices(chan, ModSource::ChannelPressure);
        proof {
            Self::lemma_wf_channel_update(*old(self), *self, chan as int);
            assert(pointwise_release_only(old(self).voices.voices@, self.voices.voices@));
            lemma_voices_wf_preserved(*old(self), *self);
        }
        Ok(())
    }

    /// Set a key's aftertouch and notify only the voices on that exact
    /// (channel, key) pair.
    pub fn key_pressure(&mut self, chan: usize, key: u8, val: u8) -> (r: Result<(), MidiError>)
        requires
            old(self).wf(),
        ensures
            final(self).wf(),
            old(self).same_config(*final(self)),
            final(self).voices.noteid == old(self).voices.noteid,
            final(self).last_substitution == old(self).last_substitution,
            match r {
                Ok(()) => {
                    &&& chan < old(self).channels@.len()
                    &&& key < 128
                    &&& val < 128
                    &&& final(self).channels@.len() == old(self).channels@.len()
                    &&& key_pressure_updated(
                        old(self).channels@[chan as int],
                        final(self).channels@[chan as int],
                        key as int,
                        val as i8,
                    )
                    &&& forall|c: int|
                        0 <= c < old(self).channels@.len() && c != chan
                            ==> final(self).channels@[c] == old(self).channels@[c]
                    &&& final(self).voices.voices@ == pool_keypress(
                        old(self).voices.voices@,
                        chan,
                        key,
                    )
                },
                Err(e) => {
                    &&& *final(self) == *old(self)
                    &&& if key >= 128 {
                        e == MidiError::KeyOutOfRange
                    } else if val >= 128 {
                        e == MidiError::ValueOutOfRange
                    } else {
                        chan >= old(self).channels@.len() && e == MidiError::ChannelOutOfRange
                    }
                },
            },
    {
        if key >= 128 {
            return Err(MidiError::KeyOutOfRange);
        }
        if val >= 128 {
            return Err(MidiError::ValueOutOfRange);
        }
        if chan >= self.channels.len() {
            return Err(MidiError::ChannelOutOfRange);
        }
        proof {
            assert(self.channels@[chan as int].wf());
        }
        let c = &mut self.channels[chan];
        c.key_pressure[key as usize] = val as i8;
        self.voices.key_pressure(chan, key);
        proof {
            assert(self.channels@[chan as int].wf());
            Self::lemma_wf_channel_update(*old(self), *self, chan as int);
            assert(pointwise_release_only(old(self).voices.voices@, self.voices.voices@));
            lemma_voices_wf_preserved(*old(self), *self);
        }
        Ok(())
    }

    /// Update the bank selector alone; the bound preset is untouched until
    /// the next program change.
    pub fn bank_select(&mut self, chan: u8, bank: u32) -> (r: Result<(), MidiError>)
        requires
            old(self).wf(),
        ensures
            final(self).wf(),
            old(self).same_config(*final(self)),
            final(self).voices == old(self).voices,
            final(self).last_substitution == old(self).last_substitution,
            match r {
                Ok(()) => {
                    &&& (chan as int) < old(self).channels@.len()
                    &&& final(self).channels@ == old(self).channels@.update(
                        chan as int,
                        Channel { banknum: bank, ..old(self).channels@[chan as int] },
                    )
                },
                Err(e) => {
                    &&& *final(self) == *old(self)
                    &&& chan as int >= old(self).channels@.len()
                    &&& e == MidiError::ChannelOutOfRange
                },
            },
    {
        if (chan as usize) >= self.channels.len() {
            return Err(MidiError::ChannelOutOfRange);
        }
        let c = &mut self.channels[chan as usize];
        c.banknum = bank;
        proof {
            Self::lemma_wf_channel_update(*old(self), *self, chan as int);
        }
        Ok(())
    }

    /// Bind the channel to an explicit soundfont slot; selectors and preset
    /// are untouched.
    pub fn sfont_select(&mut self, chan: u8, sfont_id: usize) -> (r: Result<(), MidiError>)
        requires
            old(self).wf(),
        ensures
            final(self).wf(),
            old(self).same_config(*final(self)),
            final(self).voices == old(self).voices,
            final(self).last_substitution == old(self).last_substitution,
            match r {
                Ok(()) => {
                    &&& (chan as int) < old(self).channels@.len()
                    &&& final(self).channels@ == old(self).channels@.update(
                        chan as int,
                        Channel { sfontnum: Some(sfont_id), ..old(self).channels@[chan as int] },
                    )
                },
                Err(e) => {
                    &&& *final(self) == *old(self)
                    &&& chan as int >= old(self).channels@.len()
                    &&& e == MidiError::ChannelOutOfRange
                },
            },
    {
        if (chan as usize) >= self.channels.len() {
            return Err(MidiError::ChannelOutOfRange);
        }
        let c = &mut self.channels[chan as usize];
        c.sfontnum = Some(sfont_id);
        proof {
            Self::lemma_wf_channel_update(*old(self), *self, chan as int);
        }
        Ok(())
    }

    /// Send a note-off: the sounding voices on the (channel, key) pair are
    /// asked to release, honouring the minimum hold time.
    pub fn noteoff(&mut self, chan: usize, key: u8) -> (r: Result<(), MidiError>)
        requires
            old(self).wf(),
        ensures
            final(self).wf(),
            old(self).same_config(*final(self)),
            final(self).channels == old(self).channels,
            final(self).voices.noteid == old(self).voices.noteid,
            final(self).last_substitution == old(self).last_substitution,
            match r {
                Ok(()) => {
                    &&& chan < old(self).channels@.len()
                    &&& final(self).voices.voices@ == pool_noteoff(
                        old(self).voices.voices@,
                        chan,
                        key,
                        old(self).min_note_length_ticks,
                        old(self).ticks,
                    )
                },
                Err(e) => {
                    &&& *final(self) == *old(self)
                    &&& chan >= old(self).channels@.len()
                    &&& e == MidiError::ChannelOutOfRange
                },
            },
    {
        if chan >= self.channels.len() {
            return Err(MidiError::ChannelOutOfRange);
        }
        let min = self.min_note_length_ticks;
        let now = self.ticks;
        self.voices.noteoff(chan, key, min, now);
        proof {
            assert(pointwise_release_only(old(self).voices.voices@, self.voices.voices@));
            lemma_voices_wf_preserved(*old(self), *self);
        }
        Ok(())
    }

    /// Gracefully request release of every sounding voice on the channel,
    /// respecting per-voice envelopes and the minimum hold time.
    pub fn all_notes_off(&mut self, chan: usize) -> (r: Result<(), MidiError>)
        requires
            old(self).wf(),
        ensures
            final(self).wf(),
            old(self).same_config(*final(self)),
            final(self).channels == old(self).channels,
            final(self).voices.noteid == old(self).voices.noteid,
            final(self).last_substitution == old(self).last_substitution,
            match r {
                Ok(()) => {
                    &&& chan < old(self).channels@.len()
                    &&& final(self).voices.voices@ == pool_release_chan(
                        old(self).voices.voices@,
                        chan,
                        old(self).min_note_length_ticks,
                        old(self).ticks,
                    )
                },
                Err(e) => {
                    &&& *final(self) == *old(self)
                    &&& chan >= old(self).channels@.len()
                    &&& e == MidiError::ChannelOutOfRange
                },
            },
    {
        if chan >= self.channels.len() {
            return Err(MidiError::ChannelOutOfRange);
        }
        let min = self.min_note_length_ticks;
        let now = self.ticks;
        self.voices.all_notes_off(chan, min, now);
        proof {
            assert(pointwise_release_only(old(self).voices.voices@, self.voices.voices@));
            lemma_voices_wf_preserved(*old(self), *self);
        }
        Ok(())
    }

    /// Hard-stop the channel: every one of its voices is removed at once,
    /// with no release tail — the channel-scoped panic primitive.
    pub fn all_sounds_off(&mut self, chan: usize) -> (r: Result<(), MidiError>)
        requires
            old(self).wf(),
        ensures
            final(self).wf(),
            old(self).same_config(*final(self)),
            final(self).channels == old(self).channels,
            final(self).voices.noteid == old(self).voices.noteid,
            final(self).last_substitution == old(self).last_substitution,
            match r {
                Ok(()) => {
                    &&& chan < old(self).channels@.len()
                    &&& final(self).voices.voices@ == remove_chan(old(self).voices.voices@, chan)
                },
                Err(e) => {
                    &&& *final(self) == *old(self)
                    &&& chan >= old(self).channels@.len()
                    &&& e == MidiError::ChannelOutOfRange
                },
            },
    {
        if chan >= self.channels.len() {
            return Err(MidiError::ChannelOutOfRange);
        }
        self.voices.all_sounds_off(chan);
        proof {
            let pre = old(self).voices.voices@;
            let post = self.voices.voices@;
            let srcs = choose|srcs: Seq<int>| subseq_map(pre, post, srcs);
            assert forall|i: int|
                0 <= i < post.len() implies {
                &&& (#[trigger] post[i]).chan < self.channels@.len()
                &&& post[i].key < 128
                &&& post[i].start_tick <= self.ticks
                &&& 1 <= post[i].note_id <= self.voices.noteid
            } by {
                assert(post[i] == pre[srcs[i]]);
            }
            assert forall|i: int, j: int| 0 <= i < j < post.len() implies (#[trigger] post[i]).note_id
                != (#[trigger] post[j]).note_id by {
                assert(post[i] == pre[srcs[i]]);
                assert(post[j] == pre[srcs[j]]);
                assert(srcs[i] < srcs[j]);
            }
            assert forall|i: int, j: int|
                0 <= i < j < post.len() && (#[trigger] post[i]).status is Sounding
                    && (#[trigger] post[j]).status is Sounding implies !(post[i].chan
                == post[j].chan && post[i].key == post[j].key) by {
                assert(post[i] == pre[srcs[i]]);
                assert(post[j] == pre[srcs[j]]);
                assert(srcs[i] < srcs[j]);
            }
        }
        Ok(())
    }

    /// Advance the sample clock by `dt` ticks and run the tick sweep: every
    /// deferred release whose minimum hold time has elapsed fires now.
    pub fn advance_ticks(&mut self, dt: u64)
        requires
            old(self).wf(),
            old(self).ticks + dt <= u64::MAX,
        ensures
            final(self).wf(),
            final(self).ticks == old(self).ticks + dt,
            final(self).fonts == old(self).fonts,
            final(self).min_note_length_ticks == old(self).min_note_length_ticks,
            final(self).drums_channel_active == old(self).drums_channel_active,
            final(self).channels == old(self).channels,
            final(self).voices.noteid == old(self).voices.noteid,
            final(self).last_substitution == old(self).last_substitution,
            final(self).voices.voices@ == pool_sweep(
                old(self).voices.voices@,
                old(self).min_note_length_ticks,
                (old(self).ticks + dt) as u64,
            ),
    {
        self.ticks = self.ticks + dt;
        let min = self.min_note_length_ticks;
        let now = self.ticks;
        self.voices.sweep(min, now);
        proof {
            assert(pointwise_release_only(old(self).voices.voices@, self.voices.voices@));
            lemma_voices_wf_preserved(*old(self), *self);
        }
    }

    /// Send a note-on. A velocity of 0 is a note-off alias. Otherwise, on a
    /// channel with a bound preset, every sounding voice on the same
    /// (channel, key) pair is forced into release first, and a fresh voice
    /// sounds under the next note identity — so no two sounding voices ever
    /// coexist on one (channel, key) pair.
    pub fn noteon(&mut self, midi_chan: usize, key: u8, vel: u8) -> (r: Result<(), MidiError>)
        requires
            old(self).wf(),
            old(self).voices.noteid < u64::MAX,
        ensures
            final(self).wf(),
            old(self).same_config(*final(self)),
            final(self).channels == old(self).channels,
            final(self).last_substitution == old(self).last_substitution,
            match r {
                Ok(()) => {
                    &&& key < 128
                    &&& vel < 128
                    &&& midi_chan < old(self).channels@.len()
                    &&& if vel == 0 {
                        &&& final(self).voices.voices@ == pool_noteoff(
                            old(self).voices.voices@,
                            midi_chan,
                            key,
                            old(self).min_note_length_ticks,
                            old(self).ticks,
                        )
                        &&& final(self).voices.noteid == old(self).voices.noteid
                    } else {
                        &&& old(self).channels@[midi_chan as int].preset is Some
                        &&& final(self).voices.voices@ == pool_steal(
                            old(self).voices.voices@,
                            midi_chan,
                            key,
                        ).push(
                            new_voice(
                                midi_chan,
                                key,
                                vel,
                                (old(self).voices.noteid + 1) as u64,
                                old(self).ticks,
                            ),
                        )
                        &&& final(self).voices.noteid == old(self).voices.noteid + 1
                    }
                },
                Err(e) => {
                    &&& *final(self) == *old(self)
                    &&& if key >= 128 {
                        e == MidiError::KeyOutOfRange
                    } else if vel >= 128 {
                        e == MidiError::VelocityOutOfRange
                    } else if midi_chan >= old(self).channels@.len() {
                        e == MidiError::ChannelOutOfRange
                    } else {
                        &&& vel != 0
                        &&& old(self).channels@[midi_chan as int].preset is None
                        &&& e == MidiError::NoPreset
                    }
                },
            },
    {
        if key >= 128 {
            return Err(MidiError::KeyOutOfRange);
        }
        if vel >= 128 {
            return Err(MidiError::VelocityOutOfRange);
        }
        if midi_chan >= self.channels.len() {
            return Err(MidiError::ChannelOutOfRange);
        }
        if vel == 0 {
            let min = self.min_note_length_ticks;
            let now = self.ticks;
            self.voices.noteoff(midi_chan, key, min, now);
            proof {
                assert(pointwise_release_only(old(self).voices.voices@, self.voices.voices@));
                lemma_voices_wf_preserved(*old(self), *self);
            }
            return Ok(());
        }
        if self.channels[midi_chan].preset.is_none() {
            return Err(MidiError::NoPreset);
        }
        self.voices.release_voice_on_same_note(midi_chan, key);
        let now = self.ticks;
        self.voices.start_voice(midi_chan, key, vel, now);
        proof {
            let pre = old(self).voices.voices@;
            let mid = pool_steal(pre, midi_chan, key);
            let post = self.voices.voices@;
            let nid = self.voices.noteid;
            assert(post == mid.push(new_voice(midi_chan, key, vel, nid, now)));
            assert forall|i: int|
                0 <= i < post.len() implies {
                &&& (#[trigger] post[i]).chan < self.channels@.len()
                &&& post[i].key < 128
                &&& post[i].start_tick <= self.ticks
                &&& 1 <= post[i].note_id <= nid
            } by {
                if i < mid.len() {
                    assert(post[i] == steal_voice(pre[i], midi_chan, key));
                }
            }
            assert forall|i: int, j: int| 0 <= i < j < post.len() implies (#[trigger] post[i]).note_id
                != (#[trigger] post[j]).note_id by {
                if j < mid.len() {
                    assert(post[i] == steal_voice(pre[i], midi_chan, key));
                    assert(post[j] == steal_voice(pre[j], midi_chan, key));
                } else {
                    assert(post[i] == steal_voice(pre[i], midi_chan, key));
                    assert(pre[i].note_id <= old(self).voices.noteid);
                }
            }
            assert forall|i: int, j: int|
                0 <= i < j < post.len() && (#[trigger] post[i]).status is Sounding
                    && (#[trigger] post[j]).status is Sounding implies !(post[i].chan
                == post[j].chan && post[i].key == post[j].key) by {
                if j < mid.len() {
                    assert(post[i] == steal_voice(pre[i], midi_chan, key));
                    assert(post[j] == steal_voice(pre[j], midi_chan, key));
                } else {
                    assert(post[i] == steal_voice(pre[i], midi_chan, key));
                }
            }
        }
        Ok(())
    }

    /// The "big red button": hard-stop every voice on every channel and
    /// reinitialise every channel to its power-on state, rebound to the
    /// default bank-0/program-0 preset when one resolves. It is safe to
    /// call at any time and never fails, not even partially. The effect
    /// buffers of the signal path have their own reset collaborator.
    pub fn system_reset(&mut self)
        requires
            old(self).wf(),
        ensures
            final(self).wf(),
            old(self).same_config(*final(self)),
            final(self).voices.voices@ == Seq::<Voice>::empty(),
            final(self).voices.noteid == old(self).voices.noteid,
            final(self).channels@.len() == old(self).channels@.len(),
            forall|c: int|
                0 <= c < old(self).channels@.len() ==> (#[trigger] final(self).channels@[c]).is_init(
                    c as usize,
                    stack_find(old(self).fonts@, 0, 0),
                    old(self).drums_channel_active,
                ),
            final(self).last_substitution == old(self).last_substitution,
    {
        self.voices.system_reset();
        let preset = find_preset(&self.fonts, 0, 0);
        let n = self.channels.len();
        let mut c: usize = 0;
        while c < n
            invariant
                c <= n,
                n == self.channels@.len(),
                self.fonts == old(self).fonts,
                self.ticks == old(self).ticks,
                self.min_note_length_ticks == old(self).min_note_length_ticks,
                self.drums_channel_active == old(self).drums_channel_active,
                self.last_substitution == old(self).last_substitution,
                self.voices.voices@ == Seq::<Voice>::empty(),
                self.voices.noteid == old(self).voices.noteid,
                preset == stack_find(self.fonts@, 0, 0),
                fonts_wf(self.fonts@),
                forall|j: int|
                    0 <= j < c ==> (#[trigger] self.channels@[j]).is_init(
                        j as usize,
                        preset,
                        self.drums_channel_active,
                    ) && self.channels@[j].wf(),
                forall|j: int| c <= j < n ==> self.channels@[j] == old(self).channels@[j],
            decreases n - c,
        {
            let drums = self.drums_channel_active;
            let ch = Channel::new(c, preset, drums);
            self.channels[c] = ch;
            c = c + 1;
        }
        proof {
            lemma_stack_find(self.fonts@, 0, 0);
            assert forall|ci: int| 0 <= ci < self.channels@.len() implies (#[trigger] self.channels@[
                ci
            ]).wf() && self.channels@[ci].id == ci && match self.channels@[ci].preset {
                Some(p) => preset_valid(self.fonts@, p),
                None => true,
            } by {
                assert(self.channels@[ci].is_init(ci as usize, preset, self.drums_channel_active));
            }
        }
    }

    /// Send a program change: record the program selector unconditionally,
    /// resolve the preset against the stack — through the substitution
    /// cascade on a miss, reporting the substitution — and bind the result
    /// (or the silent state) to the channel. A resolution miss is never a
    /// failure of the call.
    pub fn program_change(&mut self, chan: usize, prognum: u8) -> (r: Result<(), MidiError>)
        requires
            old(self).wf(),
        ensures
            final(self).wf(),
            old(self).same_config(*final(self)),
            final(self).voices == old(self).voices,
            match r {
                Ok(()) => {
                    &&& prognum < 128
                    &&& chan < old(self).channels@.len()
                    &&& final(self).channels@ == old(self).channels@.update(
                        chan as int,
                        pc_channel(
                            old(self).channels@[chan as int],
                            old(self).fonts@,
                            old(self).drums_channel_active,
                            prognum,
                        ),
                    )
                    &&& final(self).last_substitution == {
                        let bank = lookup_bank(
                            old(self).channels@[chan as int],
                            old(self).drums_channel_active,
                        );
                        if stack_find(old(self).fonts@, bank, prognum) is None {
                            Some(subst_event_of(chan, old(self).fonts@, bank, prognum))
                        } else {
                            old(self).last_substitution
                        }
                    }
                },
                Err(e) => {
                    &&& *final(self) == *old(self)
                    &&& if prognum >= 128 {
                        e == MidiError::ProgramOutOfRange
                    } else {
                        chan >= old(self).channels@.len() && e == MidiError::ChannelOutOfRange
                    }
                },
            },
    {
        if prognum >= 128 {
            return Err(MidiError::ProgramOutOfRange);
        }
        if chan >= self.channels.len() {
            return Err(MidiError::ChannelOutOfRange);
        }
        let banknum = self.channels[chan].banknum;
        let id = self.channels[chan].id;
        let drums = self.drums_channel_active;
        let bank_used: u32 = if id == DRUM_CHANNEL && drums {
            PERCUSSION_BANK
        } else {
            banknum
        };
        let mut preset = find_preset(&self.fonts, bank_used, prognum);
        if preset.is_none() {
            let subst_bank: u32;
            let subst_prog: u8;
            if bank_used != PERCUSSION_BANK {
                subst_bank = 0;
                preset = find_preset(&self.fonts, 0, prognum);
                if preset.is_none() && prognum != 0 {
                    preset = find_preset(&self.fonts, 0, 0);
                    subst_prog = 0;
                } else {
                    subst_prog = prognum;
                }
            } else {
                preset = find_preset(&self.fonts, PERCUSSION_BANK, 0);
                subst_bank = PERCUSSION_BANK;
                subst_prog = 0;
            }
            self.last_substitution = Some(
                SubstEvent { chan, bank: bank_used, prog: prognum, subst_bank, subst_prog },
            );
        }
        proof {
            lemma_stack_find(self.fonts@, bank_used, prognum);
            lemma_stack_find(self.fonts@, 0, prognum);
            lemma_stack_find(self.fonts@, 0, 0);
            lemma_stack_find(self.fonts@, PERCUSSION_BANK, 0);
            assert(preset == cascade(
                self.fonts@,
                lookup_bank(old(self).channels@[chan as int], drums),
                prognum,
            ));
        }
        let sfontnum = match preset {
            Some(p) => Some(p.sfont_id),
            None => None,
        };
        let c = &mut self.channels[chan];
        c.prognum = prognum;
        c.sfontnum = sfontnum;
        c.preset = preset;
        proof {
            Self::lemma_wf_channel_update(*old(self), *self, chan as int);
        }
        Ok(())
    }

    /// Bind an explicit (soundfont, bank, program) triple to the channel,
    /// bypassing the stack masking of `program_change`. The call fails
    /// outright when that exact preset does not exist; nothing is changed
    /// then.
    pub fn program_select(
        &mut self,
        chan: u8,
        sfont_id: usize,
        bank_num: u32,
        preset_num: u8,
    ) -> (r: Result<(), MidiError>)
        requires
            old(self).wf(),
        ensures
            final(self).wf(),
            old(self).same_config(*final(self)),
            final(self).voices == old(self).voices,
            final(self).last_substitution == old(self).last_substitution,
            match r {
                Ok(()) => {
                    &&& (chan as int) < old(self).channels@.len()
                    &&& preset_num < 128
                    &&& slot_find(old(self).fonts@, sfont_id, bank_num, preset_num) is Some
                    &&& final(self).channels@ == old(self).channels@.update(
                        chan as int,
                        Channel {
                            sfontnum: Some(sfont_id),
                            banknum: bank_num,
                            prognum: preset_num,
                            preset: slot_find(old(self).fonts@, sfont_id, bank_num, preset_num),
                            ..old(self).channels@[chan as int]
                        },
                    )
                },
                Err(e) => {
                    &&& *final(self) == *old(self)
                    &&& if chan as int >= old(self).channels@.len() {
                        e == MidiError::ChannelOutOfRange
                    } else if preset_num >= 128 {
                        e == MidiError::ProgramOutOfRange
                    } else {
                        &&& slot_find(old(self).fonts@, sfont_id, bank_num, preset_num) is None
                        &&& e == MidiError::PresetNotFound
                    }
                },
            },
    {
        if (chan as usize) >= self.channels.len() {
            return Err(MidiError::ChannelOutOfRange);
        }
        if preset_num >= 128 {
            return Err(MidiError::ProgramOutOfRange);
        }
        let preset = get_preset(&self.fonts, sfont_id, bank_num, preset_num);
        if preset.is_none() {
            return Err(MidiError::PresetNotFound);
        }
        proof {
            if sfont_id < self.fonts@.len() {
                lemma_font_find(self.fonts@[sfont_id as int].presets@, bank_num, preset_num);
            }
        }
        let c = &mut self.channels[chan as usize];
        c.sfontnum = Some(sfont_id);
        c.banknum = bank_num;
        c.prognum = preset_num;
        c.preset = preset;
        proof {
            Self::lemma_wf_channel_update(*old(self), *self, chan as int);
        }
        Ok(())
    }

    /// Re-issue a program change on every channel with its stored program
    /// number, re-resolving each binding against the current stack — the
    /// bulk maintenance sweep after a soundfont (re)load. Resolution misses
    /// are reported as substitutions, never propagated as failures.
    pub fn program_reset(&mut self)
        requires
            old(self).wf(),
        ensures
            final(self).wf(),
            old(self).same_config(*final(self)),
            final(self).voices == old(self).voices,
            final(self).channels@.len() == old(self).channels@.len(),
            forall|c: int|
                0 <= c < old(self).channels@.len() ==> final(self).channels@[c] == pc_channel(
                    (#[trigger] old(self).channels@[c]),
                    old(self).fonts@,
                    old(self).drums_channel_active,
                    old(self).channels@[c].prognum,
                ),
    {
        let n = self.channels.len();
        let mut i: usize = 0;
        while i < n
            invariant
                i <= n,
                n == self.channels@.len(),
                self.wf(),
                self.fonts == old(self).fonts,
                self.ticks == old(self).ticks,
                self.min_note_length_ticks == old(self).min_note_length_ticks,
                self.drums_channel_active == old(self).drums_channel_active,
                self.voices == old(self).voices,
                forall|j: int|
                    0 <= j < i ==> self.channels@[j] == pc_channel(
                        (#[trigger] old(self).channels@[j]),
                        old(self).fonts@,
                        old(self).drums_channel_active,
                        old(self).channels@[j].prognum,
                    ),
                forall|j: int| i <= j < n ==> self.channels@[j] == old(self).channels@[j],
            decreases n - i,
        {
            let prog = self.channels[i].prognum;
            proof {
                assert(self.channels@[i as int].wf());
            }
            let _ = self.program_change(i, prog);
            i = i + 1;
        }
    }

    /// The pitch wheel sensitivity as last received.
    pub fn get_pitch_wheel_sens(&self, chan: usize) -> (r: Result<u32, MidiError>)
        ensures
            match r {
                Ok(v) => chan < self.channels@.len() && v == self.channels@[
                    chan as int
                ].pitch_wheel_sensitivity as u32,
                Err(e) => chan >= self.channels@.len() && e == MidiError::ChannelOutOfRange,
            },
    {
        if chan < self.channels.len() {
            Ok(self.channels[chan].pitch_wheel_sensitivity as u32)
        } else {
            Err(MidiError::ChannelOutOfRange)
        }
    }
}

} // verus!
