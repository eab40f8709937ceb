use vstd::prelude::*;
use crate::font::PresetId;

verus! {

/// Center position of the 14-bit pitch bend range.
pub const DEFAULT_PITCH_BEND: i16 = 8192;

/// Power-on pitch wheel sensitivity, in semitones.
pub const DEFAULT_PITCH_WHEEL_SENSITIVITY: u16 = 2;

/// Power-on value of every MIDI controller.
pub const DEFAULT_CTRL: u8 = 0;

/// Channel index conventionally reserved for percussion when drum-channel
/// mode is active.
pub const DRUM_CHANNEL: usize = 9;

/// Bank selector sentinel addressing the percussion bank.
pub const PERCUSSION_BANK: u32 = 128;

/// Per-MIDI-channel state: bank/program selectors, the bound preset handle,
/// controller values, pitch bend and pressure. Mutated only by the facade's
/// per-message handlers, reinitialised on system reset.
pub struct Channel {
    /// Channel index (identity).
    pub id: usize,
    /// Current bank selector; 128 is the percussion-bank sentinel. Reflects
    /// the last accepted bank select even when no matching preset exists.
    pub banknum: u32,
    /// Current program selector. Reflects the last accepted program change
    /// even when no matching preset exists.
    pub prognum: u8,
    /// Soundfont slot the channel is bound to, when any.
    pub sfontnum: Option<usize>,
    /// Handle of the resolved preset; `None` is the legitimate silent state.
    pub preset: Option<PresetId>,
    /// Last received value of each of the 128 MIDI controllers.
    pub controllers: Vec<u8>,
    /// 14-bit pitch bend value, `DEFAULT_PITCH_BEND` at center.
    pub pitch_bend: i16,
    /// Pitch wheel sensitivity.
    pub pitch_wheel_sensitivity: u16,
    /// Channel aftertouch.
    pub channel_pressure: i16,
    /// Polyphonic aftertouch, one value per key.
    pub key_pressure: Vec<i8>,
}

/// The controller array at its power-on defaults.
pub open spec fn default_controllers() -> Seq<u8> {
    Seq::new(128, |i: int| DEFAULT_CTRL)
}

/// The key-pressure array at its power-on defaults.
pub open spec fn default_key_pressure() -> Seq<i8> {
    Seq::new(128, |i: int| 0i8)
}

impl Channel {
    /// Validity of the channel state: the array sizes and the MIDI ranges
    /// that every accepted message preserves.
    pub open spec fn wf(self) -> bool {
        &&& self.controllers@.len() == 128
        &&& forall|k: int| 0 <= k < 128 ==> #[trigger] self.controllers@[k] < 128
        &&& self.key_pressure@.len() == 128
        &&& forall|k: int| 0 <= k < 128 ==> 0 <= #[trigger] self.key_pressure@[k] < 128
        &&& self.prognum < 128
        &&& 0 <= self.pitch_bend < 16384
        &&& self.pitch_wheel_sensitivity < 16384
        &&& 0 <= self.channel_pressure < 128
    }

    /// The state a channel takes at power-on and on system reset, up to the
    /// preset binding handed in: selectors at program 0 and bank 0 — bank
    /// 128 on the drum channel when drum mode is active — no soundfont
    /// binding, and every controller and pressure at its default.
    pub open spec fn is_init(self, id: usize, preset: Option<PresetId>, drums_active: bool) -> bool {
        &&& self.id == id
        &&& self.banknum == if id == DRUM_CHANNEL && drums_active {
            PERCUSSION_BANK
        } else {
            0u32
        }
        &&& self.prognum == 0
        &&& self.sfontnum is None
        &&& self.preset == preset
        &&& self.controllers@ == default_controllers()
        &&& self.pitch_bend == DEFAULT_PITCH_BEND
        &&& self.pitch_wheel_sensitivity == DEFAULT_PITCH_WHEEL_SENSITIVITY
        &&& self.channel_pressure == 0
        &&& self.key_pressure@ == default_key_pressure()
    }

    /// Build a channel in its power-on state.
    pub fn new(id: usize, preset: Option<PresetId>, drums_active: bool) -> (c: Channel)
        ensures
            c.wf(),
            c.is_init(id, preset, drums_active),
    {
        let mut controllers: Vec<u8> = Vec::new();
        let mut k: usize = 0;
        while k < 128
            invariant
                k <= 128,
                controllers@.len() == k,
                forall|j: int| 0 <= j < k ==> #[trigger] controllers@[j] == DEFAULT_CTRL,
            decreases 128 - k,
        {
            controllers.push(DEFAULT_CTRL);
            k = k + 1;
        }
        let mut key_pressure: Vec<i8> = Vec::new();
        let mut k2: usize = 0;
        while k2 < 128
            invariant
                k2 <= 128,
                key_pressure@.len() == k2,
                forall|j: int| 0 <= j < k2 ==> #[trigger] key_pressure@[j] == 0i8,
            decreases 128 - k2,
        {
            key_pressure.push(0i8);
            k2 = k2 + 1;
        }
        proof {
            assert(controllers@ =~= default_controllers());
            assert(key_pressure@ =~= default_key_pressure());
        }
        let banknum: u32 = if id == DRUM_CHANNEL && drums_active {
            PERCUSSION_BANK
        } else {
            0
        };
        Channel {
            id,
            banknum,
            prognum: 0,
            sfontnum: None,
            preset,
            controllers,
            pitch_bend: DEFAULT_PITCH_BEND,
            pitch_wheel_sensitivity: DEFAULT_PITCH_WHEEL_SENSITIVITY,
            channel_pressure: 0,
            key_pressure,
        }
    }
}

} // verus!
