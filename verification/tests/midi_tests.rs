use sfsynth::error::MidiError;
use sfsynth::font::PresetId;
use sfsynth::font::PresetKey;
use sfsynth::synth::SubstEvent;
use sfsynth::synth::Synth;
use sfsynth::voice::ModSource;
use sfsynth::voice::VoiceStatus;

fn synth_with_font(presets: &[(u32, u8)], min_note_length_ticks: u64) -> Synth {
    let mut s = Synth::new(16, true, min_note_length_ticks);
    let mut keys: Vec<PresetKey> = Vec::new();
    for &(bank, num) in presets {
        keys.push(PresetKey { bank, num });
    }
    s.add_font(keys);
    s
}

fn count_status(s: &Synth, chan: usize, status: VoiceStatus) -> usize {
    s.voices.voices.iter().filter(|v| v.chan == chan && v.status == status).count()
}

#[test]
fn out_of_range_channel_fails_every_per_channel_operation() {
    let mut s = synth_with_font(&[(0, 0)], 0);
    assert_eq!(s.noteon(16, 60, 100).unwrap_err(), MidiError::ChannelOutOfRange);
    assert_eq!(s.noteoff(16, 60).unwrap_err(), MidiError::ChannelOutOfRange);
    assert_eq!(s.cc(16, 7, 100).unwrap_err(), MidiError::ChannelOutOfRange);
    assert_eq!(s.get_cc(16, 7).unwrap_err(), MidiError::ChannelOutOfRange);
    assert_eq!(s.all_notes_off(16).unwrap_err(), MidiError::ChannelOutOfRange);
    assert_eq!(s.all_sounds_off(16).unwrap_err(), MidiError::ChannelOutOfRange);
    assert_eq!(s.pitch_bend(16, 0).unwrap_err(), MidiError::ChannelOutOfRange);
    assert_eq!(s.get_pitch_bend(16).unwrap_err(), MidiError::ChannelOutOfRange);
    assert_eq!(s.pitch_wheel_sens(16, 2).unwrap_err(), MidiError::ChannelOutOfRange);
    assert_eq!(s.get_pitch_wheel_sens(16).unwrap_err(), MidiError::ChannelOutOfRange);
    assert_eq!(s.channel_pressure(16, 0).unwrap_err(), MidiError::ChannelOutOfRange);
    assert_eq!(s.key_pressure(16, 60, 0).unwrap_err(), MidiError::ChannelOutOfRange);
    assert_eq!(s.bank_select(16, 0).unwrap_err(), MidiError::ChannelOutOfRange);
    assert_eq!(s.sfont_select(16, 0).unwrap_err(), MidiError::ChannelOutOfRange);
    assert_eq!(s.program_select(16, 0, 0, 0).unwrap_err(), MidiError::ChannelOutOfRange);
    assert_eq!(s.get_program(16).unwrap_err(), MidiError::ChannelOutOfRange);
    assert_eq!(s.program_change(16, 0).unwrap_err(), MidiError::ChannelOutOfRange);
    assert_eq!(s.channel_preset(16).unwrap_err(), MidiError::ChannelOutOfRange);
    // nothing was mutated
    assert!(s.voices.voices.is_empty());
    assert_eq!(s.get_program(0).unwrap(), (None, 0, 0));
    assert_eq!(s.last_substitution, None);
}

#[test]
fn noteon_with_zero_velocity_acts_as_noteoff() {
    let mut a = synth_with_font(&[(0, 0)], 0);
    let mut b = synth_with_font(&[(0, 0)], 0);
    a.program_change(3, 0).unwrap();
    b.program_change(3, 0).unwrap();
    a.noteon(3, 60, 100).unwrap();
    b.noteon(3, 60, 100).unwrap();

    a.noteon(3, 60, 0).unwrap();
    b.noteoff(3, 60).unwrap();
    assert_eq!(a.voices.voices, b.voices.voices);
    assert_eq!(count_status(&a, 3, VoiceStatus::Releasing), 1);
}

#[test]
fn noteon_rejects_out_of_range_key_and_velocity() {
    let mut s = synth_with_font(&[(0, 0)], 0);
    assert_eq!(s.noteon(0, 128, 10).unwrap_err(), MidiError::KeyOutOfRange);
    assert_eq!(s.noteon(0, 255, 10).unwrap_err(), MidiError::KeyOutOfRange);
    assert_eq!(s.noteon(0, 10, 128).unwrap_err(), MidiError::VelocityOutOfRange);
    assert!(s.voices.voices.is_empty());
}

#[test]
fn cc_and_get_cc_reject_out_of_range_controller_and_value() {
    let mut s = synth_with_font(&[(0, 0)], 0);
    assert_eq!(s.cc(0, 128, 5).unwrap_err(), MidiError::CtrlOutOfRange);
    assert_eq!(s.cc(0, 7, 128).unwrap_err(), MidiError::ValueOutOfRange);
    assert_eq!(s.get_cc(0, 128).unwrap_err(), MidiError::CtrlOutOfRange);
    s.cc(0, 7, 127).unwrap();
    assert_eq!(s.get_cc(0, 7).unwrap(), 127);
    assert_eq!(s.get_cc(0, 8).unwrap(), 0);
}

#[test]
fn program_change_records_program_with_and_without_preset() {
    let mut s = synth_with_font(&[(0, 9)], 0);
    s.program_change(2, 9).unwrap();
    assert_eq!(s.get_program(2).unwrap(), (Some(0), 0, 9));
    assert_eq!(s.channel_preset(2).unwrap(), Some(PresetId { sfont_id: 0, preset_idx: 0 }));

    // nothing resolves for program 60, not even through the cascade,
    // yet the program selector still reads 60
    let mut t = Synth::new(16, true, 0);
    t.program_change(2, 60).unwrap();
    assert_eq!(t.get_program(2).unwrap(), (None, 0, 60));
    assert_eq!(t.channel_preset(2).unwrap(), None);
}

#[test]
fn substitution_cascade_falls_back_to_bank0_program0() {
    let mut s = synth_with_font(&[(0, 0)], 0);
    s.bank_select(1, 5).unwrap();
    s.program_change(1, 9).unwrap();
    assert_eq!(s.channel_preset(1).unwrap(), Some(PresetId { sfont_id: 0, preset_idx: 0 }));
    assert_eq!(s.get_program(1).unwrap(), (Some(0), 5, 9));
    assert_eq!(
        s.last_substitution,
        Some(SubstEvent { chan: 1, bank: 5, prog: 9, subst_bank: 0, subst_prog: 0 })
    );
}

#[test]
fn cascade_prefers_bank0_same_program() {
    let mut s = synth_with_font(&[(0, 0), (0, 9)], 0);
    s.bank_select(1, 5).unwrap();
    s.program_change(1, 9).unwrap();
    // (5, 9) missed, (0, 9) hits: preset index 1 of the font
    assert_eq!(s.channel_preset(1).unwrap(), Some(PresetId { sfont_id: 0, preset_idx: 1 }));
    assert_eq!(
        s.last_substitution,
        Some(SubstEvent { chan: 1, bank: 5, prog: 9, subst_bank: 0, subst_prog: 9 })
    );
}

#[test]
fn drum_channel_resolves_against_percussion_bank() {
    let mut s = synth_with_font(&[(128, 3), (0, 3)], 0);
    s.program_change(9, 3).unwrap();
    assert_eq!(s.channel_preset(9).unwrap(), Some(PresetId { sfont_id: 0, preset_idx: 0 }));
    // a plain channel takes the melodic preset instead
    s.program_change(1, 3).unwrap();
    assert_eq!(s.channel_preset(1).unwrap(), Some(PresetId { sfont_id: 0, preset_idx: 1 }));
}

#[test]
fn later_font_masks_earlier_one() {
    let mut s = Synth::new(16, true, 0);
    s.add_font(vec![PresetKey { bank: 0, num: 0 }]);
    s.add_font(vec![PresetKey { bank: 0, num: 0 }]);
    s.program_change(0, 0).unwrap();
    assert_eq!(s.channel_preset(0).unwrap(), Some(PresetId { sfont_id: 1, preset_idx: 0 }));
}

#[test]
fn system_reset_silences_and_restores_controller_defaults() {
    let mut s = synth_with_font(&[(0, 0)], 0);
    s.program_change(0, 0).unwrap();
    s.noteon(0, 60, 100).unwrap();
    s.noteon(0, 64, 100).unwrap();
    s.cc(0, 7, 101).unwrap();
    s.cc(3, 11, 55).unwrap();
    s.pitch_bend(0, 1234).unwrap();
    s.system_reset();
    assert!(s.voices.voices.is_empty());
    for chan in 0..16 {
        for num in 0..128 {
            assert_eq!(s.get_cc(chan, num).unwrap(), 0);
        }
        assert_eq!(s.get_pitch_bend(chan).unwrap(), 8192);
        assert_eq!(s.get_pitch_wheel_sens(chan).unwrap(), 2);
    }
    // every channel rebinds to the default bank-0/program-0 preset
    assert_eq!(s.channel_preset(5).unwrap(), Some(PresetId { sfont_id: 0, preset_idx: 0 }));
    // the drum channel keeps its percussion bank selector
    assert_eq!(s.get_program(9).unwrap(), (None, 128, 0));
    assert_eq!(s.get_program(0).unwrap(), (None, 0, 0));
}

#[test]
fn all_sounds_off_is_immediate_while_all_notes_off_releases() {
    let mut s = synth_with_font(&[(0, 0)], 0);
    s.program_change(0, 0).unwrap();
    s.program_change(1, 0).unwrap();
    s.noteon(0, 60, 100).unwrap();
    s.noteon(0, 62, 100).unwrap();
    s.noteon(1, 64, 100).unwrap();

    s.all_notes_off(0).unwrap();
    assert_eq!(count_status(&s, 0, VoiceStatus::Releasing), 2);
    assert_eq!(count_status(&s, 0, VoiceStatus::Sounding), 0);
    assert_eq!(count_status(&s, 1, VoiceStatus::Sounding), 1);

    s.all_sounds_off(0).unwrap();
    assert!(s.voices.voices.iter().all(|v| v.chan != 0));
    // the other channel's voice survives untouched
    assert_eq!(count_status(&s, 1, VoiceStatus::Sounding), 1);
}

#[test]
fn same_note_retrigger_steals_the_first_voice() {
    let mut s = synth_with_font(&[(0, 0)], 1000);
    s.program_change(0, 0).unwrap();
    s.noteon(0, 60, 100).unwrap();
    s.noteon(0, 60, 90).unwrap();
    assert_eq!(count_status(&s, 0, VoiceStatus::Sounding), 1);
    assert_eq!(count_status(&s, 0, VoiceStatus::Releasing), 1);
    let sounding: Vec<_> =
        s.voices.voices.iter().filter(|v| v.status == VoiceStatus::Sounding).collect();
    assert_eq!(sounding[0].vel, 90);
    // note identities are distinct and monotonically increasing
    assert_eq!(s.voices.voices[0].note_id, 1);
    assert_eq!(s.voices.voices[1].note_id, 2);
}

#[test]
fn noteoff_before_minimum_hold_defers_until_the_sweep() {
    let mut s = synth_with_font(&[(0, 0)], 10);
    s.program_change(0, 0).unwrap();
    s.noteon(0, 60, 100).unwrap();
    s.noteoff(0, 60).unwrap();
    // too young: the release request is recorded, the voice keeps sounding
    assert_eq!(count_status(&s, 0, VoiceStatus::Sounding), 1);
    assert!(s.voices.voices[0].deferred_release);
    s.advance_ticks(9);
    assert_eq!(count_status(&s, 0, VoiceStatus::Sounding), 1);
    s.advance_ticks(1);
    assert_eq!(count_status(&s, 0, VoiceStatus::Releasing), 1);
}

#[test]
fn noteon_without_preset_is_rejected() {
    let mut s = Synth::new(16, true, 0);
    assert_eq!(s.noteon(0, 60, 100).unwrap_err(), MidiError::NoPreset);
    assert!(s.voices.voices.is_empty());
}

#[test]
fn modulation_broadcasts_are_scoped_and_tagged() {
    let mut s = synth_with_font(&[(0, 0)], 0);
    s.program_change(0, 0).unwrap();
    s.program_change(1, 0).unwrap();
    s.noteon(0, 60, 100).unwrap();
    s.noteon(1, 61, 100).unwrap();

    s.pitch_bend(0, 9000).unwrap();
    assert_eq!(s.get_pitch_bend(0).unwrap(), 9000);
    let on0 = &s.voices.voices.iter().find(|v| v.chan == 0).unwrap();
    let on1 = &s.voices.voices.iter().find(|v| v.chan == 1).unwrap();
    assert_eq!(on0.last_mod, Some(ModSource::PitchWheel));
    assert_eq!(on1.last_mod, None);

    s.channel_pressure(1, 30).unwrap();
    let on1 = &s.voices.voices.iter().find(|v| v.chan == 1).unwrap();
    assert_eq!(on1.last_mod, Some(ModSource::ChannelPressure));

    s.pitch_wheel_sens(1, 12).unwrap();
    assert_eq!(s.get_pitch_wheel_sens(1).unwrap(), 12);
    let on1 = &s.voices.voices.iter().find(|v| v.chan == 1).unwrap();
    assert_eq!(on1.last_mod, Some(ModSource::PitchWheelSens));

    s.cc(0, 10, 64).unwrap();
    let on0 = &s.voices.voices.iter().find(|v| v.chan == 0).unwrap();
    assert_eq!(on0.last_mod, Some(ModSource::Controller(10)));
}

#[test]
fn key_pressure_notifies_only_the_exact_pair() {
    let mut s = synth_with_font(&[(0, 0)], 0);
    s.program_change(0, 0).unwrap();
    s.noteon(0, 60, 100).unwrap();
    s.noteon(0, 62, 100).unwrap();
    s.key_pressure(0, 60, 77).unwrap();
    let v60 = s.voices.voices.iter().find(|v| v.key == 60).unwrap();
    let v62 = s.voices.voices.iter().find(|v| v.key == 62).unwrap();
    assert_eq!(v60.last_mod, Some(ModSource::KeyPressure));
    assert_eq!(v62.last_mod, None);
    assert_eq!(s.key_pressure(0, 128, 0).unwrap_err(), MidiError::KeyOutOfRange);
    assert_eq!(s.key_pressure(0, 60, 128).unwrap_err(), MidiError::ValueOutOfRange);
}

#[test]
fn wide_value_setters_validate_their_ranges() {
    let mut s = synth_with_font(&[(0, 0)], 0);
    assert_eq!(s.pitch_bend(0, 16384).unwrap_err(), MidiError::ValueOutOfRange);
    assert_eq!(s.pitch_wheel_sens(0, 16384).unwrap_err(), MidiError::ValueOutOfRange);
    assert_eq!(s.channel_pressure(0, 128).unwrap_err(), MidiError::ValueOutOfRange);
    assert_eq!(s.program_change(0, 128).unwrap_err(), MidiError::ProgramOutOfRange);
    assert_eq!(s.get_pitch_bend(0).unwrap(), 8192);
    s.pitch_bend(0, 16383).unwrap();
    assert_eq!(s.get_pitch_bend(0).unwrap(), 16383);
}

#[test]
fn program_select_binds_exactly_or_fails() {
    let mut s = synth_with_font(&[(0, 0), (7, 33)], 0);
    assert_eq!(s.program_select(2, 0, 7, 34).unwrap_err(), MidiError::PresetNotFound);
    assert_eq!(s.program_select(2, 1, 7, 33).unwrap_err(), MidiError::PresetNotFound);
    s.program_select(2, 0, 7, 33).unwrap();
    assert_eq!(s.get_program(2).unwrap(), (Some(0), 7, 33));
    assert_eq!(s.channel_preset(2).unwrap(), Some(PresetId { sfont_id: 0, preset_idx: 1 }));
}

#[test]
fn bank_and_sfont_select_update_only_the_selectors() {
    let mut s = synth_with_font(&[(0, 0)], 0);
    s.program_change(4, 0).unwrap();
    s.bank_select(4, 128).unwrap();
    s.sfont_select(4, 3).unwrap();
    assert_eq!(s.get_program(4).unwrap(), (Some(3), 128, 0));
    // the bound preset is untouched until the next program change
    assert_eq!(s.channel_preset(4).unwrap(), Some(PresetId { sfont_id: 0, preset_idx: 0 }));
}

#[test]
fn program_reset_rebinds_every_channel_against_the_new_stack() {
    let mut s = Synth::new(16, true, 0);
    s.program_change(0, 5).unwrap();
    s.program_change(1, 6).unwrap();
    assert_eq!(s.channel_preset(0).unwrap(), None);
    s.add_font(vec![
        PresetKey { bank: 0, num: 5 },
        PresetKey { bank: 0, num: 6 },
        PresetKey { bank: 128, num: 0 },
    ]);
    s.program_reset();
    assert_eq!(s.channel_preset(0).unwrap(), Some(PresetId { sfont_id: 0, preset_idx: 0 }));
    assert_eq!(s.channel_preset(1).unwrap(), Some(PresetId { sfont_id: 0, preset_idx: 1 }));
    assert_eq!(s.get_program(0).unwrap(), (Some(0), 0, 5));
}
