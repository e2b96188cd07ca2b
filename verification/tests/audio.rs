use cosmic_cults::audio::{
    combat_sound_events, selection_sound, AudioAssets, AudioEvent, AudioSettings, DamageNotice, MusicTrack,
};

#[test]
fn default_settings() {
    let s = AudioSettings::default();
    assert_eq!(f32::from_bits(s.master_volume), 1.0);
    assert_eq!(f32::from_bits(s.sfx_volume), 0.7);
    assert_eq!(f32::from_bits(s.music_volume), 0.5);
    assert!(s.music_enabled && s.sfx_enabled);
    assert_eq!(s.current_music_track, None);
}

#[test]
fn events_play_their_effects() {
    let assets = AudioAssets::asset_paths();
    let mut settings = AudioSettings::default();
    assert_eq!(assets.effect_for(&settings, &AudioEvent::UnitSelected), Some(&"audio/sfx/unit_select.ogg"));
    assert_eq!(
        assets.effect_for(&settings, &AudioEvent::DamageReceived { target: 1, amount: 5.0f32.to_bits() }),
        Some(&"audio/sfx/damage.ogg")
    );
    assert_eq!(assets.effect_for(&settings, &AudioEvent::ChangeMusic { track: MusicTrack::Combat }), None);
    assert_eq!(assets.effect_for(&settings, &AudioEvent::StopAllSfx), None);
    settings.sfx_enabled = false;
    assert_eq!(assets.effect_for(&settings, &AudioEvent::UnitSelected), None);
}

#[test]
fn unloaded_sounds_play_nothing() {
    let mut assets = AudioAssets::asset_paths();
    assets.attack = None;
    let settings = AudioSettings::default();
    assert_eq!(assets.effect_for(&settings, &AudioEvent::Attack { attacker: 1, target: 2 }), None);
}

#[test]
fn music_follows_the_last_change() {
    let mut s = AudioSettings::default();
    s.apply_music_events(&vec![
        AudioEvent::ChangeMusic { track: MusicTrack::Exploration },
        AudioEvent::UnitSelected,
        AudioEvent::ChangeMusic { track: MusicTrack::Combat },
        AudioEvent::StopAllSfx,
    ]);
    assert_eq!(s.current_music_track, Some(MusicTrack::Combat));
    s.apply_music_events(&vec![AudioEvent::UnitSelected]);
    assert_eq!(s.current_music_track, Some(MusicTrack::Combat));
    s.music_enabled = false;
    s.apply_music_events(&vec![AudioEvent::ChangeMusic { track: MusicTrack::Victory }]);
    assert_eq!(s.current_music_track, Some(MusicTrack::Combat));
    let assets = AudioAssets::asset_paths();
    assert_eq!(assets.music_for(MusicTrack::Combat), &Some("audio/music/combat.ogg"));
    assert_eq!(assets.music_for(MusicTrack::Defeat), &Some("audio/music/defeat.ogg"));
}

#[test]
fn combat_sounds_pair_attacks_with_damage_then_deaths() {
    let damage = vec![
        DamageNotice { attacker: 1, target: 2, amount: 3.0f32.to_bits() },
        DamageNotice { attacker: 4, target: 5, amount: 6.0f32.to_bits() },
    ];
    let events = combat_sound_events(&damage, &vec![2]);
    assert_eq!(
        events,
        vec![
            AudioEvent::Attack { attacker: 1, target: 2 },
            AudioEvent::DamageReceived { target: 2, amount: 3.0f32.to_bits() },
            AudioEvent::Attack { attacker: 4, target: 5 },
            AudioEvent::DamageReceived { target: 5, amount: 6.0f32.to_bits() },
            AudioEvent::UnitDeath { entity: 2 },
        ]
    );
    assert!(combat_sound_events(&vec![], &vec![]).is_empty());
}

#[test]
fn selection_sounds_only_on_a_changed_nonempty_selection() {
    assert_eq!(selection_sound(true, false, true, 2), Some(AudioEvent::UnitSelected));
    assert_eq!(selection_sound(true, true, true, 2), None);
    assert_eq!(selection_sound(true, false, false, 2), None);
    assert_eq!(selection_sound(true, false, true, 0), None);
    assert_eq!(selection_sound(false, false, true, 2), None);
}
