//! Sound of the game: which sound effect an event plays, which music track is
//! playing, and which events combat and selection give rise to.
//!
//! `f32` values are carried as their bit patterns (see [`crate::float_bits`]);
//! entities as their `u64` bits.
use vstd::prelude::*;

verus! {

/// Music tracks.
#[derive(Clone, Copy, Debug, PartialEq, Eq, Structural)]
pub enum MusicTrack {
    Menu,
    Exploration,
    Combat,
    Victory,
    Defeat,
}

/// Events that the sound of the game reacts to.
#[derive(Clone, Copy, Debug, PartialEq, Eq, Structural)]
pub enum AudioEvent {
    UnitSelected,
    UnitDeselected,
    Attack { attacker: u64, target: u64 },
    /// Damage received; the amount is an `f32` bit pattern.
    DamageReceived { target: u64, amount: u32 },
    UnitDeath { entity: u64 },
    ResourceGatherStart { entity: u64 },
    ResourceGatherComplete { entity: u64 },
    BuildingConstructed { entity: u64 },
    ChangeMusic { track: MusicTrack },
    StopAllSfx,
}

/// Audio settings; volumes are `f32` bit patterns.
#[derive(Clone, Copy, Debug)]
pub struct AudioSettings {
    pub master_volume: u32,
    pub sfx_volume: u32,
    pub music_volume: u32,
    pub music_enabled: bool,
    pub sfx_enabled: bool,
    pub current_music_track: Option<MusicTrack>,
}

impl Default for AudioSettings {
    fn default() -> (s: Self)
        ensures
            s.master_volume == 0x3F80_0000,
            s.sfx_volume == 0x3F33_3333,
            s.music_volume == 0x3F00_0000,
            s.music_enabled,
            s.sfx_enabled,
            s.current_music_track is None,
    {
        AudioSettings {
            master_volume: 0x3F80_0000,
            sfx_volume: 0x3F33_3333,
            music_volume: 0x3F00_0000,
            music_enabled: true,
            sfx_enabled: true,
            current_music_track: None,
        }
    }
}

/// The sound assets, each one loaded or not.
#[derive(Clone, Debug)]
pub struct AudioAssets<H> {
    pub unit_select: Option<H>,
    pub unit_deselect: Option<H>,
    pub attack: Option<H>,
    pub damage_received: Option<H>,
    pub unit_death: Option<H>,
    pub resource_gather_start: Option<H>,
    pub resource_gather_complete: Option<H>,
    pub building_constructed: Option<H>,
    pub music_menu: Option<H>,
    pub music_exploration: Option<H>,
    pub music_combat: Option<H>,
    pub music_victory: Option<H>,
    pub music_defeat: Option<H>,
}

impl<H> AudioAssets<H> {
    /// The sound effect slot of an event; events that play no effect have none.
    pub open spec fn effect_slot(&self, event: AudioEvent) -> Option<&Option<H>> {
        match event {
            AudioEvent::UnitSelected => Some(&self.unit_select),
            AudioEvent::UnitDeselected => Some(&self.unit_deselect),
            AudioEvent::Attack { .. } => Some(&self.attack),
            AudioEvent::DamageReceived { .. } => Some(&self.damage_received),
            AudioEvent::UnitDeath { .. } => Some(&self.unit_death),
            AudioEvent::ResourceGatherStart { .. } => Some(&self.resource_gather_start),
            AudioEvent::ResourceGatherComplete { .. } => Some(&self.resource_gather_complete),
            AudioEvent::BuildingConstructed { .. } => Some(&self.building_constructed),
            AudioEvent::ChangeMusic { .. } => None,
            AudioEvent::StopAllSfx => None,
        }
    }

    /// The sound effect that `event` plays: none when effects are off, when the
    /// event plays no effect, or when its sound is not loaded.
    pub fn effect_for(&self, settings: &AudioSettings, event: &AudioEvent) -> (r: Option<&H>)
        ensures
            r == (if !settings.sfx_enabled {
                None
            } else {
                match self.effect_slot(*event) {
                    Some(slot) => match slot {
                        Some(h) => Some(h),
                        None => None,
                    },
                    None => None,
                }
            }),
    {
        if !settings.sfx_enabled {
            return None;
        }
        let slot = match event {
            AudioEvent::UnitSelected => &self.unit_select,
            AudioEvent::UnitDeselected => &self.unit_deselect,
            AudioEvent::Attack { .. } => &self.attack,
            AudioEvent::DamageReceived { .. } => &self.damage_received,
            AudioEvent::UnitDeath { .. } => &self.unit_death,
            AudioEvent::ResourceGatherStart { .. } => &self.resource_gather_start,
            AudioEvent::ResourceGatherComplete { .. } => &self.resource_gather_complete,
            AudioEvent::BuildingConstructed { .. } => &self.building_constructed,
            AudioEvent::ChangeMusic { .. } => return None,
            AudioEvent::StopAllSfx => return None,
        };
        match slot {
            Some(h) => Some(h),
            None => None,
        }
    }

    /// The music of a track.
    pub fn music_for(&self, track: MusicTrack) -> (r: &Option<H>)
        ensures
            r == (match track {
                MusicTrack::Menu => &self.music_menu,
                MusicTrack::Exploration => &self.music_exploration,
                MusicTrack::Combat => &self.music_combat,
                MusicTrack::Victory => &self.music_victory,
                MusicTrack::Defeat => &self.music_defeat,
            }),
    {
        match track {
            MusicTrack::Menu => &self.music_menu,
            MusicTrack::Exploration => &self.music_exploration,
            MusicTrack::Combat => &self.music_combat,
            MusicTrack::Victory => &self.music_victory,
            MusicTrack::Defeat => &self.music_defeat,
        }
    }
}

impl AudioAssets<&'static str> {
    /// The paths of every sound.
    pub fn asset_paths() -> (a: Self)
        ensures
            a.unit_select matches Some(p) && p@ == "audio/sfx/unit_select.ogg"@,
            a.unit_deselect matches Some(p) && p@ == "audio/sfx/unit_deselect.ogg"@,
            a.attack matches Some(p) && p@ == "audio/sfx/attack.ogg"@,
            a.damage_received matches Some(p) && p@ == "audio/sfx/damage.ogg"@,
            a.unit_death matches Some(p) && p@ == "audio/sfx/death.ogg"@,
            a.resource_gather_start matches Some(p) && p@ == "audio/sfx/gather_start.ogg"@,
            a.resource_gather_complete matches Some(p) && p@ == "audio/sfx/gather_complete.ogg"@,
            a.building_constructed matches Some(p) && p@ == "audio/sfx/building.ogg"@,
            a.music_menu matches Some(p) && p@ == "audio/music/menu.ogg"@,
            a.music_exploration matches Some(p) && p@ == "audio/music/exploration.ogg"@,
            a.music_combat matches Some(p) && p@ == "audio/music/combat.ogg"@,
            a.music_victory matches Some(p) && p@ == "audio/music/victory.ogg"@,
            a.music_defeat matches Some(p) && p@ == "audio/music/defeat.ogg"@,
    {
        AudioAssets {
            unit_select: Some("audio/sfx/unit_select.ogg"),
            unit_deselect: Some("audio/sfx/unit_deselect.ogg"),
            attack: Some("audio/sfx/attack.ogg"),
            damage_received: Some("audio/sfx/damage.ogg"),
            unit_death: Some("audio/sfx/death.ogg"),
            resource_gather_start: Some("audio/sfx/gather_start.ogg"),
            resource_gather_complete: Some("audio/sfx/gather_complete.ogg"),
            building_constructed: Some("audio/sfx/building.ogg"),
            music_menu: Some("audio/music/menu.ogg"),
            music_exploration: Some("audio/music/exploration.ogg"),
            music_combat: Some("audio/music/combat.ogg"),
            music_victory: Some("audio/music/victory.ogg"),
            music_defeat: Some("audio/music/defeat.ogg"),
        }
    }
}

/// The last music change among `events`, if any.
pub open spec fn last_music_change(events: Seq<AudioEvent>) -> Option<MusicTrack>
    decreases events.len(),
{
    if events.len() == 0 {
        None
    } else {
        match events.last() {
            AudioEvent::ChangeMusic { track } => Some(track),
            _ => last_music_change(events.drop_last()),
        }
    }
}

impl AudioSettings {
    /// Follows the music changes among `events`: with music on, the last
    /// change asked for becomes the current track.
    pub fn apply_music_events(&mut self, events: &Vec<AudioEvent>)
        ensures
            final(self).current_music_track == (if old(self).music_enabled && last_music_change(events@) is Some {
                last_music_change(events@)
            } else {
                old(self).current_music_track
            }),
            final(self).music_enabled == old(self).music_enabled,
            final(self).sfx_enabled == old(self).sfx_enabled,
            final(self).master_volume == old(self).master_volume,
            final(self).sfx_volume == old(self).sfx_volume,
            final(self).music_volume == old(self).music_volume,
    {
        if !self.music_enabled {
            return;
        }
        let mut i: usize = 0;
        while i < events.len()
            invariant
                i <= events@.len(),
                self.music_enabled == old(self).music_enabled,
                self.sfx_enabled == old(self).sfx_enabled,
                self.master_volume == old(self).master_volume,
                self.sfx_volume == old(self).sfx_volume,
                self.music_volume == old(self).music_volume,
                self.current_music_track == (if last_music_change(events@.subrange(0, i as int)) is Some {
                    last_music_change(events@.subrange(0, i as int))
                } else {
                    old(self).current_music_track
                }),
            decreases events@.len() - i,
        {
            assert(events@.subrange(0, i + 1).drop_last() =~= events@.subrange(0, i as int));
            if let AudioEvent::ChangeMusic { track } = events[i] {
                self.current_music_track = Some(track);
            }
            i = i + 1;
        }
        assert(events@.subrange(0, events@.len() as int) =~= events@);
    }
}

/// Damage dealt, as combat reports it; the amount is an `f32` bit pattern.
#[derive(Clone, Copy, Debug)]
pub struct DamageNotice {
    pub attacker: u64,
    pub target: u64,
    pub amount: u32,
}

/// The sound events of damage: an attack and the damage received, for each in order.
pub open spec fn damage_sounds(damage: Seq<DamageNotice>) -> Seq<AudioEvent>
    decreases damage.len(),
{
    if damage.len() == 0 {
        Seq::empty()
    } else {
        let d = damage.last();
        damage_sounds(damage.drop_last())
            .push(AudioEvent::Attack { attacker: d.attacker, target: d.target })
            .push(AudioEvent::DamageReceived { target: d.target, amount: d.amount })
    }
}

/// The sound events of combat: those of each damage dealt, then a death for each unit that died.
pub fn combat_sound_events(damage: &Vec<DamageNotice>, deaths: &Vec<u64>) -> (events: Vec<AudioEvent>)
    ensures
        events@ == damage_sounds(damage@) + deaths@.map_values(|e: u64| AudioEvent::UnitDeath { entity: e }),
{
    let mut events: Vec<AudioEvent> = Vec::new();
    let mut i: usize = 0;
    while i < damage.len()
        invariant
            i <= damage@.len(),
            events@ == damage_sounds(damage@.subrange(0, i as int)),
        decreases damage@.len() - i,
    {
        assert(damage@.subrange(0, i + 1).drop_last() =~= damage@.subrange(0, i as int));
        let d = damage[i];
        events.push(AudioEvent::Attack { attacker: d.attacker, target: d.target });
        events.push(AudioEvent::DamageReceived { target: d.target, amount: d.amount });
        i = i + 1;
    }
    assert(damage@.subrange(0, damage@.len() as int) =~= damage@);
    let ghost prefix = events@;
    let mut j: usize = 0;
    while j < deaths.len()
        invariant
            j <= deaths@.len(),
            events@ == prefix + deaths@.subrange(0, j as int).map_values(|e: u64| AudioEvent::UnitDeath { entity: e }),
        decreases deaths@.len() - j,
    {
        events.push(AudioEvent::UnitDeath { entity: deaths[j] });
        assert(prefix + deaths@.subrange(0, j + 1).map_values(|e: u64| AudioEvent::UnitDeath { entity: e })
            =~= (prefix + deaths@.subrange(0, j as int).map_values(|e: u64| AudioEvent::UnitDeath { entity: e })).push(
            AudioEvent::UnitDeath { entity: deaths@[j as int] },
        ));
        j = j + 1;
    }
    assert(deaths@.subrange(0, deaths@.len() as int) =~= deaths@);
    events
}

/// The sound a change of selection makes: a selection sound when the selection
/// was changed (not just created), flags the change, and is not empty.
pub fn selection_sound(changed: bool, added: bool, selection_changed: bool, selected_count: usize) -> (e: Option<AudioEvent>)
    ensures
        e == (if changed && !added && selection_changed && selected_count > 0 {
            Some(AudioEvent::UnitSelected)
        } else {
            None
        }),
{
    if changed && !added && selection_changed && selected_count > 0 {
        Some(AudioEvent::UnitSelected)
    } else {
        None
    }
}

} // verus!
