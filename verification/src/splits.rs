use vstd::prelude::*;
use crate::splitter_settings::Settings;
use crate::text::chars_match;

verus! {

/// How many checkpoints a run can have.
pub const SPLIT_SLOTS: usize = 32;

// Fire shrines.
pub const SHC_SHRINE: usize = 0;
pub const AP_SHRINE: usize = 1;
pub const TG_SHRINE: usize = 2;
pub const AT_SHRINE: usize = 3;
pub const FK_SHRINE: usize = 4;
pub const FFR_SHRINE: usize = 5;
pub const SH_SHRINE: usize = 6;

// Soul fragments brought to a vessel.
pub const AP_SOUL_FRAGMENTS_END: usize = 7;
pub const TG_SOUL_FRAGMENTS_END: usize = 8;
pub const FFR_SOUL_FRAGMENTS_END: usize = 9;
pub const FK_SOUL_FRAGMENTS_END: usize = 10;

// Bosses.
pub const GRUH: usize = 11;
pub const CROH: usize = 12;
pub const SIRION: usize = 13;
pub const BEIRA: usize = 14;
pub const SAMAEL: usize = 15;
pub const QUEEN: usize = 16;

// Abilities.
pub const SHIELD: usize = 17;
pub const FIREBALL: usize = 18;
pub const SPIN: usize = 19;
pub const WALLRUN: usize = 20;
pub const DOUBLEJUMP: usize = 21;
pub const FASTTRAVEL: usize = 22;

// Fire shrine of the downloadable content.
pub const VG_SHRINE: usize = 23;

/// Whether the runner asked for a split at checkpoint `slot`.
pub open spec fn slot_enabled(settings: Settings, slot: int) -> bool {
    if slot == SHC_SHRINE {
        settings.stoneheart_city_fire_shrine
    } else if slot == AP_SHRINE {
        settings.abandoned_path_fire_shrine
    } else if slot == TG_SHRINE {
        settings.temple_gardens_fire_shrine
    } else if slot == AT_SHRINE {
        settings.arcane_tunnels_fire_shrine
    } else if slot == FK_SHRINE {
        settings.fire_keep_fire_shrine
    } else if slot == FFR_SHRINE {
        settings.firefall_river_fire_shrine
    } else if slot == SH_SHRINE {
        settings.steam_house_fire_shrine
    } else if slot == AP_SOUL_FRAGMENTS_END {
        settings.ap_soul_fragments_end
    } else if slot == TG_SOUL_FRAGMENTS_END {
        settings.tg_soul_fragments_end
    } else if slot == FFR_SOUL_FRAGMENTS_END {
        settings.ffr_soul_fragments_end
    } else if slot == FK_SOUL_FRAGMENTS_END {
        settings.fk_soul_fragments_end
    } else if slot == GRUH {
        settings.gruh_dead
    } else if slot == CROH {
        settings.croh_dead
    } else if slot == SIRION {
        settings.sirion_dead
    } else if slot == BEIRA {
        settings.beira_dead
    } else if slot == SAMAEL {
        settings.samael_dead
    } else if slot == QUEEN {
        settings.queen_dead
    } else if slot == SHIELD {
        settings.shield
    } else if slot == FIREBALL {
        settings.fireball
    } else if slot == SPIN {
        settings.spin
    } else if slot == WALLRUN {
        settings.wall_run
    } else if slot == DOUBLEJUMP {
        settings.double_jump
    } else if slot == FASTTRAVEL {
        settings.fast_travel
    } else if slot == VG_SHRINE {
        settings.void_gate_fire_shrine
    } else {
        false
    }
}

/// The checkpoint reached by lighting the fire shrine with game id
/// `shrine`, with whether the runner splits on it.
pub open spec fn shrine_target(shrine: u32, settings: Settings) -> Option<(usize, bool)> {
    if shrine == 4 {
        Some((FK_SHRINE, settings.fire_keep_fire_shrine))
    } else if shrine == 3 {
        Some((AT_SHRINE, settings.arcane_tunnels_fire_shrine))
    } else if shrine == 0 {
        Some((SHC_SHRINE, settings.stoneheart_city_fire_shrine))
    } else if shrine == 1 {
        Some((AP_SHRINE, settings.abandoned_path_fire_shrine))
    } else if shrine == 2 {
        Some((TG_SHRINE, settings.temple_gardens_fire_shrine))
    } else if shrine == 5 {
        Some((FFR_SHRINE, settings.firefall_river_fire_shrine))
    } else if shrine == 6 {
        Some((SH_SHRINE, settings.steam_house_fire_shrine))
    } else if shrine == 8 {
        Some((VG_SHRINE, settings.void_gate_fire_shrine))
    } else {
        None
    }
}

/// The boss checkpoint of a teleport out of the temple while the world
/// streams chunk `chunk`, with whether the runner splits on it.
pub open spec fn chunk_target(chunk: u32, settings: Settings) -> Option<(usize, bool)> {
    if chunk == 14 {
        Some((SIRION, settings.sirion_dead))
    } else if chunk == 2 {
        Some((BEIRA, settings.beira_dead))
    } else if chunk == 9 {
        Some((SAMAEL, settings.samael_dead))
    } else {
        None
    }
}

/// What a game event, known by its name, asks of the splitter.
#[derive(Clone, Copy, Debug, PartialEq, Eq, Structural)]
pub enum EventTarget {
    /// A new game started.
    ResetRun,
    /// The checkpoint reached, and whether the runner splits on it.
    Split(usize, bool),
    /// A boss may have died: the streamed chunk tells which one.
    CheckChunk,
    /// The event means nothing to the splitter.
    Ignore,
}

/// The name of the event that starts a new game.
pub open spec fn intro_scene() -> Seq<char> {
    "IntroScene"@
}

/// What the event named `name` asks of the splitter.
pub open spec fn event_target(name: Seq<char>, settings: Settings) -> EventTarget {
    if name == "IntroScene"@ {
        EventTarget::ResetRun
    } else if name == "BP_BeiraVesselBase_Graveyard"@ {
        EventTarget::Split(AP_SOUL_FRAGMENTS_END, settings.ap_soul_fragments_end)
    } else if name == "BP_BeiraVesselBase_TempleGardens"@ {
        EventTarget::Split(TG_SOUL_FRAGMENTS_END, settings.tg_soul_fragments_end)
    } else if name == "BP_BeiraVesselBase_LakeMolva"@ {
        EventTarget::Split(FFR_SOUL_FRAGMENTS_END, settings.ffr_soul_fragments_end)
    } else if name == "BP_BeiraVesselBase_GameIntro"@ {
        EventTarget::Split(FK_SOUL_FRAGMENTS_END, settings.fk_soul_fragments_end)
    } else if name == "NuosTempleEndCutscene"@ {
        EventTarget::Split(GRUH, settings.gruh_dead)
    } else if name == "UthasEndCutscene"@ {
        EventTarget::Split(CROH, settings.croh_dead)
    } else if name == "TeleportTemple"@ {
        EventTarget::CheckChunk
    } else if name == "BossQueen"@ {
        EventTarget::Split(QUEEN, settings.queen_dead)
    } else if name == "Chest_A01_Keep_Shield"@ {
        EventTarget::Split(SHIELD, settings.shield)
    } else if name == "IDTutorial_FireBall"@ {
        EventTarget::Split(FIREBALL, settings.fireball)
    } else if name == "IDTutorial_Spin Attack"@ {
        EventTarget::Split(SPIN, settings.spin)
    } else if name == "IDTutorial_Wall Run"@ {
        EventTarget::Split(WALLRUN, settings.wall_run)
    } else if name == "IDTutorial_Double Jump"@ {
        EventTarget::Split(DOUBLEJUMP, settings.double_jump)
    } else if name == "IDTutorial_Warp"@ {
        EventTarget::Split(FASTTRAVEL, settings.fast_travel)
    } else {
        EventTarget::Ignore
    }
}

/// The checkpoint of a lit fire shrine, with whether the runner splits on it.
pub fn shrine_split(shrine: u32, settings: &Settings) -> (r: Option<(usize, bool)>)
    ensures
        r == shrine_target(shrine, *settings),
{
    match shrine {
        4 => Some((FK_SHRINE, settings.fire_keep_fire_shrine)),
        3 => Some((AT_SHRINE, settings.arcane_tunnels_fire_shrine)),
        0 => Some((SHC_SHRINE, settings.stoneheart_city_fire_shrine)),
        1 => Some((AP_SHRINE, settings.abandoned_path_fire_shrine)),
        2 => Some((TG_SHRINE, settings.temple_gardens_fire_shrine)),
        5 => Some((FFR_SHRINE, settings.firefall_river_fire_shrine)),
        6 => Some((SH_SHRINE, settings.steam_house_fire_shrine)),
        8 => Some((VG_SHRINE, settings.void_gate_fire_shrine)),
        _ => None,
    }
}

/// The boss checkpoint of a streamed chunk, with whether the runner splits
/// on it.
pub fn chunk_split(chunk: u32, settings: &Settings) -> (r: Option<(usize, bool)>)
    ensures
        r == chunk_target(chunk, *settings),
{
    match chunk {
        14 => Some((SIRION, settings.sirion_dead)),
        2 => Some((BEIRA, settings.beira_dead)),
        9 => Some((SAMAEL, settings.samael_dead)),
        _ => None,
    }
}

/// What the event named `name` asks of the splitter.
pub fn event_split(name: &[char], settings: &Settings) -> (r: EventTarget)
    ensures
        r == event_target(name@, *settings),
{
    if chars_match(name, "IntroScene") {
        EventTarget::ResetRun
    } else if chars_match(name, "BP_BeiraVesselBase_Graveyard") {
        EventTarget::Split(AP_SOUL_FRAGMENTS_END, settings.ap_soul_fragments_end)
    } else if chars_match(name, "BP_BeiraVesselBase_TempleGardens") {
        EventTarget::Split(TG_SOUL_FRAGMENTS_END, settings.tg_soul_fragments_end)
    } else if chars_match(name, "BP_BeiraVesselBase_LakeMolva") {
        EventTarget::Split(FFR_SOUL_FRAGMENTS_END, settings.ffr_soul_fragments_end)
    } else if chars_match(name, "BP_BeiraVesselBase_GameIntro") {
        EventTarget::Split(FK_SOUL_FRAGMENTS_END, settings.fk_soul_fragments_end)
    } else if chars_match(name, "NuosTempleEndCutscene") {
        EventTarget::Split(GRUH, settings.gruh_dead)
    } else if chars_match(name, "UthasEndCutscene") {
        EventTarget::Split(CROH, settings.croh_dead)
    } else if chars_match(name, "TeleportTemple") {
        EventTarget::CheckChunk
    } else if chars_match(name, "BossQueen") {
        EventTarget::Split(QUEEN, settings.queen_dead)
    } else if chars_match(name, "Chest_A01_Keep_Shield") {
        EventTarget::Split(SHIELD, settings.shield)
    } else if chars_match(name, "IDTutorial_FireBall") {
        EventTarget::Split(FIREBALL, settings.fireball)
    } else if chars_match(name, "IDTutorial_Spin Attack") {
        EventTarget::Split(SPIN, settings.spin)
    } else if chars_match(name, "IDTutorial_Wall Run") {
        EventTarget::Split(WALLRUN, settings.wall_run)
    } else if chars_match(name, "IDTutorial_Double Jump") {
        EventTarget::Split(DOUBLEJUMP, settings.double_jump)
    } else if chars_match(name, "IDTutorial_Warp") {
        EventTarget::Split(FASTTRAVEL, settings.fast_travel)
    } else {
        EventTarget::Ignore
    }
}

/// Every checkpoint a lit shrine leads to is a fire-shrine checkpoint, and its
/// flag is the runner's setting for that checkpoint; two shrines never share
/// a checkpoint.
pub proof fn lemma_shrine_targets(a: u32, b: u32, settings: Settings)
    ensures
        shrine_target(a, settings) matches Some((slot, on)) ==> {
            &&& (slot <= SH_SHRINE || slot == VG_SHRINE)
            &&& on == slot_enabled(settings, slot as int)
        },
        shrine_target(a, settings) matches Some((sa, _)) ==> (shrine_target(b, settings) matches Some(
            (sb, _),
        ) && sa == sb ==> a == b),
{
}

/// Every checkpoint a streamed chunk leads to is a boss checkpoint, and its
/// flag is the runner's setting for it; two chunks never share a checkpoint.
pub proof fn lemma_chunk_targets(a: u32, b: u32, settings: Settings)
    ensures
        chunk_target(a, settings) matches Some((slot, on)) ==> {
            &&& SIRION <= slot <= SAMAEL
            &&& on == slot_enabled(settings, slot as int)
        },
        chunk_target(a, settings) matches Some((sa, _)) ==> (chunk_target(b, settings) matches Some(
            (sb, _),
        ) && sa == sb ==> a == b),
{
}

/// Every checkpoint an event leads to lies between the shrine checkpoints
/// and the downloadable content's shrine, is not one that a streamed chunk
/// decides, and carries the runner's setting for it; two event names never
/// share a checkpoint.
pub proof fn lemma_event_targets(a: Seq<char>, b: Seq<char>, settings: Settings)
    ensures
        event_target(a, settings) matches EventTarget::Split(slot, on) ==> {
            &&& AP_SOUL_FRAGMENTS_END <= slot <= FASTTRAVEL
            &&& !(SIRION <= slot <= SAMAEL)
            &&& on == slot_enabled(settings, slot as int)
        },
        event_target(a, settings) matches EventTarget::Split(sa, _) ==> (event_target(
            b,
            settings,
        ) matches EventTarget::Split(sb, _) && sa == sb ==> a == b),
{
}

/// The game's events and what each asks of the splitter: a new game, a
/// vessel filled, a boss's end cutscene, a teleport out of the temple, the
/// queen's death, the shield chest, and the tutorial of each ability.
pub proof fn lemma_event_names(settings: Settings)
    ensures
        event_target("IntroScene"@, settings) == EventTarget::ResetRun,
        event_target("BP_BeiraVesselBase_Graveyard"@, settings) == EventTarget::Split(AP_SOUL_FRAGMENTS_END, settings.ap_soul_fragments_end),
        event_target("BP_BeiraVesselBase_TempleGardens"@, settings) == EventTarget::Split(TG_SOUL_FRAGMENTS_END, settings.tg_soul_fragments_end),
        event_target("BP_BeiraVesselBase_LakeMolva"@, settings) == EventTarget::Split(FFR_SOUL_FRAGMENTS_END, settings.ffr_soul_fragments_end),
        event_target("BP_BeiraVesselBase_GameIntro"@, settings) == EventTarget::Split(FK_SOUL_FRAGMENTS_END, settings.fk_soul_fragments_end),
        event_target("NuosTempleEndCutscene"@, settings) == EventTarget::Split(GRUH, settings.gruh_dead),
        event_target("UthasEndCutscene"@, settings) == EventTarget::Split(CROH, settings.croh_dead),
        event_target("TeleportTemple"@, settings) == EventTarget::CheckChunk,
        event_target("BossQueen"@, settings) == EventTarget::Split(QUEEN, settings.queen_dead),
        event_target("Chest_A01_Keep_Shield"@, settings) == EventTarget::Split(SHIELD, settings.shield),
        event_target("IDTutorial_FireBall"@, settings) == EventTarget::Split(FIREBALL, settings.fireball),
        event_target("IDTutorial_Spin Attack"@, settings) == EventTarget::Split(SPIN, settings.spin),
        event_target("IDTutorial_Wall Run"@, settings) == EventTarget::Split(WALLRUN, settings.wall_run),
        event_target("IDTutorial_Double Jump"@, settings) == EventTarget::Split(DOUBLEJUMP, settings.double_jump),
        event_target("IDTutorial_Warp"@, settings) == EventTarget::Split(FASTTRAVEL, settings.fast_travel),
{
    reveal_strlit("IntroScene");
    reveal_strlit("BP_BeiraVesselBase_Graveyard");
    reveal_strlit("BP_BeiraVesselBase_TempleGardens");
    reveal_strlit("BP_BeiraVesselBase_LakeMolva");
    reveal_strlit("BP_BeiraVesselBase_GameIntro");
    reveal_strlit("NuosTempleEndCutscene");
    reveal_strlit("UthasEndCutscene");
    reveal_strlit("TeleportTemple");
    reveal_strlit("BossQueen");
    reveal_strlit("Chest_A01_Keep_Shield");
    reveal_strlit("IDTutorial_FireBall");
    reveal_strlit("IDTutorial_Spin Attack");
    reveal_strlit("IDTutorial_Wall Run");
    reveal_strlit("IDTutorial_Double Jump");
    reveal_strlit("IDTutorial_Warp");
    assert("IntroScene"@.len() == 10);
    assert("BP_BeiraVesselBase_Graveyard"@.len() == 28);
    assert("BP_BeiraVesselBase_TempleGardens"@.len() == 32);
    assert("BP_BeiraVesselBase_LakeMolva"@.len() == 28);
    assert("BP_BeiraVesselBase_GameIntro"@.len() == 28);
    assert("NuosTempleEndCutscene"@.len() == 21);
    assert("UthasEndCutscene"@.len() == 16);
    assert("TeleportTemple"@.len() == 14);
    assert("BossQueen"@.len() == 9);
    assert("Chest_A01_Keep_Shield"@.len() == 21);
    assert("IDTutorial_FireBall"@.len() == 19);
    assert("IDTutorial_Spin Attack"@.len() == 22);
    assert("IDTutorial_Wall Run"@.len() == 19);
    assert("IDTutorial_Double Jump"@.len() == 22);
    assert("IDTutorial_Warp"@.len() == 15);
    assert("BP_BeiraVesselBase_LakeMolva"@[19] != "BP_BeiraVesselBase_Graveyard"@[19]);
    assert("BP_BeiraVesselBase_GameIntro"@[20] != "BP_BeiraVesselBase_Graveyard"@[20]);
    assert("BP_BeiraVesselBase_GameIntro"@[19] != "BP_BeiraVesselBase_LakeMolva"@[19]);
    assert("Chest_A01_Keep_Shield"@[0] != "NuosTempleEndCutscene"@[0]);
    assert("IDTutorial_Wall Run"@[11] != "IDTutorial_FireBall"@[11]);
    assert("IDTutorial_Double Jump"@[11] != "IDTutorial_Spin Attack"@[11]);
}

/// The game's fire shrine ids and the checkpoint each leads to; no other id
/// is a fire shrine.
pub proof fn lemma_shrine_ids(v: u32, settings: Settings)
    ensures
        shrine_target(0, settings) == Some((SHC_SHRINE, settings.stoneheart_city_fire_shrine)),
        shrine_target(1, settings) == Some((AP_SHRINE, settings.abandoned_path_fire_shrine)),
        shrine_target(2, settings) == Some((TG_SHRINE, settings.temple_gardens_fire_shrine)),
        shrine_target(3, settings) == Some((AT_SHRINE, settings.arcane_tunnels_fire_shrine)),
        shrine_target(4, settings) == Some((FK_SHRINE, settings.fire_keep_fire_shrine)),
        shrine_target(5, settings) == Some((FFR_SHRINE, settings.firefall_river_fire_shrine)),
        shrine_target(6, settings) == Some((SH_SHRINE, settings.steam_house_fire_shrine)),
        shrine_target(8, settings) == Some((VG_SHRINE, settings.void_gate_fire_shrine)),
        (v == 7 || v > 8) ==> shrine_target(v, settings) is None,
{
}

} // verus!
