use blue_fire_splitter::jujstme_string::{Address64, ArrayWString};
use blue_fire_splitter::offsets::get_offsets;
use blue_fire_splitter::splits::{
    chunk_split, event_split, shrine_split, EventTarget, AP_SHRINE, AP_SOUL_FRAGMENTS_END, AT_SHRINE,
    BEIRA, CROH, DOUBLEJUMP, FASTTRAVEL, FFR_SHRINE, FFR_SOUL_FRAGMENTS_END, FIREBALL, FK_SHRINE,
    FK_SOUL_FRAGMENTS_END, GRUH, QUEEN, SAMAEL, SHC_SHRINE, SHIELD, SH_SHRINE, SIRION, SPIN,
    SPLIT_SLOTS, TG_SHRINE, TG_SOUL_FRAGMENTS_END, VG_SHRINE, WALLRUN,
};
use blue_fire_splitter::splitter::{
    event_entry_address, reset_all, split_setting_check, Splitter, TimerAction, TimerPhase,
};
use blue_fire_splitter::splitter_settings::Settings;
use blue_fire_splitter::watcher::{Pair, Watcher};

fn all_on() -> Settings {
    Settings {
        fire_keep_fire_shrine: true,
        arcane_tunnels_fire_shrine: true,
        stoneheart_city_fire_shrine: true,
        abandoned_path_fire_shrine: true,
        temple_gardens_fire_shrine: true,
        firefall_river_fire_shrine: true,
        steam_house_fire_shrine: true,
        ap_soul_fragments_end: true,
        tg_soul_fragments_end: true,
        ffr_soul_fragments_end: true,
        fk_soul_fragments_end: true,
        gruh_dead: true,
        croh_dead: true,
        sirion_dead: true,
        beira_dead: true,
        samael_dead: true,
        queen_dead: true,
        shield: true,
        fireball: true,
        spin: true,
        wall_run: true,
        double_jump: true,
        fast_travel: true,
        transition_shc_to_forest: true,
        transition_ap_to_uthas: true,
        spirit_fire_keep_tear: true,
        spirit_aerial_rat: true,
        void_gate_fire_shrine: true,
        show_completion: true,
    }
}

fn none_on() -> Settings {
    let mut s = all_on();
    s.fire_keep_fire_shrine = false;
    s.arcane_tunnels_fire_shrine = false;
    s.stoneheart_city_fire_shrine = false;
    s.abandoned_path_fire_shrine = false;
    s.temple_gardens_fire_shrine = false;
    s.firefall_river_fire_shrine = false;
    s.steam_house_fire_shrine = false;
    s.ap_soul_fragments_end = false;
    s.tg_soul_fragments_end = false;
    s.ffr_soul_fragments_end = false;
    s.fk_soul_fragments_end = false;
    s.gruh_dead = false;
    s.croh_dead = false;
    s.sirion_dead = false;
    s.beira_dead = false;
    s.samael_dead = false;
    s.queen_dead = false;
    s.shield = false;
    s.fireball = false;
    s.spin = false;
    s.wall_run = false;
    s.double_jump = false;
    s.fast_travel = false;
    s.transition_shc_to_forest = false;
    s.transition_ap_to_uthas = false;
    s.spirit_fire_keep_tear = false;
    s.spirit_aerial_rat = false;
    s.void_gate_fire_shrine = false;
    s.show_completion = false;
    s
}

fn name(s: &str) -> ArrayWString<255> {
    let mut units = [0u16; 255];
    for (i, u) in s.encode_utf16().enumerate() {
        units[i] = u;
    }
    ArrayWString::from_units(units)
}

/// Runs one tick as the host does: reads, then decides.
fn tick(
    sp: &mut Splitter,
    settings: &Settings,
    phase: TimerPhase,
    time_positive: bool,
    shrine: Option<u32>,
    event: Option<(u32, &str)>,
    chunk: Option<u32>,
) -> Vec<TimerAction> {
    sp.observe_game_time(time_positive);
    sp.observe_shrine(shrine);
    let size = event.map(|(n, _)| n);
    if sp.observe_event_size(size) {
        let (_, text) = event.unwrap();
        sp.observe_event_name(&name(text));
    }
    let (mut actions, check_chunk) = sp.decide(phase, settings);
    if check_chunk {
        actions.extend(sp.decide_chunk(chunk, settings));
    }
    actions
}

#[test]
fn offsets_are_the_supported_pointer_paths() {
    let o = get_offsets();
    assert_eq!(o.centiseconds, [0, 0x30, 0xE8, 0x258, 0x10B8, 0x260]);
    assert_eq!(o.last_shrine, [0, 0x188, 0x351]);
    assert_eq!(o.cutscene, [0, 0x30, 0xE8, 0x258, 0xe70]);
    assert_eq!(o.events_array, [0, 0x188, 0x308]);
    assert_eq!(o.events_size, [0, 0x188, 0x310]);
}

#[test]
fn default_settings() {
    let s = Settings::default();
    assert!(s.queen_dead);
    assert!(s.show_completion);
    assert!(!s.fire_keep_fire_shrine);
    assert!(!s.void_gate_fire_shrine);
    assert!(!s.fast_travel);
    let on = all_on();
    assert_ne!(s, on);
    assert_eq!(s, Settings { queen_dead: true, show_completion: true, ..none_on() });
}

#[test]
fn split_setting_check_splits_once() {
    let mut states = [0i32; 32];
    assert!(split_setting_check(QUEEN, true, &mut states));
    assert_eq!(states[QUEEN], 1);
    assert!(!split_setting_check(QUEEN, true, &mut states));
    assert_eq!(states[QUEEN], 1);
    assert!(!split_setting_check(SHIELD, false, &mut states));
    assert_eq!(states[SHIELD], 0);
    assert_eq!(states.iter().filter(|&&x| x != 0).count(), 1);
}

#[test]
fn reset_all_clears_and_restarts() {
    let mut states = [1i32; 32];
    let actions = reset_all(&mut states);
    assert_eq!(states, [0i32; 32]);
    assert_eq!(actions, vec![TimerAction::Reset, TimerAction::Start, TimerAction::PauseGameTime]);
}

#[test]
fn shrine_checkpoints() {
    let s = all_on();
    assert_eq!(shrine_split(4, &s), Some((FK_SHRINE, true)));
    assert_eq!(shrine_split(3, &s), Some((AT_SHRINE, true)));
    assert_eq!(shrine_split(0, &s), Some((SHC_SHRINE, true)));
    assert_eq!(shrine_split(1, &s), Some((AP_SHRINE, true)));
    assert_eq!(shrine_split(2, &s), Some((TG_SHRINE, true)));
    assert_eq!(shrine_split(5, &s), Some((FFR_SHRINE, true)));
    assert_eq!(shrine_split(6, &s), Some((SH_SHRINE, true)));
    assert_eq!(shrine_split(8, &s), Some((VG_SHRINE, true)));
    assert_eq!(shrine_split(7, &s), None);
    assert_eq!(shrine_split(9, &s), None);
    assert_eq!(shrine_split(4, &Settings::default()), Some((FK_SHRINE, false)));
}

#[test]
fn chunk_checkpoints() {
    let s = all_on();
    assert_eq!(chunk_split(14, &s), Some((SIRION, true)));
    assert_eq!(chunk_split(2, &s), Some((BEIRA, true)));
    assert_eq!(chunk_split(9, &s), Some((SAMAEL, true)));
    assert_eq!(chunk_split(3, &s), None);
}

#[test]
fn event_checkpoints() {
    let s = all_on();
    let e = |t: &str| event_split(&t.chars().collect::<Vec<char>>(), &s);
    assert_eq!(e("IntroScene"), EventTarget::ResetRun);
    assert_eq!(e("BP_BeiraVesselBase_Graveyard"), EventTarget::Split(AP_SOUL_FRAGMENTS_END, true));
    assert_eq!(e("BP_BeiraVesselBase_TempleGardens"), EventTarget::Split(TG_SOUL_FRAGMENTS_END, true));
    assert_eq!(e("BP_BeiraVesselBase_LakeMolva"), EventTarget::Split(FFR_SOUL_FRAGMENTS_END, true));
    assert_eq!(e("BP_BeiraVesselBase_GameIntro"), EventTarget::Split(FK_SOUL_FRAGMENTS_END, true));
    assert_eq!(e("NuosTempleEndCutscene"), EventTarget::Split(GRUH, true));
    assert_eq!(e("UthasEndCutscene"), EventTarget::Split(CROH, true));
    assert_eq!(e("TeleportTemple"), EventTarget::CheckChunk);
    assert_eq!(e("BossQueen"), EventTarget::Split(QUEEN, true));
    assert_eq!(e("Chest_A01_Keep_Shield"), EventTarget::Split(SHIELD, true));
    assert_eq!(e("IDTutorial_FireBall"), EventTarget::Split(FIREBALL, true));
    assert_eq!(e("IDTutorial_Spin Attack"), EventTarget::Split(SPIN, true));
    assert_eq!(e("IDTutorial_Wall Run"), EventTarget::Split(WALLRUN, true));
    assert_eq!(e("IDTutorial_Double Jump"), EventTarget::Split(DOUBLEJUMP, true));
    assert_eq!(e("IDTutorial_Warp"), EventTarget::Split(FASTTRAVEL, true));
    assert_eq!(e("NONE"), EventTarget::Ignore);
    assert_eq!(e("introscene"), EventTarget::Ignore);
    assert_eq!(event_split(&"BossQueen".chars().collect::<Vec<char>>(), &Settings::default()), EventTarget::Split(QUEEN, true));
    assert_eq!(event_split(&"IDTutorial_Warp".chars().collect::<Vec<char>>(), &Settings::default()), EventTarget::Split(FASTTRAVEL, false));
}

#[test]
fn checkpoint_slots_are_distinct() {
    let slots = [
        SHC_SHRINE, AP_SHRINE, TG_SHRINE, AT_SHRINE, FK_SHRINE, FFR_SHRINE, SH_SHRINE,
        AP_SOUL_FRAGMENTS_END, TG_SOUL_FRAGMENTS_END, FFR_SOUL_FRAGMENTS_END, FK_SOUL_FRAGMENTS_END,
        GRUH, CROH, SIRION, BEIRA, SAMAEL, QUEEN, SHIELD, FIREBALL, SPIN, WALLRUN, DOUBLEJUMP,
        FASTTRAVEL, VG_SHRINE,
    ];
    for (i, a) in slots.iter().enumerate() {
        assert!(*a < SPLIT_SLOTS);
        for b in slots.iter().skip(i + 1) {
            assert_ne!(a, b);
        }
    }
}

#[test]
fn event_entry_address_steps_by_sixteen() {
    assert_eq!(event_entry_address(0x1000, 1), Address64::new(0x1000));
    assert_eq!(event_entry_address(0x1000, 2), Address64::new(0x1010));
    assert_eq!(event_entry_address(0x1000, 5), Address64::new(0x1040));
}

#[test]
fn watcher_reports_changes() {
    let mut w: Watcher<u32> = Watcher::new();
    assert!(w.pair.is_none());
    w.update_infallible(5);
    assert!(!w.pair.as_ref().unwrap().changed());
    w.update_infallible(6);
    let p = w.pair.as_ref().unwrap();
    assert_eq!((p.old, p.current), (5, 6));
    assert!(p.changed());
    w.update_infallible(6);
    assert!(!w.pair.as_ref().unwrap().changed());
}

#[test]
fn name_watcher_settles_after_repeat() {
    let mut w: Watcher<Vec<char>> = Watcher::new();
    w.update_infallible(vec!['a']);
    w.update_infallible(vec!['b']);
    assert!(w.pair.as_ref().unwrap().changed());
    w.update_infallible(vec!['b']);
    assert!(!w.pair.as_ref().unwrap().changed());
    let Pair { old, current } = w.pair.unwrap();
    assert_eq!(old, current);
}

#[test]
fn new_splitter_state() {
    let sp = Splitter::new();
    assert_eq!(sp.split_states, [0i32; 32]);
    assert!(!sp.game_time_started);
    assert!(sp.shrine.pair.is_none());
    let size = sp.event_size.pair.as_ref().unwrap();
    assert_eq!((size.old, size.current), (0, 0));
    let ev = sp.event.pair.as_ref().unwrap();
    assert_eq!(ev.current, vec!['N', 'O', 'N', 'E']);
    assert!(!ev.changed());
}

#[test]
fn intro_scene_starts_a_run_when_timer_is_not_running() {
    let s = Settings::default();
    let mut sp = Splitter::new();
    let a = tick(&mut sp, &s, TimerPhase::NotRunning, false, None, Some((2, "IntroScene")), None);
    assert_eq!(a, vec![TimerAction::Reset, TimerAction::Start, TimerAction::PauseGameTime]);
    // The same event does not start another run while the timer is not running:
    // the watcher still reports the change until the name is read again.
    let b = tick(&mut sp, &s, TimerPhase::NotRunning, false, None, Some((2, "IntroScene")), None);
    assert_eq!(b, vec![TimerAction::Reset, TimerAction::Start, TimerAction::PauseGameTime]);
}

#[test]
fn one_event_count_is_not_enough_to_read_a_name() {
    let s = Settings::default();
    let mut sp = Splitter::new();
    let a = tick(&mut sp, &s, TimerPhase::NotRunning, false, None, Some((1, "IntroScene")), None);
    assert!(a.is_empty());
}

#[test]
fn shrine_splits_once_per_run() {
    let s = all_on();
    let mut sp = Splitter::new();
    assert!(tick(&mut sp, &s, TimerPhase::Running, true, Some(0), None, None).is_empty());
    assert_eq!(
        tick(&mut sp, &s, TimerPhase::Running, true, Some(4), None, None),
        vec![TimerAction::Split(FK_SHRINE)]
    );
    assert!(tick(&mut sp, &s, TimerPhase::Running, true, Some(4), None, None).is_empty());
    assert_eq!(
        tick(&mut sp, &s, TimerPhase::Running, true, Some(0), None, None),
        vec![TimerAction::Split(SHC_SHRINE)]
    );
    assert!(tick(&mut sp, &s, TimerPhase::Running, true, Some(4), None, None).is_empty());
    assert_eq!(sp.split_states[FK_SHRINE], 1);
    assert_eq!(sp.split_states[SHC_SHRINE], 1);
}

#[test]
fn disabled_shrine_does_not_split() {
    let s = Settings::default();
    let mut sp = Splitter::new();
    tick(&mut sp, &s, TimerPhase::Running, true, Some(0), None, None);
    assert!(tick(&mut sp, &s, TimerPhase::Running, true, Some(3), None, None).is_empty());
    assert_eq!(sp.split_states, [0i32; 32]);
}

#[test]
fn event_splits_and_is_acted_on_once() {
    let s = all_on();
    let mut sp = Splitter::new();
    assert_eq!(
        tick(&mut sp, &s, TimerPhase::Running, true, None, Some((5, "BossQueen")), None),
        vec![TimerAction::Split(QUEEN)]
    );
    assert!(!sp.event.pair.as_ref().unwrap().changed());
    assert!(tick(&mut sp, &s, TimerPhase::Running, true, None, Some((5, "BossQueen")), None).is_empty());
    assert!(tick(&mut sp, &s, TimerPhase::Running, true, None, Some((6, "BossQueen")), None).is_empty());
}

#[test]
fn paused_timer_still_splits() {
    let s = all_on();
    let mut sp = Splitter::new();
    assert_eq!(
        tick(&mut sp, &s, TimerPhase::Paused, false, None, Some((3, "IDTutorial_Warp")), None),
        vec![TimerAction::Split(FASTTRAVEL)]
    );
}

#[test]
fn ended_timer_does_nothing() {
    let s = all_on();
    let mut sp = Splitter::new();
    tick(&mut sp, &s, TimerPhase::Ended, true, Some(1), None, None);
    let a = tick(&mut sp, &s, TimerPhase::Ended, true, Some(2), Some((3, "IntroScene")), None);
    assert!(a.is_empty());
    assert_eq!(sp.split_states, [0i32; 32]);
}

#[test]
fn teleport_splits_the_boss_of_the_chunk() {
    let s = all_on();
    let mut sp = Splitter::new();
    assert_eq!(
        tick(&mut sp, &s, TimerPhase::Running, true, None, Some((2, "TeleportTemple")), Some(14)),
        vec![TimerAction::Split(SIRION)]
    );
    assert!(tick(&mut sp, &s, TimerPhase::Running, true, None, Some((3, "Other")), None).is_empty());
    assert_eq!(
        tick(&mut sp, &s, TimerPhase::Running, true, None, Some((4, "TeleportTemple")), Some(9)),
        vec![TimerAction::Split(SAMAEL)]
    );
    assert!(tick(&mut sp, &s, TimerPhase::Running, true, None, Some((5, "Other")), None).is_empty());
    assert!(tick(&mut sp, &s, TimerPhase::Running, true, None, Some((6, "TeleportTemple")), Some(7)).is_empty());
    assert!(tick(&mut sp, &s, TimerPhase::Running, true, None, Some((7, "Other")), None).is_empty());
    assert!(tick(&mut sp, &s, TimerPhase::Running, true, None, Some((8, "TeleportTemple")), None).is_empty());
}

#[test]
fn intro_scene_while_running_resets_only_after_time_ran() {
    let s = all_on();
    let mut sp = Splitter::new();
    assert_eq!(
        tick(&mut sp, &s, TimerPhase::Running, false, Some(0), None, None),
        Vec::<TimerAction>::new()
    );
    assert_eq!(
        tick(&mut sp, &s, TimerPhase::Running, false, Some(1), Some((2, "IntroScene")), None),
        vec![TimerAction::Split(AP_SHRINE)]
    );
    assert_eq!(sp.split_states[AP_SHRINE], 1);
    tick(&mut sp, &s, TimerPhase::Running, true, None, Some((3, "Other")), None);
    assert_eq!(
        tick(&mut sp, &s, TimerPhase::Running, false, None, Some((4, "IntroScene")), None),
        vec![TimerAction::Reset, TimerAction::Start, TimerAction::PauseGameTime]
    );
    assert_eq!(sp.split_states, [0i32; 32]);
}

#[test]
fn shrine_and_event_split_in_one_tick() {
    let s = all_on();
    let mut sp = Splitter::new();
    tick(&mut sp, &s, TimerPhase::Running, true, Some(0), None, None);
    assert_eq!(
        tick(&mut sp, &s, TimerPhase::Running, true, Some(5), Some((2, "UthasEndCutscene")), None),
        vec![TimerAction::Split(FFR_SHRINE), TimerAction::Split(CROH)]
    );
}

#[test]
fn failed_reads_change_nothing() {
    let s = all_on();
    let mut sp = Splitter::new();
    tick(&mut sp, &s, TimerPhase::Running, true, Some(0), None, None);
    tick(&mut sp, &s, TimerPhase::Running, true, Some(0), None, None);
    assert!(tick(&mut sp, &s, TimerPhase::Running, false, None, None, None).is_empty());
    assert!(sp.game_time_started);
    assert_eq!(sp.split_states, [0i32; 32]);
}

#[test]
fn every_checkpoint_splits_at_most_once_until_reset() {
    let s = all_on();
    let mut sp = Splitter::new();
    let mut splits = Vec::new();
    let shrines = [0u32, 1, 2, 3, 4, 5, 6, 8, 1, 0, 8, 4];
    for (i, sh) in shrines.iter().enumerate() {
        let ev = if i % 2 == 0 { "BossQueen" } else { "IDTutorial_FireBall" };
        let acts = tick(&mut sp, &s, TimerPhase::Running, true, Some(*sh), Some((i as u32 + 2, ev)), None);
        splits.extend(acts);
    }
    let mut seen = std::collections::HashSet::new();
    for a in &splits {
        match a {
            TimerAction::Split(slot) => assert!(seen.insert(*slot)),
            _ => panic!("no reset expected"),
        }
    }
    assert_eq!(seen.len(), 10);
}

#[test]
fn a_sequence_of_checks_splits_each_checkpoint_once() {
    let mut states = [0i32; 32];
    let calls = [(QUEEN, true), (SHIELD, false), (QUEEN, true), (SHIELD, true), (SHIELD, true), (QUEEN, false)];
    let mut splits = Vec::new();
    for (index, setting) in calls {
        if split_setting_check(index, setting, &mut states) {
            splits.push(index);
        }
    }
    assert_eq!(splits, vec![QUEEN, SHIELD]);
}
