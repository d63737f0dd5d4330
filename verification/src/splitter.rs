use vstd::prelude::*;
use crate::jujstme_string::{Address64, ArrayWString};
use crate::splits::{
    chunk_split, chunk_target, event_split, event_target, intro_scene, lemma_chunk_targets,
    lemma_event_targets, lemma_shrine_targets, shrine_split, shrine_target, slot_enabled,
    EventTarget, SPLIT_SLOTS,
};
use crate::splitter_settings::Settings;
use crate::utf16::{decode_utf16_lossy, utf16_decode_lossy};
use crate::watcher::{copy_chars, updated_pair, Pair, Watcher};

verus! {

/// The state of the timer, as the timer reports it.
#[derive(Clone, Copy, Debug, PartialEq, Eq, Structural)]
pub enum TimerPhase {
    NotRunning,
    Running,
    Paused,
    Ended,
}

/// A command for the timer.
#[derive(Clone, Copy, Debug, PartialEq, Eq, Structural)]
pub enum TimerAction {
    /// Split; the checkpoint that was reached rides along.
    Split(usize),
    /// Reset the run.
    Reset,
    /// Start a new run.
    Start,
    /// Stop the game time from running on its own.
    PauseGameTime,
}

/// The checkpoints after `slot` was checked: marked reached, with a split,
/// where the runner asked for it and it was not reached yet.
pub open spec fn check_slot(states: Seq<i32>, slot: int, setting: bool) -> (Seq<i32>, Seq<
    TimerAction,
>) {
    if setting && states[slot] == 0 {
        (states.update(slot, 1), seq![TimerAction::Split(slot as usize)])
    } else {
        (states, Seq::empty())
    }
}

/// No checkpoint reached.
pub open spec fn cleared_slots() -> Seq<i32> {
    Seq::new(SPLIT_SLOTS as nat, |i: int| 0i32)
}

/// The commands that begin a new run.
pub open spec fn reset_actions() -> Seq<TimerAction> {
    seq![TimerAction::Reset, TimerAction::Start, TimerAction::PauseGameTime]
}

/// Splits on checkpoint `index` if the runner asked for it (`setting`) and it
/// was not reached before in this run; marks it reached then. Returns whether
/// to split.
pub fn split_setting_check(index: usize, setting: bool, split_states: &mut [i32; 32]) -> (split:
    bool)
    requires
        index < SPLIT_SLOTS,
    ensures
        split == (setting && old(split_states)@[index as int] == 0),
        (final(split_states)@, if split {
            seq![TimerAction::Split(index)]
        } else {
            Seq::<TimerAction>::empty()
        }) == check_slot(old(split_states)@, index as int, setting),
{
    if setting && split_states[index] == 0 {
        split_states[index] = 1;
        true
    } else {
        false
    }
}

/// Checking a checkpoint right after it was checked never splits again,
/// whatever the setting: a checkpoint splits at most once until the run is
/// reset.
pub proof fn lemma_check_twice_splits_once(states: Seq<i32>, slot: int, first: bool, second: bool)
    requires
        0 <= slot < states.len(),
        check_slot(states, slot, first).1.len() > 0,
    ensures
        check_slot(check_slot(states, slot, first).0, slot, second).1.len() == 0,
        check_slot(check_slot(states, slot, first).0, slot, second).0 == check_slot(
            states,
            slot,
            first,
        ).0,
{
}

/// A chain of checkpoint checks with no reset between them: `states[j + 1]`
/// is what checking slot `slots[j]` with setting `flags[j]` makes of
/// `states[j]`, as a call of [`split_setting_check`] does.
pub open spec fn check_chain(states: Seq<Seq<i32>>, slots: Seq<int>, flags: Seq<bool>) -> bool {
    &&& states.len() == slots.len() + 1
    &&& flags.len() == slots.len()
    &&& states[0].len() == SPLIT_SLOTS
    &&& forall|j: int| 0 <= j < slots.len() ==> 0 <= #[trigger] slots[j] < SPLIT_SLOTS
    &&& forall|j: int|
        0 <= j < slots.len() ==> states[j + 1] == check_slot(
            #[trigger] states[j],
            slots[j],
            flags[j],
        ).0
}

proof fn lemma_check_chain_keeps_reached(
    states: Seq<Seq<i32>>,
    slots: Seq<int>,
    flags: Seq<bool>,
    slot: int,
    from: int,
    to: int,
)
    requires
        check_chain(states, slots, flags),
        0 <= slot < SPLIT_SLOTS,
        0 <= from <= to < states.len(),
        states[from].len() == SPLIT_SLOTS,
        states[from][slot] != 0,
    ensures
        states[to].len() == SPLIT_SLOTS,
        states[to][slot] != 0,
    decreases to - from,
{
    if from < to {
        let j = from;
        assert(states[j + 1] == check_slot(states[j], slots[j], flags[j]).0);
        lemma_check_chain_keeps_reached(states, slots, flags, slot, from + 1, to);
    }
}

proof fn lemma_check_chain_lengths(states: Seq<Seq<i32>>, slots: Seq<int>, flags: Seq<bool>, to: int)
    requires
        check_chain(states, slots, flags),
        0 <= to < states.len(),
    ensures
        states[to].len() == SPLIT_SLOTS,
    decreases to,
{
    if to > 0 {
        lemma_check_chain_lengths(states, slots, flags, to - 1);
        assert(states[to] == check_slot(states[to - 1], slots[to - 1], flags[to - 1]).0);
    }
}

/// In any sequence of checkpoint checks with no reset between them, two
/// checks of the same checkpoint never both split: each checkpoint splits at
/// most once until the run is reset.
pub proof fn lemma_check_chain_splits_once(
    states: Seq<Seq<i32>>,
    slots: Seq<int>,
    flags: Seq<bool>,
    j1: int,
    j2: int,
)
    requires
        check_chain(states, slots, flags),
        0 <= j1 < j2 < slots.len(),
        slots[j1] == slots[j2],
    ensures
        !(check_slot(states[j1], slots[j1], flags[j1]).1.len() > 0 && check_slot(
            states[j2],
            slots[j2],
            flags[j2],
        ).1.len() > 0),
{
    let slot = slots[j1];
    assert(0 <= slot < SPLIT_SLOTS);
    lemma_check_chain_lengths(states, slots, flags, j1);
    if check_slot(states[j1], slot, flags[j1]).1.len() > 0 {
        assert(states[j1 + 1] == check_slot(states[j1], slots[j1], flags[j1]).0);
        assert(states[j1 + 1][slot] == 1);
        lemma_check_chain_keeps_reached(states, slots, flags, slot, j1 + 1, j2);
    }
}

/// Forgets every reached checkpoint and gives the commands that begin a new
/// run: reset, start, and pause the game time.
pub fn reset_all(split_states: &mut [i32; 32]) -> (actions: Vec<TimerAction>)
    ensures
        final(split_states)@ == cleared_slots(),
        actions@ == reset_actions(),
        forall|i: int| 0 <= i < SPLIT_SLOTS ==> final(split_states)@[i] == 0,
        actions@ == seq![TimerAction::Reset, TimerAction::Start, TimerAction::PauseGameTime],
{
    let mut i: usize = 0;
    while i < SPLIT_SLOTS
        invariant
            i <= SPLIT_SLOTS,
            split_states@.len() == SPLIT_SLOTS,
            forall|j: int| 0 <= j < i ==> split_states@[j] == 0,
        decreases SPLIT_SLOTS - i,
    {
        split_states[i] = 0;
        i = i + 1;
    }
    assert(split_states@ =~= cleared_slots());
    let mut actions: Vec<TimerAction> = Vec::new();
    actions.push(TimerAction::Reset);
    actions.push(TimerAction::Start);
    actions.push(TimerAction::PauseGameTime);
    assert(actions@ =~= reset_actions());
    actions
}

/// Where the entry of the latest of `size` game events lies, in the event
/// array at `events_base`: entries are 0x10 bytes apart.
pub fn event_entry_address(events_base: u32, size: u32) -> (a: Address64)
    requires
        size >= 1,
        events_base + (size - 1) * 0x10 <= u32::MAX,
    ensures
        a.0 == events_base + (size - 1) * 0x10,
{
    let offset = (size - 1) * 0x10;
    Address64::new((events_base + offset) as u64)
}

/// The abstract state of the splitter.
pub struct SplitterModel {
    /// For each checkpoint, 1 when it was reached in this run, else 0.
    pub split_states: Seq<i32>,
    /// Whether the game timer was ever seen above zero.
    pub game_time_started: bool,
    /// The last two fire shrine ids read.
    pub shrine: Option<Pair<u32>>,
    /// The last two counts of game events read.
    pub event_size: Option<Pair<u32>>,
    /// The last two names of the latest game event.
    pub event: Option<Pair<Seq<char>>>,
}

/// The name the event watcher starts with.
pub open spec fn no_event_name() -> Seq<char> {
    seq!['N', 'O', 'N', 'E']
}

/// The splitter's state when the game was just found.
pub open spec fn initial_model() -> SplitterModel {
    SplitterModel {
        split_states: cleared_slots(),
        game_time_started: false,
        shrine: None,
        event_size: Some(Pair { old: 0, current: 0 }),
        event: Some(Pair { old: no_event_name(), current: no_event_name() }),
    }
}

impl SplitterModel {
    /// After the game timer was read: `positive` is whether the read
    /// succeeded with a value above zero.
    pub open spec fn after_game_time(self, positive: bool) -> Self {
        SplitterModel { game_time_started: self.game_time_started || positive, ..self }
    }

    /// After the last lit shrine was read (`None`: the read failed).
    pub open spec fn after_shrine(self, shrine: Option<u32>) -> Self {
        match shrine {
            Some(v) => SplitterModel { shrine: Some(updated_pair(self.shrine, v)), ..self },
            None => self,
        }
    }

    /// After the count of game events was read (`None`: the read failed),
    /// with whether the latest event's name must be read: the count changed
    /// and is above one.
    pub open spec fn after_event_size(self, size: Option<u32>) -> (Self, bool) {
        match size {
            Some(v) => {
                let p = updated_pair(self.event_size, v);
                (SplitterModel { event_size: Some(p), ..self }, p.has_changed() && v > 1)
            },
            None => (self, false),
        }
    }

    /// After the latest event's name was read as `units`.
    pub open spec fn after_event_name(self, units: Seq<u16>) -> Self {
        SplitterModel {
            event: Some(updated_pair(self.event, utf16_decode_lossy(units))),
            ..self
        }
    }

    /// The checkpoints and commands after a newly lit shrine was looked at.
    pub open spec fn shrine_decision(self, settings: Settings) -> (Seq<i32>, Seq<TimerAction>) {
        match self.shrine {
            Some(p) => {
                if p.has_changed() {
                    match shrine_target(p.current, settings) {
                        Some((slot, on)) => check_slot(self.split_states, slot as int, on),
                        None => (self.split_states, Seq::empty()),
                    }
                } else {
                    (self.split_states, Seq::empty())
                }
            },
            None => (self.split_states, Seq::empty()),
        }
    }

    /// What a changed event named `name` leads to, after the shrine was
    /// looked at (`m1`, `a1`).
    pub open spec fn event_decision(
        self,
        m1: SplitterModel,
        a1: Seq<TimerAction>,
        name: Seq<char>,
        settings: Settings,
    ) -> (SplitterModel, Seq<TimerAction>, bool) {
        let m2 = SplitterModel { event: Some(Pair { old: name, current: name }), ..m1 };
        match event_target(name, settings) {
            EventTarget::ResetRun => {
                if self.game_time_started {
                    let m3 = SplitterModel { split_states: cleared_slots(), ..m2 };
                    (m3, a1 + reset_actions(), false)
                } else {
                    (m2, a1, false)
                }
            },
            EventTarget::Split(slot, on) => {
                let (s2, a2) = check_slot(m1.split_states, slot as int, on);
                (SplitterModel { split_states: s2, ..m2 }, a1 + a2, false)
            },
            EventTarget::CheckChunk => (m2, a1, true),
            EventTarget::Ignore => (m2, a1, false),
        }
    }

    /// The decision of one tick: the new state, the commands for the timer,
    /// and whether the streamed chunk must be read to name a dead boss.
    pub open spec fn decided(self, phase: TimerPhase, settings: Settings) -> (
        SplitterModel,
        Seq<TimerAction>,
        bool,
    ) {
        match phase {
            TimerPhase::NotRunning => {
                match self.event {
                    Some(p) => {
                        if p.has_changed() && p.current == intro_scene() {
                            (
                                SplitterModel { split_states: cleared_slots(), ..self },
                                reset_actions(),
                                false,
                            )
                        } else {
                            (self, Seq::empty(), false)
                        }
                    },
                    None => (self, Seq::empty(), false),
                }
            },
            TimerPhase::Running | TimerPhase::Paused => {
                let (s1, a1) = self.shrine_decision(settings);
                let m1 = SplitterModel { split_states: s1, ..self };
                match self.event {
                    Some(p) => {
                        if p.has_changed() {
                            self.event_decision(m1, a1, p.current, settings)
                        } else {
                            (m1, a1, false)
                        }
                    },
                    None => (m1, a1, false),
                }
            },
            TimerPhase::Ended => (self, Seq::empty(), false),
        }
    }

    /// The decision after the streamed chunk was read (`None`: the read
    /// failed) on a teleport out of the temple.
    pub open spec fn decided_chunk(self, chunk: Option<u32>, settings: Settings) -> (
        SplitterModel,
        Seq<TimerAction>,
    ) {
        match chunk {
            Some(c) => match chunk_target(c, settings) {
                Some((slot, on)) => {
                    let (s, a) = check_slot(self.split_states, slot as int, on);
                    (SplitterModel { split_states: s, ..self }, a)
                },
                None => (self, Seq::empty()),
            },
            None => (self, Seq::empty()),
        }
    }
}

/// The splitter: which checkpoints this run reached, and the watchers of the
/// game's values that decide the splits.
pub struct Splitter {
    pub split_states: [i32; 32],
    pub game_time_started: bool,
    pub shrine: Watcher<u32>,
    pub event_size: Watcher<u32>,
    pub event: Watcher<Vec<char>>,
}

impl View for Splitter {
    type V = SplitterModel;

    open spec fn view(&self) -> SplitterModel {
        SplitterModel {
            split_states: self.split_states@,
            game_time_started: self.game_time_started,
            shrine: self.shrine.pair,
            event_size: self.event_size.pair,
            event: self.event.names(),
        }
    }
}

impl Splitter {
    /// The splitter for a game that was just found.
    pub fn new() -> (s: Self)
        ensures
            s@ == initial_model(),
            forall|i: int| 0 <= i < SPLIT_SLOTS ==> s.split_states@[i] == 0,
            !s.game_time_started,
            s.shrine.pair is None,
            s.event_size.pair == Some(Pair { old: 0u32, current: 0u32 }),
            s.event.names() == Some(
                Pair { old: seq!['N', 'O', 'N', 'E'], current: seq!['N', 'O', 'N', 'E'] },
            ),
    {
        let mut event_size: Watcher<u32> = Watcher::new();
        event_size.update_infallible(0u32);
        let mut event: Watcher<Vec<char>> = Watcher::new();
        event.update_infallible(vec!['N', 'O', 'N', 'E']);
        let s = Splitter {
            split_states: [0i32; 32],
            game_time_started: false,
            shrine: Watcher::new(),
            event_size,
            event,
        };
        assert(s.split_states@ =~= cleared_slots());
        s
    }

    /// Takes in the game timer: `positive` is whether it was read and is above
    /// zero.
    pub fn observe_game_time(&mut self, positive: bool)
        ensures
            final(self)@ == old(self)@.after_game_time(positive),
    {
        if positive {
            self.game_time_started = true;
        }
    }

    /// Takes in the id of the last lit fire shrine (`None`: the read failed).
    pub fn observe_shrine(&mut self, shrine: Option<u32>)
        ensures
            final(self)@ == old(self)@.after_shrine(shrine),
    {
        if let Some(v) = shrine {
            self.shrine.update_infallible(v);
        }
    }

    /// Takes in the count of game events (`None`: the read failed); returns
    /// whether the latest event's name must be read.
    pub fn observe_event_size(&mut self, size: Option<u32>) -> (fetch: bool)
        ensures
            (final(self)@, fetch) == old(self)@.after_event_size(size),
    {
        match size {
            Some(v) => {
                self.event_size.update_infallible(v);
                match &self.event_size.pair {
                    Some(p) => p.changed() && v > 1,
                    None => false,
                }
            },
            None => false,
        }
    }

    /// Takes in the latest event's name as it lies in the game's memory; it is
    /// decoded from UTF-16, unpaired surrogates becoming U+FFFD.
    pub fn observe_event_name<const N: usize>(&mut self, name: &ArrayWString<N>)
        ensures
            final(self)@ == old(self)@.after_event_name(name.text()),
    {
        let units = name.as_units();
        let chars = decode_utf16_lossy(units.as_slice());
        self.event.update_infallible(chars);
    }

    /// Decides one tick, given the timer's state and the runner's settings:
    /// returns the commands for the timer, and whether the streamed chunk
    /// must be read (then [`Splitter::decide_chunk`] finishes the tick).
    pub fn decide(&mut self, phase: TimerPhase, settings: &Settings) -> (r: (
        Vec<TimerAction>,
        bool,
    ))
        ensures
            (final(self)@, r.0@, r.1) == old(self)@.decided(phase, *settings),
    {
        let mut actions: Vec<TimerAction> = Vec::new();
        match phase {
            TimerPhase::NotRunning => {
                let start_over = match &self.event.pair {
                    Some(p) => p.changed() && event_split(p.current.as_slice(), settings)
                        == EventTarget::ResetRun,
                    None => false,
                };
                if start_over {
                    actions = reset_all(&mut self.split_states);
                }
                (actions, false)
            },
            TimerPhase::Running | TimerPhase::Paused => {
                let shrine_now = match &self.shrine.pair {
                    Some(p) => if p.changed() {
                        Some(p.current)
                    } else {
                        None
                    },
                    None => None,
                };
                if let Some(v) = shrine_now {
                    if let Some((slot, on)) = shrine_split(v, settings) {
                        if split_setting_check(slot, on, &mut self.split_states) {
                            actions.push(TimerAction::Split(slot));
                        }
                    }
                }
                let event_now = match &self.event.pair {
                    Some(p) => if p.changed() {
                        Some(copy_chars(&p.current))
                    } else {
                        None
                    },
                    None => None,
                };
                let mut check_chunk = false;
                if let Some(name) = event_now {
                    self.event.update_infallible(copy_chars(&name));
                    match event_split(name.as_slice(), settings) {
                        EventTarget::ResetRun => {
                            if self.game_time_started {
                                let mut more = reset_all(&mut self.split_states);
                                actions.append(&mut more);
                            }
                        },
                        EventTarget::Split(slot, on) => {
                            if split_setting_check(slot, on, &mut self.split_states) {
                                actions.push(TimerAction::Split(slot));
                            }
                        },
                        EventTarget::CheckChunk => {
                            check_chunk = true;
                        },
                        EventTarget::Ignore => {},
                    }
                }
                (actions, check_chunk)
            },
            TimerPhase::Ended => (actions, false),
        }
    }

    /// Finishes a tick whose event was a teleport out of the temple, given
    /// the streamed chunk (`None`: the read failed).
    pub fn decide_chunk(&mut self, chunk: Option<u32>, settings: &Settings) -> (actions: Vec<
        TimerAction,
    >)
        ensures
            (final(self)@, actions@) == old(self)@.decided_chunk(chunk, *settings),
    {
        let mut actions: Vec<TimerAction> = Vec::new();
        if let Some(c) = chunk {
            if let Some((slot, on)) = chunk_split(c, settings) {
                if split_setting_check(slot, on, &mut self.split_states) {
                    actions.push(TimerAction::Split(slot));
                }
            }
        }
        actions
    }
}

/// The checkpoint a split command names.
pub open spec fn split_slot(a: TimerAction) -> int {
    a->Split_0 as int
}

/// Whether the commands reset the run.
pub open spec fn resets(actions: Seq<TimerAction>) -> bool {
    actions.contains(TimerAction::Reset)
}

/// What every decision of the splitter keeps: each split it asks for is of a
/// checkpoint the runner chose and this run had not reached, no checkpoint is
/// split twice, reached checkpoints stay reached and a checkpoint becomes
/// reached only with a split for it, unless the run is reset, which forgets
/// every checkpoint.
pub open spec fn sound_decision(
    before: Seq<i32>,
    after: Seq<i32>,
    actions: Seq<TimerAction>,
    settings: Settings,
) -> bool {
    &&& before.len() == SPLIT_SLOTS
    &&& after.len() == SPLIT_SLOTS
    &&& forall|k: int|
        0 <= k < actions.len() && (#[trigger] actions[k]) is Split ==> {
            let slot = split_slot(actions[k]);
            &&& 0 <= slot < SPLIT_SLOTS
            &&& before[slot] == 0
            &&& slot_enabled(settings, slot)
        }
    &&& forall|k1: int, k2: int|
        0 <= k1 < k2 < actions.len() && (#[trigger] actions[k1]) is Split && (
        #[trigger] actions[k2]) is Split ==> split_slot(actions[k1]) != split_slot(actions[k2])
    &&& !resets(actions) ==> forall|i: int|
        0 <= i < SPLIT_SLOTS ==> {
            &&& (before[i] != 0 ==> #[trigger] after[i] == before[i])
            &&& (after[i] != before[i] ==> after[i] == 1 && actions.contains(
                TimerAction::Split(i as usize),
            ))
        }
    &&& !resets(actions) ==> forall|k: int|
        0 <= k < actions.len() && (#[trigger] actions[k]) is Split ==> after[split_slot(actions[k])] == 1
    &&& resets(actions) ==> after == cleared_slots()
}

proof fn lemma_check_slot(states: Seq<i32>, slot: int, setting: bool, settings: Settings)
    requires
        states.len() == SPLIT_SLOTS,
        0 <= slot < SPLIT_SLOTS,
        setting == slot_enabled(settings, slot),
    ensures
        ({
            let (after, actions) = check_slot(states, slot, setting);
            &&& sound_decision(states, after, actions, settings)
            &&& actions.len() <= 1
            &&& actions.len() == 1 ==> after[slot] == 1
            &&& forall|k: int|
                0 <= k < actions.len() ==> #[trigger] actions[k] == TimerAction::Split(slot as usize)
            &&& forall|i: int| 0 <= i < SPLIT_SLOTS && i != slot ==> #[trigger] after[i] == states[i]
        }),
{
    let (after, actions) = check_slot(states, slot, setting);
    if setting && states[slot] == 0 {
        assert(actions[0] == TimerAction::Split(slot as usize));
        assert(actions.contains(TimerAction::Split(slot as usize)));
        assert(!actions.contains(TimerAction::Reset)) by {
            if actions.contains(TimerAction::Reset) {
                let k = choose|k: int| 0 <= k < actions.len() && actions[k] == TimerAction::Reset;
                assert(k == 0);
            }
        }
    } else {
        assert(actions =~= Seq::<TimerAction>::empty());
    }
}

proof fn lemma_reset_is_sound(before: Seq<i32>, settings: Settings)
    requires
        before.len() == SPLIT_SLOTS,
    ensures
        sound_decision(before, cleared_slots(), reset_actions(), settings),
{
    let acts = reset_actions();
    assert(acts[0] == TimerAction::Reset);
    assert(acts.contains(TimerAction::Reset));
}

proof fn lemma_quiet_is_sound(states: Seq<i32>, settings: Settings)
    requires
        states.len() == SPLIT_SLOTS,
    ensures
        sound_decision(states, states, Seq::empty(), settings),
{
    let acts = Seq::<TimerAction>::empty();
    assert(!acts.contains(TimerAction::Reset));
}

/// Each decision of a tick is sound: see [`sound_decision`].
pub proof fn lemma_decided_is_sound(m: SplitterModel, phase: TimerPhase, settings: Settings)
    requires
        m.split_states.len() == SPLIT_SLOTS,
    ensures
        sound_decision(
            m.split_states,
            m.decided(phase, settings).0.split_states,
            m.decided(phase, settings).1,
            settings,
        ),
{
    let (m2, acts, _) = m.decided(phase, settings);
    match phase {
        TimerPhase::NotRunning => {
            if acts.len() == 0 {
                lemma_quiet_is_sound(m.split_states, settings);
            } else {
                lemma_reset_is_sound(m.split_states, settings);
            }
        },
        TimerPhase::Ended => {
            lemma_quiet_is_sound(m.split_states, settings);
        },
        _ => {
            let (s1, a1) = m.shrine_decision(settings);
            lemma_quiet_is_sound(m.split_states, settings);
            match m.shrine {
                Some(p) => {
                    lemma_shrine_targets(p.current, p.current, settings);
                    if p.has_changed() {
                        if let Some((slot, on)) = shrine_target(p.current, settings) {
                            lemma_check_slot(m.split_states, slot as int, on, settings);
                        }
                    }
                },
                None => {},
            }
            assert(sound_decision(m.split_states, s1, a1, settings));
            assert(a1.len() <= 1);
            assert(forall|k: int|
                0 <= k < a1.len() && (#[trigger] a1[k]) is Split ==> s1[split_slot(a1[k])] == 1);
            match m.event {
                Some(p) => {
                    if p.has_changed() {
                        lemma_event_targets(p.current, p.current, settings);
                        match event_target(p.current, settings) {
                            EventTarget::ResetRun => {
                                if m.game_time_started {
                                    lemma_sound_then_reset(m.split_states, s1, a1, settings);
                                }
                            },
                            EventTarget::Split(slot, on) => {
                                lemma_check_slot(s1, slot as int, on, settings);
                                let (s2, a2) = check_slot(s1, slot as int, on);
                                lemma_sound_chain(m.split_states, s1, a1, s2, a2, settings);
                            },
                            _ => {},
                        }
                    }
                },
                None => {},
            }
        },
    }
}

proof fn lemma_sound_then_reset(
    before: Seq<i32>,
    mid: Seq<i32>,
    a1: Seq<TimerAction>,
    settings: Settings,
)
    requires
        before.len() == SPLIT_SLOTS,
        sound_decision(before, mid, a1, settings),
        a1.len() <= 1,
    ensures
        sound_decision(before, cleared_slots(), a1 + reset_actions(), settings),
{
    let acts = a1 + reset_actions();
    assert(acts[a1.len() as int] == TimerAction::Reset);
    assert(acts.contains(TimerAction::Reset));
    assert forall|k: int| 0 <= k < acts.len() && (#[trigger] acts[k]) is Split implies {
        let slot = acts[k]->Split_0 as int;
        &&& 0 <= slot < SPLIT_SLOTS
        &&& before[slot] == 0
        &&& slot_enabled(settings, slot)
    } by {
        assert(k < a1.len());
        assert(acts[k] == a1[k]);
    }
    assert forall|k1: int, k2: int|
        0 <= k1 < k2 < acts.len() && (#[trigger] acts[k1]) is Split && (
        #[trigger] acts[k2]) is Split implies acts[k1]->Split_0 != acts[k2]->Split_0 by {
        assert(k2 < a1.len());
    }
}

proof fn lemma_sound_chain(
    before: Seq<i32>,
    mid: Seq<i32>,
    a1: Seq<TimerAction>,
    after: Seq<i32>,
    a2: Seq<TimerAction>,
    settings: Settings,
)
    requires
        sound_decision(before, mid, a1, settings),
        sound_decision(mid, after, a2, settings),
        !a1.contains(TimerAction::Reset),
        !a2.contains(TimerAction::Reset),
        a2.len() <= 1,
        a2.len() == 1 ==> a2[0] is Split && after[a2[0]->Split_0 as int] == 1,
        forall|k: int|
            0 <= k < a1.len() && (#[trigger] a1[k]) is Split ==> mid[split_slot(a1[k])] == 1,
    ensures
        sound_decision(before, after, a1 + a2, settings),
{
    let acts = a1 + a2;
    assert(!acts.contains(TimerAction::Reset)) by {
        if acts.contains(TimerAction::Reset) {
            let k = choose|k: int| 0 <= k < acts.len() && acts[k] == TimerAction::Reset;
            if k < a1.len() {
                assert(a1[k] == TimerAction::Reset);
            } else {
                assert(a2[k - a1.len()] == TimerAction::Reset);
            }
        }
    }
    assert forall|k: int| 0 <= k < acts.len() && (#[trigger] acts[k]) is Split implies {
        let slot = acts[k]->Split_0 as int;
        &&& 0 <= slot < SPLIT_SLOTS
        &&& before[slot] == 0
        &&& slot_enabled(settings, slot)
    } by {
        if k < a1.len() {
            assert(acts[k] == a1[k]);
        } else {
            let j = k - a1.len();
            assert(acts[k] == a2[j]);
            let slot = a2[j]->Split_0 as int;
            assert(mid[slot] == 0);
            if before[slot] != 0 {
                assert(mid[slot] == before[slot]);
            }
        }
    }
    assert forall|k1: int, k2: int|
        0 <= k1 < k2 < acts.len() && (#[trigger] acts[k1]) is Split && (
        #[trigger] acts[k2]) is Split implies acts[k1]->Split_0 != acts[k2]->Split_0 by {
        if k2 < a1.len() {
            assert(acts[k1] == a1[k1] && acts[k2] == a1[k2]);
        } else if k1 < a1.len() {
            let s1 = a1[k1]->Split_0 as int;
            let j = k2 - a1.len();
            let s2 = a2[j]->Split_0 as int;
            assert(acts[k1] == a1[k1]);
            assert(acts[k2] == a2[j]);
            assert(a1.contains(TimerAction::Split(s1 as usize))) by {
                assert(a1[k1] == TimerAction::Split(s1 as usize));
            }
            assert(mid[s1] == 1);
            assert(mid[s2] == 0);
        } else {
            assert(k1 >= a1.len() && k2 >= a1.len());
        }
    }
    assert forall|k: int| 0 <= k < acts.len() && (#[trigger] acts[k]) is Split implies after[split_slot(
        acts[k],
    )] == 1 by {
        if k < a1.len() {
            assert(acts[k] == a1[k]);
            let slot = a1[k]->Split_0 as int;
            assert(mid[slot] == 1);
            assert(mid[slot] != 0 ==> after[slot] == mid[slot]);
        } else {
            assert(acts[k] == a2[k - a1.len()]);
        }
    }
    assert forall|i: int| 0 <= i < SPLIT_SLOTS implies {
        &&& (before[i] != 0 ==> #[trigger] after[i] == before[i])
        &&& (after[i] != before[i] ==> after[i] == 1 && acts.contains(
            TimerAction::Split(i as usize),
        ))
    } by {
        if after[i] != before[i] {
            if mid[i] != before[i] {
                let k = choose|k: int| 0 <= k < a1.len() && a1[k] == TimerAction::Split(i as usize);
                assert(acts[k] == a1[k]);
                assert(after[i] == mid[i]);
            } else {
                let k = choose|k: int| 0 <= k < a2.len() && a2[k] == TimerAction::Split(i as usize);
                assert(acts[a1.len() + k] == a2[k]);
            }
        }
    }
}

/// Each decision on a streamed chunk is sound: see [`sound_decision`].
pub proof fn lemma_decided_chunk_is_sound(m: SplitterModel, chunk: Option<u32>, settings: Settings)
    requires
        m.split_states.len() == SPLIT_SLOTS,
    ensures
        sound_decision(
            m.split_states,
            m.decided_chunk(chunk, settings).0.split_states,
            m.decided_chunk(chunk, settings).1,
            settings,
        ),
{
    lemma_quiet_is_sound(m.split_states, settings);
    if let Some(c) = chunk {
        lemma_chunk_targets(c, c, settings);
        if let Some((slot, on)) = chunk_target(c, settings) {
            lemma_check_slot(m.split_states, slot as int, on, settings);
        }
    }
}

/// A tick in which the event watcher reported a change acts on that event
/// once: afterwards the watcher reports no change, so the next tick does not
/// act on the same event again.
pub proof fn lemma_event_acted_on_once(m: SplitterModel, phase: TimerPhase, settings: Settings)
    requires
        phase == TimerPhase::Running || phase == TimerPhase::Paused,
    ensures
        m.decided(phase, settings).0.event matches Some(p) ==> !p.has_changed(),
{
}

/// A tick resets the run only when the latest event changed to the start of
/// a new game, and then only while the timer is not running, or while it
/// runs (or is paused) after the game timer was seen above zero; once the
/// timer ended, a tick does nothing at all.
pub proof fn lemma_reset_only_on_new_game(m: SplitterModel, phase: TimerPhase, settings: Settings)
    requires
        m.split_states.len() == SPLIT_SLOTS,
    ensures
        m.decided(phase, settings).1.contains(TimerAction::Reset) ==> {
            &&& m.event matches Some(p) && p.has_changed() && p.current == intro_scene()
            &&& (phase == TimerPhase::NotRunning || m.game_time_started)
        },
        phase == TimerPhase::NotRunning ==> (m.decided(phase, settings).1.contains(
            TimerAction::Reset,
        ) <==> (m.event matches Some(p) && p.has_changed() && p.current == intro_scene())),
        phase == TimerPhase::Ended ==> m.decided(phase, settings) == (
            m,
            Seq::<TimerAction>::empty(),
            false,
        ),
{
    let (m2, acts, _) = m.decided(phase, settings);
    match phase {
        TimerPhase::NotRunning => {
            if acts.len() > 0 {
                assert(acts[0] == TimerAction::Reset);
            }
        },
        TimerPhase::Ended => {},
        _ => {
            let (s1, a1) = m.shrine_decision(settings);
            assert(!a1.contains(TimerAction::Reset)) by {
                if a1.contains(TimerAction::Reset) {
                    let k = choose|k: int| 0 <= k < a1.len() && a1[k] == TimerAction::Reset;
                    if let Some(p) = m.shrine {
                        if let Some((slot, on)) = shrine_target(p.current, settings) {
                            lemma_shrine_targets(p.current, p.current, settings);
                            lemma_check_slot(m.split_states, slot as int, on, settings);
                        }
                    }
                }
            }
            if acts.contains(TimerAction::Reset) {
                let k = choose|k: int| 0 <= k < acts.len() && acts[k] == TimerAction::Reset;
                match m.event {
                    Some(p) => {
                        if p.has_changed() {
                            match event_target(p.current, settings) {
                                EventTarget::ResetRun => {},
                                EventTarget::Split(slot, on) => {
                                    lemma_event_targets(p.current, p.current, settings);
                                    lemma_check_slot(s1, slot as int, on, settings);
                                    let a2 = check_slot(s1, slot as int, on).1;
                                    if k < a1.len() {
                                        assert(acts[k] == a1[k]);
                                    } else {
                                        assert(acts[k] == a2[k - a1.len()]);
                                    }
                                },
                                _ => {
                                    assert(acts[k] == a1[k]);
                                },
                            }
                        } else {
                            assert(acts[k] == a1[k]);
                        }
                    },
                    None => {
                        assert(acts[k] == a1[k]);
                    },
                }
            }
        },
    }
}

/// Taking in values read from the game (the game timer, the last lit shrine,
/// the count and the name of the latest event) never changes which
/// checkpoints the run reached: only the decisions of a tick do.
pub proof fn lemma_observations_keep_checkpoints(
    m: SplitterModel,
    positive: bool,
    shrine: Option<u32>,
    size: Option<u32>,
    units: Seq<u16>,
)
    ensures
        m.after_game_time(positive).split_states == m.split_states,
        m.after_shrine(shrine).split_states == m.split_states,
        m.after_event_size(size).0.split_states == m.split_states,
        m.after_event_name(units).split_states == m.split_states,
        m.after_game_time(positive).game_time_started == (m.game_time_started || positive),
{
}

/// A run of ticks, each sound (see [`sound_decision`]), from checkpoint
/// states `states[j]` to `states[j + 1]` with commands `actions[j]`.
pub open spec fn sound_run(
    states: Seq<Seq<i32>>,
    actions: Seq<Seq<TimerAction>>,
    settings: Settings,
) -> bool {
    &&& states.len() == actions.len() + 1
    &&& forall|j: int|
        0 <= j < actions.len() ==> sound_decision(
            #[trigger] states[j],
            states[j + 1],
            actions[j],
            settings,
        )
}

proof fn lemma_reached_stays_reached(
    states: Seq<Seq<i32>>,
    actions: Seq<Seq<TimerAction>>,
    settings: Settings,
    slot: int,
    from: int,
    to: int,
)
    requires
        sound_run(states, actions, settings),
        forall|j: int| 0 <= j < actions.len() ==> !resets(#[trigger] actions[j]),
        0 <= slot < SPLIT_SLOTS,
        0 <= from <= to < states.len(),
        states[from][slot] == 1,
    ensures
        states[to][slot] == 1,
    decreases to - from,
{
    if from < to {
        let j = from;
        assert(sound_decision(states[j], states[j + 1], actions[j], settings));
        assert(!actions[j].contains(TimerAction::Reset));
        lemma_reached_stays_reached(states, actions, settings, slot, from + 1, to);
    }
}

/// Between two resets every checkpoint is split on at most once: in a run of
/// sound ticks with no reset, no two split commands name the same checkpoint.
pub proof fn lemma_each_checkpoint_splits_once_per_run(
    states: Seq<Seq<i32>>,
    actions: Seq<Seq<TimerAction>>,
    settings: Settings,
    j1: int,
    k1: int,
    j2: int,
    k2: int,
)
    requires
        sound_run(states, actions, settings),
        forall|j: int| 0 <= j < actions.len() ==> !resets(#[trigger] actions[j]),
        0 <= j1 < actions.len(),
        0 <= j2 < actions.len(),
        0 <= k1 < actions[j1].len(),
        0 <= k2 < actions[j2].len(),
        j1 < j2 || (j1 == j2 && k1 < k2),
        actions[j1][k1] is Split,
        actions[j2][k2] is Split,
    ensures
        actions[j1][k1] != actions[j2][k2],
{
    assert(sound_decision(states[j1], states[j1 + 1], actions[j1], settings));
    assert(sound_decision(states[j2], states[j2 + 1], actions[j2], settings));
    assert(!actions[j1].contains(TimerAction::Reset));
    if j1 < j2 && actions[j1][k1] == actions[j2][k2] {
        let slot = actions[j1][k1]->Split_0 as int;
        assert(states[j1 + 1][slot] == 1);
        lemma_reached_stays_reached(states, actions, settings, slot, j1 + 1, j2);
        assert(states[j2][slot] == 0);
    }
}

/// What reading the game does to the splitter, in terms of the values read:
/// a failed read changes nothing; a read value becomes the watcher's current
/// value, the previous current value (or the value itself, the first time)
/// its old one; the latest event's name is fetched exactly when the count of
/// events moved (up or down) to a value above one.
pub proof fn lemma_observations(m: SplitterModel, v: u32)
    ensures
        m.after_game_time(false) == m,
        m.after_game_time(true) == (SplitterModel { game_time_started: true, ..m }),
        m.after_shrine(None) == m,
        m.after_shrine(Some(v)) == (SplitterModel {
            shrine: Some(
                Pair {
                    old: match m.shrine {
                        Some(p) => p.current,
                        None => v,
                    },
                    current: v,
                },
            ),
            ..m
        }),
        m.after_event_size(None) == (m, false),
        m.event_size matches Some(p) ==> m.after_event_size(Some(v)) == ((SplitterModel {
            event_size: Some(Pair { old: p.current, current: v }),
            ..m
        }), p.current != v && v > 1),
        m.event_size is None ==> m.after_event_size(Some(v)) == ((SplitterModel {
            event_size: Some(Pair { old: v, current: v }),
            ..m
        }), false),
{
}

/// The name read for the latest event becomes the event watcher's current
/// name, decoded from the units read, with the previous current name (or the
/// new name itself, the first time) as the old one; nothing else changes.
pub proof fn lemma_event_name_observed(m: SplitterModel, units: Seq<u16>)
    ensures
        m.after_event_name(units) == (SplitterModel {
            event: Some(
                Pair {
                    old: match m.event {
                        Some(p) => p.current,
                        None => utf16_decode_lossy(units),
                    },
                    current: utf16_decode_lossy(units),
                },
            ),
            ..m
        }),
{
}

/// A tick asks for the streamed chunk exactly when the timer is running or
/// paused and the latest event changed to `TeleportTemple`; any other event,
/// and any other timer state, reads no chunk.
pub proof fn lemma_chunk_read_only_on_teleport(
    m: SplitterModel,
    phase: TimerPhase,
    settings: Settings,
)
    ensures
        m.decided(phase, settings).2 <==> ((phase == TimerPhase::Running || phase
            == TimerPhase::Paused) && (m.event matches Some(p) && p.has_changed() && p.current
            == "TeleportTemple"@)),
{
    reveal_strlit("TeleportTemple");
    reveal_strlit("IntroScene");
    reveal_strlit("BP_BeiraVesselBase_Graveyard");
    reveal_strlit("BP_BeiraVesselBase_TempleGardens");
    reveal_strlit("BP_BeiraVesselBase_LakeMolva");
    reveal_strlit("BP_BeiraVesselBase_GameIntro");
    reveal_strlit("NuosTempleEndCutscene");
    reveal_strlit("UthasEndCutscene");
    let t = "TeleportTemple"@;
    assert(t.len() == 14);
    assert("IntroScene"@.len() == 10);
    assert("BP_BeiraVesselBase_Graveyard"@.len() == 28);
    assert("BP_BeiraVesselBase_TempleGardens"@.len() == 32);
    assert("BP_BeiraVesselBase_LakeMolva"@.len() == 28);
    assert("BP_BeiraVesselBase_GameIntro"@.len() == 28);
    assert("NuosTempleEndCutscene"@.len() == 21);
    assert("UthasEndCutscene"@.len() == 16);
    assert(event_target(t, settings) == EventTarget::CheckChunk);
    if m.decided(phase, settings).2 {
        let p = m.event->0;
        assert(event_target(p.current, settings) == EventTarget::CheckChunk);
    }
}

/// After a teleport out of the temple, the streamed chunk names the dead
/// boss: chunk 14 Sirion, 2 Beira, 9 Samael. Where the runner splits on that
/// boss and the run has not reached it, exactly one split on it is asked for
/// and it becomes reached; any other chunk, or a failed read, changes
/// nothing and asks for nothing.
pub proof fn lemma_boss_of_chunk(m: SplitterModel, c: u32, settings: Settings)
    requires
        m.split_states.len() == SPLIT_SLOTS,
    ensures
        c == 14 && settings.sirion_dead && m.split_states[13] == 0 ==> m.decided_chunk(
            Some(c),
            settings,
        ).1 == seq![TimerAction::Split(13)] && m.decided_chunk(Some(c), settings).0.split_states
            == m.split_states.update(13, 1),
        c == 2 && settings.beira_dead && m.split_states[14] == 0 ==> m.decided_chunk(
            Some(c),
            settings,
        ).1 == seq![TimerAction::Split(14)] && m.decided_chunk(Some(c), settings).0.split_states
            == m.split_states.update(14, 1),
        c == 9 && settings.samael_dead && m.split_states[15] == 0 ==> m.decided_chunk(
            Some(c),
            settings,
        ).1 == seq![TimerAction::Split(15)] && m.decided_chunk(Some(c), settings).0.split_states
            == m.split_states.update(15, 1),
        c != 14 && c != 2 && c != 9 ==> m.decided_chunk(Some(c), settings) == (
            m,
            Seq::<TimerAction>::empty(),
        ),
        m.decided_chunk(None, settings) == (m, Seq::<TimerAction>::empty()),
        m.decided_chunk(Some(c), settings).0.shrine == m.shrine,
        m.decided_chunk(Some(c), settings).0.event == m.event,
        m.decided_chunk(Some(c), settings).0.event_size == m.event_size,
        m.decided_chunk(Some(c), settings).0.game_time_started == m.game_time_started,
{
}

/// A newly lit shrine that the runner splits on, and that this run has not
/// reached, is split on first thing in a running or paused tick, and becomes
/// reached.
pub proof fn lemma_shrine_split_fires(
    m: SplitterModel,
    phase: TimerPhase,
    settings: Settings,
    slot: usize,
)
    requires
        m.split_states.len() == SPLIT_SLOTS,
        phase == TimerPhase::Running || phase == TimerPhase::Paused,
        m.shrine matches Some(p) && p.old != p.current && shrine_target(p.current, settings)
            == Some((slot, true)),
        m.split_states[slot as int] == 0,
    ensures
        m.decided(phase, settings).1.len() >= 1,
        m.decided(phase, settings).1[0] == TimerAction::Split(slot),
{
    let p = m.shrine->0;
    lemma_shrine_targets(p.current, p.current, settings);
}

/// A changed event that the runner splits on, whose checkpoint this run has
/// not reached, is split on in a running or paused tick: the split is the
/// tick's last command, and the checkpoint becomes reached.
pub proof fn lemma_event_split_fires(
    m: SplitterModel,
    phase: TimerPhase,
    settings: Settings,
    slot: usize,
)
    requires
        m.split_states.len() == SPLIT_SLOTS,
        phase == TimerPhase::Running || phase == TimerPhase::Paused,
        m.event matches Some(p) && p.old != p.current && event_target(p.current, settings)
            == EventTarget::Split(slot, true),
        m.split_states[slot as int] == 0,
    ensures
        m.decided(phase, settings).1.len() >= 1,
        m.decided(phase, settings).1.last() == TimerAction::Split(slot),
        m.decided(phase, settings).0.split_states[slot as int] == 1,
{
    let e = m.event->0;
    lemma_event_targets(e.current, e.current, settings);
    match m.shrine {
        Some(p) => {
            lemma_shrine_targets(p.current, p.current, settings);
            if p.has_changed() {
                if let Some((s1, on)) = shrine_target(p.current, settings) {
                    lemma_check_slot(m.split_states, s1 as int, on, settings);
                }
            }
        },
        None => {},
    }
}

/// A new game seen while the timer runs (or is paused), after the game timer
/// went above zero, resets the run: every checkpoint is forgotten and the
/// tick ends with reset, start and pause of the game time.
pub proof fn lemma_new_game_resets_running(m: SplitterModel, phase: TimerPhase, settings: Settings)
    requires
        m.split_states.len() == SPLIT_SLOTS,
        phase == TimerPhase::Running || phase == TimerPhase::Paused,
        m.game_time_started,
        m.event matches Some(p) && p.old != p.current && p.current == "IntroScene"@,
    ensures
        m.decided(phase, settings).0.split_states == cleared_slots(),
        m.decided(phase, settings).1.len() >= 3,
        m.decided(phase, settings).1.subrange(
            m.decided(phase, settings).1.len() - 3,
            m.decided(phase, settings).1.len() as int,
        ) == seq![TimerAction::Reset, TimerAction::Start, TimerAction::PauseGameTime],
{
    let (m2, acts, _) = m.decided(phase, settings);
    let (s1, a1) = m.shrine_decision(settings);
    assert(acts == a1 + reset_actions());
    assert(acts.subrange(acts.len() - 3, acts.len() as int) =~= reset_actions());
}

/// Every split a tick asks for has a cause seen in that tick: a newly lit
/// shrine leading to that checkpoint, or a changed event leading to it; a
/// tick with the timer not running or ended asks for no split at all.
pub proof fn lemma_splits_have_a_cause(m: SplitterModel, phase: TimerPhase, settings: Settings)
    requires
        m.split_states.len() == SPLIT_SLOTS,
    ensures
        forall|k: int|
            0 <= k < m.decided(phase, settings).1.len() && (#[trigger] m.decided(
                phase,
                settings,
            ).1[k]) is Split ==> {
                let slot = m.decided(phase, settings).1[k]->Split_0;
                &&& phase == TimerPhase::Running || phase == TimerPhase::Paused
                &&& shrine_caused(m, settings, slot) || event_caused(m, settings, slot)
            },
{
    let acts = m.decided(phase, settings).1;
    assert forall|k: int| 0 <= k < acts.len() && (#[trigger] acts[k]) is Split implies {
        let slot = acts[k]->Split_0;
        &&& phase == TimerPhase::Running || phase == TimerPhase::Paused
        &&& shrine_caused(m, settings, slot) || event_caused(m, settings, slot)
    } by {
        match phase {
            TimerPhase::NotRunning => {
                if acts.len() > 0 {
                    assert(acts == reset_actions());
                }
            },
            TimerPhase::Ended => {},
            _ => {
                let (s1, a1) = m.shrine_decision(settings);
                if let Some(p) = m.shrine {
                    if p.has_changed() {
                        if let Some((sl, on)) = shrine_target(p.current, settings) {
                            lemma_shrine_targets(p.current, p.current, settings);
                            lemma_check_slot(m.split_states, sl as int, on, settings);
                        }
                    }
                }
                assert(a1.len() == 0 || (a1.len() == 1 && shrine_caused(m, settings, a1[0]->Split_0)
                    && a1[0] is Split));
                if k < a1.len() {
                    assert(acts[k] == a1[k]);
                } else {
                    let e = m.event->0;
                    match event_target(e.current, settings) {
                        EventTarget::Split(sl, on) => {
                            lemma_event_targets(e.current, e.current, settings);
                            lemma_check_slot(s1, sl as int, on, settings);
                            let a2 = check_slot(s1, sl as int, on).1;
                            assert(acts == a1 + a2);
                            assert(acts[k] == a2[k - a1.len()]);
                        },
                        EventTarget::ResetRun => {
                            assert(acts == a1 + reset_actions());
                            assert(acts[k] == reset_actions()[k - a1.len()]);
                        },
                        _ => {},
                    }
                }
            },
        }
    }
}

/// A newly lit shrine, seen by the shrine watcher, leads to checkpoint `slot`.
pub open spec fn shrine_caused(m: SplitterModel, settings: Settings, slot: usize) -> bool {
    match m.shrine {
        Some(p) => p.old != p.current && match shrine_target(p.current, settings) {
            Some((s, _)) => s == slot,
            None => false,
        },
        None => false,
    }
}

/// A changed event, seen by the event watcher, leads to checkpoint `slot`.
pub open spec fn event_caused(m: SplitterModel, settings: Settings, slot: usize) -> bool {
    match m.event {
        Some(e) => e.old != e.current && match event_target(e.current, settings) {
            EventTarget::Split(s, _) => s == slot,
            _ => false,
        },
        None => false,
    }
}

/// While the timer is not running, a tick does exactly one of two things:
/// where the latest event changed to the start of a new game, it forgets
/// every checkpoint and resets, starts and pauses the game time; otherwise it
/// changes nothing and asks for nothing. It never reads the streamed chunk.
pub proof fn lemma_not_running(m: SplitterModel, settings: Settings)
    requires
        m.split_states.len() == SPLIT_SLOTS,
    ensures
        (m.event matches Some(p) && p.old != p.current && p.current == "IntroScene"@) ==> ({
            let (m2, acts, chunk) = m.decided(TimerPhase::NotRunning, settings);
            &&& acts == seq![TimerAction::Reset, TimerAction::Start, TimerAction::PauseGameTime]
            &&& forall|i: int| 0 <= i < SPLIT_SLOTS ==> m2.split_states[i] == 0
            &&& m2.split_states.len() == SPLIT_SLOTS
            &&& m2.event == m.event && m2.shrine == m.shrine && m2.event_size == m.event_size
            &&& m2.game_time_started == m.game_time_started
            &&& !chunk
        }),
        !(m.event matches Some(p) && p.old != p.current && p.current == "IntroScene"@) ==> m.decided(
            TimerPhase::NotRunning,
            settings,
        ) == (m, Seq::<TimerAction>::empty(), false),
{
}

} // verus!
