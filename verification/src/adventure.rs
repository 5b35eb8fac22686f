use vstd::prelude::*;

use crate::random::random_between;

verus! {

/// Which screen the adventure is on.
#[derive(Clone, Copy, Debug, PartialEq, Eq, Structural)]
pub enum GameState {
    Field,
    Dialog,
    Battle,
}

/// The king's speeches.
#[derive(Clone, Copy, Debug, PartialEq, Eq, Structural)]
pub enum Script {
    /// The opening briefing, four lines long.
    Intro,
    /// The one-line reminder given when the hero talks to the king again.
    Reminder,
}

/// The number of lines of a speech.
pub open spec fn script_len(s: Script) -> nat {
    match s {
        Script::Intro => 4,
        Script::Reminder => 1,
    }
}

impl Script {
    /// The number of lines of this speech.
    pub fn len(&self) -> (n: usize)
        ensures
            n == script_len(*self),
    {
        match self {
            Script::Intro => 4,
            Script::Reminder => 1,
        }
    }
}

/// The monsters of the adventure.
#[derive(Clone, Copy, Debug, PartialEq, Eq, Structural)]
pub enum EnemyKind {
    Slime,
    FloatingSlime,
    AntigravityBat,
}

/// Hit points a monster of kind `k` starts with.
pub open spec fn kind_max_hp(k: EnemyKind) -> i32 {
    match k {
        EnemyKind::AntigravityBat => 30,
        _ => 20,
    }
}

/// Attack power of a monster of kind `k`.
pub open spec fn kind_attack(k: EnemyKind) -> i32 {
    match k {
        EnemyKind::AntigravityBat => 8,
        _ => 5,
    }
}

/// The hero's battle statistics.
#[derive(Clone, Copy, Debug, PartialEq, Eq, Structural)]
pub struct PlayerStats {
    pub hp: i32,
    pub max_hp: i32,
    pub attack: i32,
}

/// The current monster's battle statistics.
#[derive(Clone, Copy, Debug, PartialEq, Eq, Structural)]
pub struct EnemyStats {
    pub kind: EnemyKind,
    pub hp: i32,
    pub max_hp: i32,
    pub attack: i32,
}

/// A monster of kind `k` at full health.
pub open spec fn fresh_enemy(k: EnemyKind) -> EnemyStats {
    EnemyStats { kind: k, hp: kind_max_hp(k), max_hp: kind_max_hp(k), attack: kind_attack(k) }
}

impl EnemyStats {
    /// A monster of kind `kind` at full health.
    pub fn spawn(kind: EnemyKind) -> (e: EnemyStats)
        ensures
            e == fresh_enemy(kind),
    {
        match kind {
            EnemyKind::AntigravityBat => EnemyStats { kind, hp: 30, max_hp: 30, attack: 8 },
            _ => EnemyStats { kind, hp: 20, max_hp: 20, attack: 5 },
        }
    }
}

/// How well the hero timed a strike.
#[derive(Clone, Copy, Debug, PartialEq, Eq, Structural)]
pub enum StrikeQuality {
    /// The cursor stopped in the sweet spot.
    Critical,
    /// The cursor stopped in the wide middle band.
    Hit,
    /// The cursor stopped near an end of the bar.
    Miss,
}

/// The damage a strike of the given quality deals with attack power `attack`.
pub open spec fn spec_strike_damage(attack: int, q: StrikeQuality) -> int {
    match q {
        StrikeQuality::Critical => attack * 2,
        StrikeQuality::Hit => attack,
        StrikeQuality::Miss => 0,
    }
}

/// The damage a strike of quality `q` deals: a critical hit deals twice the attack power, a
/// hit deals the attack power, a miss deals nothing.
pub fn strike_damage(attack: i32, q: StrikeQuality) -> (d: i32)
    requires
        q == StrikeQuality::Critical ==> i32::MIN <= attack * 2 <= i32::MAX,
    ensures
        d == spec_strike_damage(attack as int, q),
        q == StrikeQuality::Critical ==> d == 2 * spec_strike_damage(attack as int, StrikeQuality::Hit),
        attack >= 0 ==> d >= 0,
{
    match q {
        StrikeQuality::Critical => attack * 2,
        StrikeQuality::Hit => attack,
        StrikeQuality::Miss => 0,
    }
}

/// The damage a monster deals: its attack power plus the roll, and never less than one.
pub open spec fn spec_enemy_damage(attack: int, roll: int) -> int {
    if attack + roll >= 1 { attack + roll } else { 1 }
}

/// The damage a monster with attack power `attack` deals for the roll `roll`.
pub fn enemy_damage(attack: i32, roll: i32) -> (d: i32)
    requires
        i32::MIN <= attack + roll <= i32::MAX,
    ensures
        d == spec_enemy_damage(attack as int, roll as int),
        d >= 1,
{
    let d = attack + roll;
    if d >= 1 { d } else { 1 }
}

/// What the battle box says.
#[derive(Clone, Copy, Debug, PartialEq, Eq, Structural)]
pub enum Notice {
    /// The greeting shown before the first battle.
    Opening,
    Appears(EnemyKind),
    Defeated,
    Victory(EnemyKind),
    /// The prompt to stop the timing bar.
    Prompt,
    CriticalHit(i32),
    Hit(i32),
    Miss,
    EnemyStrikes(EnemyKind, i32),
}

/// What the driver of the adventure has to do with the state it keeps itself.
#[derive(Clone, Copy, Debug, PartialEq, Eq, Structural)]
pub enum Cue {
    Nothing,
    /// Put the timing-bar cursor back at the left end.
    ResetTimingBar,
    /// Wait a moment before the monster's turn.
    StartEnemyDelay,
    /// Put the hero back at the center of the field.
    ReturnHome,
}

/// What happened in one frame, as far as the rules care.
#[derive(Clone, Copy, Debug, PartialEq, Eq, Structural)]
pub struct FrameInput {
    /// Space or Enter was pressed.
    pub confirm: bool,
    /// Space was pressed.
    pub space: bool,
    /// The hero walked in the field this frame.
    pub moved: bool,
    /// The hero stands next to the king.
    pub near_king: bool,
    /// Where the timing-bar cursor stands, as a strike quality.
    pub strike: StrikeQuality,
    /// The pause before the monster's turn is over.
    pub enemy_ready: bool,
}

/// The random numbers one frame may consume.
#[derive(Clone, Copy, Debug, PartialEq, Eq, Structural)]
pub struct Rolls {
    /// A step in the field meets a monster when this is below 5 (drawn from `0..1000`).
    pub encounter: i32,
    /// Which monster: 0 for a floating slime, else a bat (drawn from `0..2`).
    pub kind: i32,
    /// Added to the monster's attack (drawn from `-2..3`).
    pub damage: i32,
}

/// Whether the rolls lie in the ranges they are drawn from.
pub open spec fn rolls_in_range(r: Rolls) -> bool {
    &&& 0 <= r.encounter < 1000
    &&& 0 <= r.kind < 2
    &&& -2 <= r.damage < 3
}

/// The monster that a step in the field meets, if any.
pub open spec fn encounter_of(r: Rolls) -> Option<EnemyKind> {
    if r.encounter < 5 {
        if r.kind == 0 {
            Some(EnemyKind::FloatingSlime)
        } else {
            Some(EnemyKind::AntigravityBat)
        }
    } else {
        None
    }
}

/// The whole state of the adventure that the rules decide on.
#[derive(Clone, Copy, Debug, PartialEq, Eq, Structural)]
pub struct Adventure {
    pub state: GameState,
    pub script: Script,
    pub dialog_index: usize,
    pub player: PlayerStats,
    pub enemy: EnemyStats,
    pub is_player_turn: bool,
    /// The timing bar is running.
    pub attack_phase: bool,
    pub message: Notice,
}

impl Adventure {
    /// The adventure's invariant: the dialog never runs past its speech, the hero keeps
    /// fixed statistics and never more health than the maximum, the hero has health left
    /// whenever no battle is on, and the monster's statistics are those of its kind.
    pub open spec fn wf(&self) -> bool {
        &&& self.dialog_index <= script_len(self.script)
        &&& self.state != GameState::Battle ==> self.player.hp > 0
        &&& self.player.max_hp == 50
        &&& self.player.attack == 10
        &&& -100 <= self.player.hp <= self.player.max_hp
        &&& self.enemy.max_hp == kind_max_hp(self.enemy.kind)
        &&& self.enemy.attack == kind_attack(self.enemy.kind)
        &&& -100 <= self.enemy.hp <= self.enemy.max_hp
    }

    /// The timing bar moves this frame.
    pub open spec fn bar_running(&self) -> bool {
        &&& self.state == GameState::Battle
        &&& self.player.hp > 0
        &&& self.enemy.hp > 0
        &&& self.is_player_turn
        &&& self.attack_phase
    }

    /// The pause before the monster's turn counts down this frame.
    pub open spec fn enemy_pending(&self) -> bool {
        &&& self.state == GameState::Battle
        &&& self.player.hp > 0
        &&& self.enemy.hp > 0
        &&& !self.is_player_turn
    }

    /// A new game: the king's briefing, a healthy hero, a slime waiting.
    pub fn new() -> (a: Adventure)
        ensures
            a.wf(),
            a.state == GameState::Dialog,
            a.script == Script::Intro,
            a.dialog_index == 0,
            a.player == (PlayerStats { hp: 50, max_hp: 50, attack: 10 }),
            a.enemy == fresh_enemy(EnemyKind::Slime),
            a.is_player_turn,
            !a.attack_phase,
            a.message == Notice::Opening,
    {
        Adventure {
            state: GameState::Dialog,
            script: Script::Intro,
            dialog_index: 0,
            player: PlayerStats { hp: 50, max_hp: 50, attack: 10 },
            enemy: EnemyStats::spawn(EnemyKind::Slime),
            is_player_turn: true,
            attack_phase: false,
            message: Notice::Opening,
        }
    }

    /// Whether the timing bar moves this frame.
    pub fn timing_bar_running(&self) -> (r: bool)
        ensures
            r == self.bar_running(),
    {
        self.state == GameState::Battle && self.player.hp > 0 && self.enemy.hp > 0 && self.is_player_turn
            && self.attack_phase
    }

    /// Whether the pause before the monster's turn counts down this frame.
    pub fn enemy_turn_pending(&self) -> (r: bool)
        ensures
            r == self.enemy_pending(),
    {
        self.state == GameState::Battle && self.player.hp > 0 && self.enemy.hp > 0 && !self.is_player_turn
    }
}

/// One dialog frame: a confirmation shows the next line; past the last line the hero is
/// back in the field.
pub open spec fn dialog_step(s: Adventure, input: FrameInput) -> (Adventure, Cue) {
    if s.dialog_index < script_len(s.script) {
        if input.confirm {
            (Adventure { dialog_index: (s.dialog_index + 1) as usize, ..s }, Cue::Nothing)
        } else {
            (s, Cue::Nothing)
        }
    } else {
        (Adventure { state: GameState::Field, ..s }, Cue::Nothing)
    }
}

/// One field frame: a step may meet a monster, and pressing space next to the king starts
/// his reminder (even in the frame that met a monster).
pub open spec fn field_step(s: Adventure, input: FrameInput, rolls: Rolls) -> (Adventure, Cue) {
    let met = if input.moved {
        match encounter_of(rolls) {
            Some(k) => Adventure {
                state: GameState::Battle,
                enemy: fresh_enemy(k),
                message: Notice::Appears(k),
                is_player_turn: true,
                attack_phase: false,
                ..s
            },
            None => s,
        }
    } else {
        s
    };
    if input.near_king && input.space {
        (Adventure { state: GameState::Dialog, dialog_index: 0, script: Script::Reminder, ..met }, Cue::Nothing)
    } else {
        (met, Cue::Nothing)
    }
}

/// One battle frame.
pub open spec fn battle_step(s: Adventure, input: FrameInput, rolls: Rolls) -> (Adventure, Cue) {
    if s.player.hp <= 0 {
        let t = Adventure { message: Notice::Defeated, ..s };
        if input.space {
            (Adventure {
                player: PlayerStats { hp: s.player.max_hp, ..s.player },
                state: GameState::Field,
                ..t
            }, Cue::ReturnHome)
        } else {
            (t, Cue::Nothing)
        }
    } else if s.enemy.hp <= 0 {
        let t = Adventure { message: Notice::Victory(s.enemy.kind), ..s };
        if input.space {
            (Adventure { state: GameState::Field, ..t }, Cue::Nothing)
        } else {
            (t, Cue::Nothing)
        }
    } else if s.is_player_turn {
        if !s.attack_phase {
            if input.space {
                (Adventure { attack_phase: true, message: Notice::Prompt, ..s }, Cue::ResetTimingBar)
            } else {
                (s, Cue::Nothing)
            }
        } else if input.space {
            let dmg = spec_strike_damage(s.player.attack as int, input.strike);
            let message = match input.strike {
                StrikeQuality::Critical => Notice::CriticalHit(dmg as i32),
                StrikeQuality::Hit => Notice::Hit(dmg as i32),
                StrikeQuality::Miss => Notice::Miss,
            };
            (Adventure {
                attack_phase: false,
                is_player_turn: false,
                enemy: EnemyStats { hp: (s.enemy.hp - dmg) as i32, ..s.enemy },
                message,
                ..s
            }, Cue::StartEnemyDelay)
        } else {
            (s, Cue::Nothing)
        }
    } else if input.enemy_ready {
        let dmg = spec_enemy_damage(s.enemy.attack as int, rolls.damage as int);
        (Adventure {
            player: PlayerStats { hp: (s.player.hp - dmg) as i32, ..s.player },
            message: Notice::EnemyStrikes(s.enemy.kind, dmg as i32),
            is_player_turn: true,
            ..s
        }, Cue::Nothing)
    } else {
        (s, Cue::Nothing)
    }
}

/// One frame of the adventure, with the random numbers it may consume given.
pub open spec fn step(s: Adventure, input: FrameInput, rolls: Rolls) -> (Adventure, Cue) {
    match s.state {
        GameState::Dialog => dialog_step(s, input),
        GameState::Field => field_step(s, input, rolls),
        GameState::Battle => battle_step(s, input, rolls),
    }
}

} // verus!

verus! {

impl Adventure {
    /// Plays one frame with the random numbers given.
    pub fn frame_with(&mut self, input: FrameInput, rolls: Rolls) -> (cue: Cue)
        requires
            old(self).wf(),
            rolls_in_range(rolls),
        ensures
            (*final(self), cue) == step(*old(self), input, rolls),
            final(self).wf(),
            // in a battle, the hero's turn ends only by a key press
            old(self).state == GameState::Battle && old(self).is_player_turn && !input.space ==> (
                final(self).is_player_turn && final(self).attack_phase == old(self).attack_phase
                && final(self).player == old(self).player && final(self).enemy == old(self).enemy
                && cue == Cue::Nothing),
    {
        match self.state {
            GameState::Dialog => {
                if self.dialog_index < self.script.len() {
                    if input.confirm {
                        self.dialog_index = self.dialog_index + 1;
                    }
                } else {
                    self.state = GameState::Field;
                }
                Cue::Nothing
            },
            GameState::Field => {
                if input.moved {
                    match encounter_from(rolls.encounter, rolls.kind) {
                        Some(k) => {
                            self.state = GameState::Battle;
                            self.enemy = EnemyStats::spawn(k);
                            self.message = Notice::Appears(k);
                            self.is_player_turn = true;
                            self.attack_phase = false;
                        },
                        None => {},
                    }
                }
                if input.near_king && input.space {
                    self.state = GameState::Dialog;
                    self.dialog_index = 0;
                    self.script = Script::Reminder;
                }
                Cue::Nothing
            },
            GameState::Battle => self.battle_frame(input, rolls.damage),
        }
    }

    /// One battle frame with the monster's damage roll given.
    fn battle_frame(&mut self, input: FrameInput, damage_roll: i32) -> (cue: Cue)
        requires
            old(self).wf(),
            old(self).state == GameState::Battle,
            -2 <= damage_roll < 3,
        ensures
            (*final(self), cue) == battle_step(*old(self), input, Rolls { encounter: 0, kind: 0, damage: damage_roll }),
            final(self).wf(),
    {
        if self.player.hp <= 0 {
            self.message = Notice::Defeated;
            if input.space {
                self.player.hp = self.player.max_hp;
                self.state = GameState::Field;
                Cue::ReturnHome
            } else {
                Cue::Nothing
            }
        } else if self.enemy.hp <= 0 {
            self.message = Notice::Victory(self.enemy.kind);
            if input.space {
                self.state = GameState::Field;
            }
            Cue::Nothing
        } else if self.is_player_turn {
            if !self.attack_phase {
                if input.space {
                    self.attack_phase = true;
                    self.message = Notice::Prompt;
                    Cue::ResetTimingBar
                } else {
                    Cue::Nothing
                }
            } else if input.space {
                let dmg = strike_damage(self.player.attack, input.strike);
                self.attack_phase = false;
                self.is_player_turn = false;
                self.enemy.hp = self.enemy.hp - dmg;
                self.message = match input.strike {
                    StrikeQuality::Critical => Notice::CriticalHit(dmg),
                    StrikeQuality::Hit => Notice::Hit(dmg),
                    StrikeQuality::Miss => Notice::Miss,
                };
                Cue::StartEnemyDelay
            } else {
                Cue::Nothing
            }
        } else if input.enemy_ready {
            let dmg = enemy_damage(self.enemy.attack, damage_roll);
            self.player.hp = self.player.hp - dmg;
            self.message = Notice::EnemyStrikes(self.enemy.kind, dmg);
            self.is_player_turn = true;
            Cue::Nothing
        } else {
            Cue::Nothing
        }
    }

    /// Plays one frame, drawing the random numbers it needs: a step in the field draws the
    /// encounter roll (and, on an encounter, the monster roll); a monster's attack draws its
    /// damage roll.
    pub fn frame(&mut self, input: FrameInput) -> (cue: Cue)
        requires
            old(self).wf(),
        ensures
            exists|rolls: Rolls| rolls_in_range(rolls) && (*final(self), cue) == #[trigger] step(*old(self), input, rolls),
            final(self).wf(),
    {
        let mut rolls = Rolls { encounter: 999, kind: 0, damage: 0 };
        if self.state == GameState::Field && input.moved {
            rolls.encounter = random_between(0, 1000);
            if rolls.encounter < 5 {
                rolls.kind = random_between(0, 2);
            }
        }
        if self.enemy_turn_pending() && input.enemy_ready {
            rolls.damage = random_between(-2, 3);
        }
        let cue = self.frame_with(input, rolls);
        assert(rolls_in_range(rolls));
        cue
    }
}

/// The monster that a step in the field meets for the given rolls, if any.
pub fn encounter_from(encounter_roll: i32, kind_roll: i32) -> (k: Option<EnemyKind>)
    ensures
        k == encounter_of(Rolls { encounter: encounter_roll, kind: kind_roll, damage: 0 }),
{
    if encounter_roll < 5 {
        if kind_roll == 0 {
            Some(EnemyKind::FloatingSlime)
        } else {
            Some(EnemyKind::AntigravityBat)
        }
    } else {
        None
    }
}

} // verus!

verus! {

/// A defeated hero who presses space is back in the field at full health.
pub proof fn lemma_defeat_recovery(s: Adventure, input: FrameInput, rolls: Rolls)
    requires
        s.wf(),
        s.state == GameState::Battle,
        s.player.hp <= 0,
        input.space,
    ensures
        step(s, input, rolls).0.state == GameState::Field,
        step(s, input, rolls).0.player.hp == s.player.max_hp,
        step(s, input, rolls).1 == Cue::ReturnHome,
{
}

/// A step that meets a monster opens a battle against that monster at full health, on the
/// hero's turn with the timing bar at rest (unless the same frame starts a talk with the king).
pub proof fn lemma_encounter_opens_battle(s: Adventure, input: FrameInput, rolls: Rolls)
    requires
        s.wf(),
        s.state == GameState::Field,
        input.moved,
        encounter_of(rolls) is Some,
        !(input.near_king && input.space),
    ensures
        step(s, input, rolls).0.state == GameState::Battle,
        step(s, input, rolls).0.enemy == fresh_enemy(encounter_of(rolls)->0),
        step(s, input, rolls).0.is_player_turn,
        !step(s, input, rolls).0.attack_phase,
        step(s, input, rolls).0.player == s.player,
{
}

/// Once the last line of a speech has been shown, the next frame returns to the field,
/// whatever is pressed.
pub proof fn lemma_dialog_ends(s: Adventure, input: FrameInput, rolls: Rolls)
    requires
        s.wf(),
        s.state == GameState::Dialog,
        s.dialog_index == script_len(s.script),
    ensures
        step(s, input, rolls).0 == (Adventure { state: GameState::Field, ..s }),
{
}

/// Every frame keeps the adventure's invariant; in particular the hero never has more
/// health than the maximum, and outside a battle the hero always has health left.
pub proof fn lemma_step_keeps_wf(s: Adventure, input: FrameInput, rolls: Rolls)
    requires
        s.wf(),
        rolls_in_range(rolls),
    ensures
        step(s, input, rolls).0.wf(),
        step(s, input, rolls).0.player.hp <= step(s, input, rolls).0.player.max_hp,
        step(s, input, rolls).0.state != GameState::Battle ==> step(s, input, rolls).0.player.hp > 0,
{
}

/// The adventure after playing `frames` in order, each with its input and rolls.
pub open spec fn run(s: Adventure, frames: Seq<(FrameInput, Rolls)>) -> Adventure
    decreases frames.len(),
{
    if frames.len() == 0 {
        s
    } else {
        step(run(s, frames.drop_last()), frames.last().0, frames.last().1).0
    }
}

/// Over any sequence of frames (any keys, any rolls the generator can give), the invariant
/// holds after every frame: the hero's health never exceeds 50, and whenever the hero is in
/// the field or in a dialog the hero's health is above 0.
pub proof fn lemma_run_keeps_wf(s: Adventure, frames: Seq<(FrameInput, Rolls)>)
    requires
        s.wf(),
        forall|i: int| 0 <= i < frames.len() ==> rolls_in_range(#[trigger] frames[i].1),
    ensures
        run(s, frames).wf(),
        run(s, frames).player.hp <= 50,
        run(s, frames).state != GameState::Battle ==> run(s, frames).player.hp > 0,
    decreases frames.len(),
{
    if frames.len() > 0 {
        let prev = frames.drop_last();
        assert forall|i: int| 0 <= i < prev.len() implies rolls_in_range(#[trigger] prev[i].1) by {
            assert(prev[i] == frames[i]);
        }
        lemma_run_keeps_wf(s, prev);
        assert(rolls_in_range(frames[frames.len() - 1].1));
        lemma_step_keeps_wf(run(s, prev), frames.last().0, frames.last().1);
    }
}

/// The monster's health changes only when the hero resolves a strike, and the hero's only
/// when the monster strikes or the hero recovers from a defeat.
pub proof fn lemma_health_changes(s: Adventure, input: FrameInput, rolls: Rolls)
    requires
        s.wf(),
        rolls_in_range(rolls),
    ensures
        step(s, input, rolls).0.enemy.hp != s.enemy.hp ==> (s.state == GameState::Battle && s.player.hp > 0
            && s.enemy.hp > 0 && s.is_player_turn && s.attack_phase && input.space)
            || (s.state == GameState::Field && input.moved && encounter_of(rolls) is Some),
        step(s, input, rolls).0.player.hp < s.player.hp ==> s.enemy_pending() && input.enemy_ready,
        step(s, input, rolls).0.player.hp > s.player.hp ==> s.state == GameState::Battle && s.player.hp <= 0
            && input.space,
{
}

} // verus!

verus! {

/// In a battle, the hero's turn ends only by a key press: a frame without space leaves the
/// turn, the timing bar, both fighters and the screen as they were.
pub proof fn lemma_turn_ends_by_key(s: Adventure, input: FrameInput, rolls: Rolls)
    requires
        s.wf(),
        s.state == GameState::Battle,
        s.is_player_turn,
        !input.space,
    ensures
        step(s, input, rolls).0.is_player_turn,
        step(s, input, rolls).0.attack_phase == s.attack_phase,
        step(s, input, rolls).0.state == GameState::Battle,
        step(s, input, rolls).0.player == s.player,
        step(s, input, rolls).0.enemy == s.enemy,
        step(s, input, rolls).1 == Cue::Nothing,
{
}

/// Stopping the timing bar with space resolves the strike: the monster loses twice the
/// hero's attack on a critical hit, the attack on a hit, nothing on a miss; then it is the
/// monster's turn after a pause, and the hero is untouched.
pub proof fn lemma_strike_resolves(s: Adventure, input: FrameInput, rolls: Rolls)
    requires
        s.wf(),
        s.bar_running(),
        input.space,
    ensures
        !step(s, input, rolls).0.is_player_turn,
        !step(s, input, rolls).0.attack_phase,
        step(s, input, rolls).0.state == GameState::Battle,
        step(s, input, rolls).0.player == s.player,
        step(s, input, rolls).0.enemy.kind == s.enemy.kind,
        input.strike == StrikeQuality::Critical ==> step(s, input, rolls).0.enemy.hp == s.enemy.hp - 2 * s.player.attack,
        input.strike == StrikeQuality::Hit ==> step(s, input, rolls).0.enemy.hp == s.enemy.hp - s.player.attack,
        input.strike == StrikeQuality::Miss ==> step(s, input, rolls).0.enemy.hp == s.enemy.hp,
        step(s, input, rolls).1 == Cue::StartEnemyDelay,
{
}

/// When the pause is over, the monster strikes once: the hero loses at least one point and
/// at most the monster's attack plus two, and the turn passes back to the hero; until the
/// pause is over nothing changes.
pub proof fn lemma_monster_turn(s: Adventure, input: FrameInput, rolls: Rolls)
    requires
        s.wf(),
        s.enemy_pending(),
        rolls_in_range(rolls),
    ensures
        input.enemy_ready ==> step(s, input, rolls).0.is_player_turn,
        input.enemy_ready ==> 1 <= s.player.hp - step(s, input, rolls).0.player.hp <= s.enemy.attack + 2,
        input.enemy_ready ==> s.player.hp - step(s, input, rolls).0.player.hp >= s.enemy.attack - 2,
        step(s, input, rolls).0.enemy == s.enemy,
        step(s, input, rolls).0.state == GameState::Battle,
        !input.enemy_ready ==> step(s, input, rolls).0 == s,
{
}

/// A dialog shows the next line exactly when a key is pressed and lines remain; it never
/// skips a line.
pub proof fn lemma_dialog_advance(s: Adventure, input: FrameInput, rolls: Rolls)
    requires
        s.wf(),
        s.state == GameState::Dialog,
        s.dialog_index < script_len(s.script),
    ensures
        input.confirm ==> step(s, input, rolls).0.dialog_index == s.dialog_index + 1,
        !input.confirm ==> step(s, input, rolls).0 == s,
        step(s, input, rolls).0.state == GameState::Dialog,
        step(s, input, rolls).0.player == s.player,
{
}

/// In the field, a frame without a step that meets a monster and without talking to the
/// king changes nothing.
pub proof fn lemma_quiet_field(s: Adventure, input: FrameInput, rolls: Rolls)
    requires
        s.wf(),
        s.state == GameState::Field,
        !(input.moved && encounter_of(rolls) is Some),
        !(input.near_king && input.space),
    ensures
        step(s, input, rolls).0 == s,
{
}

} // verus!
