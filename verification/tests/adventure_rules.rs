use game_engine::adventure::{
    encounter_from, enemy_damage, strike_damage, Adventure, Cue, EnemyKind, EnemyStats, FrameInput, GameState,
    Notice, PlayerStats, Rolls, Script, StrikeQuality,
};

fn input() -> FrameInput {
    FrameInput { confirm: false, space: false, moved: false, near_king: false, strike: StrikeQuality::Miss, enemy_ready: false }
}

fn quiet_rolls() -> Rolls {
    Rolls { encounter: 999, kind: 0, damage: 0 }
}

fn in_battle(kind: EnemyKind) -> Adventure {
    let mut a = Adventure::new();
    a.state = GameState::Field;
    let cue = a.frame_with(FrameInput { moved: true, ..input() }, Rolls { encounter: 2, kind: if kind == EnemyKind::FloatingSlime { 0 } else { 1 }, damage: 0 });
    assert_eq!(cue, Cue::Nothing);
    a
}

#[test]
fn test_new_adventure() {
    let a = Adventure::new();
    assert_eq!(a.state, GameState::Dialog);
    assert_eq!(a.script, Script::Intro);
    assert_eq!(a.dialog_index, 0);
    assert_eq!(a.player, PlayerStats { hp: 50, max_hp: 50, attack: 10 });
    assert_eq!(a.enemy, EnemyStats { kind: EnemyKind::Slime, hp: 20, max_hp: 20, attack: 5 });
    assert!(a.is_player_turn);
    assert!(!a.attack_phase);
    assert_eq!(a.message, Notice::Opening);
}

#[test]
fn test_dialog_runs_through_briefing() {
    let mut a = Adventure::new();
    a.frame(input());
    assert_eq!(a.dialog_index, 0);
    for i in 1..=4 {
        a.frame(FrameInput { confirm: true, ..input() });
        assert_eq!(a.dialog_index, i);
        assert_eq!(a.state, GameState::Dialog);
    }
    a.frame(input());
    assert_eq!(a.state, GameState::Field);
    assert_eq!(Script::Intro.len(), 4);
    assert_eq!(Script::Reminder.len(), 1);
}

#[test]
fn test_encounters() {
    assert_eq!(encounter_from(0, 0), Some(EnemyKind::FloatingSlime));
    assert_eq!(encounter_from(4, 1), Some(EnemyKind::AntigravityBat));
    assert_eq!(encounter_from(5, 0), None);
    assert_eq!(encounter_from(999, 1), None);
    let a = in_battle(EnemyKind::AntigravityBat);
    assert_eq!(a.state, GameState::Battle);
    assert_eq!(a.enemy, EnemyStats { kind: EnemyKind::AntigravityBat, hp: 30, max_hp: 30, attack: 8 });
    assert_eq!(a.message, Notice::Appears(EnemyKind::AntigravityBat));
    assert_eq!(EnemyStats::spawn(EnemyKind::FloatingSlime), EnemyStats { kind: EnemyKind::FloatingSlime, hp: 20, max_hp: 20, attack: 5 });
}

#[test]
fn test_field_standing_still_meets_nobody() {
    let mut a = Adventure::new();
    a.state = GameState::Field;
    a.frame_with(input(), Rolls { encounter: 0, kind: 0, damage: 0 });
    assert_eq!(a.state, GameState::Field);
    a.frame_with(FrameInput { moved: true, ..input() }, quiet_rolls());
    assert_eq!(a.state, GameState::Field);
}

#[test]
fn test_talking_to_king_again() {
    let mut a = Adventure::new();
    a.state = GameState::Field;
    a.dialog_index = 4;
    a.frame_with(FrameInput { near_king: true, space: true, ..input() }, quiet_rolls());
    assert_eq!(a.state, GameState::Dialog);
    assert_eq!(a.script, Script::Reminder);
    assert_eq!(a.dialog_index, 0);
    // the king's call wins over a monster met in the same frame
    let mut b = Adventure::new();
    b.state = GameState::Field;
    b.frame_with(FrameInput { moved: true, near_king: true, space: true, ..input() }, Rolls { encounter: 1, kind: 0, damage: 0 });
    assert_eq!(b.state, GameState::Dialog);
    assert_eq!(b.enemy.kind, EnemyKind::FloatingSlime);
}

#[test]
fn test_strike_and_enemy_turn() {
    let mut a = in_battle(EnemyKind::FloatingSlime);
    assert!(!a.timing_bar_running());
    assert_eq!(a.frame_with(FrameInput { space: true, ..input() }, quiet_rolls()), Cue::ResetTimingBar);
    assert!(a.attack_phase);
    assert!(a.timing_bar_running());
    assert_eq!(a.message, Notice::Prompt);
    assert_eq!(
        a.frame_with(FrameInput { space: true, strike: StrikeQuality::Critical, ..input() }, quiet_rolls()),
        Cue::StartEnemyDelay
    );
    assert_eq!(a.enemy.hp, 0);
    assert_eq!(a.message, Notice::CriticalHit(20));
    assert!(!a.is_player_turn);
    assert!(!a.enemy_turn_pending());
    a.frame_with(input(), quiet_rolls());
    assert_eq!(a.message, Notice::Victory(EnemyKind::FloatingSlime));
    a.frame_with(FrameInput { space: true, ..input() }, quiet_rolls());
    assert_eq!(a.state, GameState::Field);
}

#[test]
fn test_enemy_attack_roll() {
    let mut a = in_battle(EnemyKind::AntigravityBat);
    a.frame_with(FrameInput { space: true, ..input() }, quiet_rolls());
    a.frame_with(FrameInput { space: true, strike: StrikeQuality::Hit, ..input() }, quiet_rolls());
    assert_eq!(a.enemy.hp, 20);
    assert_eq!(a.message, Notice::Hit(10));
    assert!(a.enemy_turn_pending());
    a.frame_with(input(), quiet_rolls());
    assert_eq!(a.player.hp, 50);
    a.frame_with(FrameInput { enemy_ready: true, ..input() }, Rolls { encounter: 0, kind: 0, damage: 2 });
    assert_eq!(a.player.hp, 40);
    assert_eq!(a.message, Notice::EnemyStrikes(EnemyKind::AntigravityBat, 10));
    assert!(a.is_player_turn);
    a.frame_with(FrameInput { space: true, ..input() }, quiet_rolls());
    a.frame_with(FrameInput { space: true, strike: StrikeQuality::Miss, ..input() }, quiet_rolls());
    assert_eq!(a.message, Notice::Miss);
    assert_eq!(a.enemy.hp, 20);
}

#[test]
fn test_defeat_and_recovery() {
    let mut a = in_battle(EnemyKind::FloatingSlime);
    a.player.hp = 0;
    assert_eq!(a.frame_with(input(), quiet_rolls()), Cue::Nothing);
    assert_eq!(a.message, Notice::Defeated);
    assert_eq!(a.state, GameState::Battle);
    assert_eq!(a.frame_with(FrameInput { space: true, ..input() }, quiet_rolls()), Cue::ReturnHome);
    assert_eq!(a.state, GameState::Field);
    assert_eq!(a.player.hp, 50);
}

#[test]
fn test_damage_formulas() {
    assert_eq!(strike_damage(10, StrikeQuality::Critical), 20);
    assert_eq!(strike_damage(10, StrikeQuality::Hit), 10);
    assert_eq!(strike_damage(10, StrikeQuality::Miss), 0);
    assert_eq!(enemy_damage(5, -2), 3);
    assert_eq!(enemy_damage(8, 2), 10);
    assert_eq!(enemy_damage(0, -2), 1);
    assert_eq!(enemy_damage(1, 0), 1);
}

#[test]
fn test_frame_draws_rolls_in_range() {
    // walking for long enough meets a monster; the enemy's blows stay within its range
    let mut a = Adventure::new();
    a.state = GameState::Field;
    let mut steps = 0;
    while a.state == GameState::Field && steps < 100_000 {
        a.frame(FrameInput { moved: true, ..input() });
        steps += 1;
    }
    assert_eq!(a.state, GameState::Battle);
    assert!(a.enemy.kind == EnemyKind::FloatingSlime || a.enemy.kind == EnemyKind::AntigravityBat);
    a.frame(FrameInput { space: true, ..input() });
    a.frame(FrameInput { space: true, strike: StrikeQuality::Miss, ..input() });
    let before = a.player.hp;
    a.frame(FrameInput { enemy_ready: true, ..input() });
    let dealt = before - a.player.hp;
    assert!(dealt >= a.enemy.attack - 2 && dealt <= a.enemy.attack + 2);
}

#[test]
fn test_victory_keeps_hero_alive_in_field() {
    let mut a = in_battle(EnemyKind::FloatingSlime);
    a.player.hp = 3;
    a.enemy.hp = 0;
    a.frame_with(FrameInput { space: true, ..input() }, quiet_rolls());
    assert_eq!(a.state, GameState::Field);
    assert!(a.player.hp > 0);
}
