use spriggan::systems::{find_chase_target, move_toward, wander};
use spriggan::{
    adjacent_positions, clean_up_dead, contact_damage, player_input, run_systems, tick,
    try_attack, try_move_player, GameMap, Key, Monster, MonsterAi, Player, PlayerCombat,
    Position, Rect, RunState,
};

fn pos(x: i32, y: i32) -> Position {
    Position { x, y }
}

#[test]
fn test_adjacent_positions() {
    assert!(adjacent_positions(1, Position { x: 1, y: 1 }, Position { x: 1, y: 1 }));
    assert!(adjacent_positions(1, Position { x: 1, y: 1 }, Position { x: 2, y: 2 })); // diagonals work!
    assert!(!adjacent_positions(1, Position { x: 2, y: 8 }, Position { x: 1, y: 1 }))
}

#[test]
fn adjacency_is_symmetric() {
    let points = [pos(0, 0), pos(3, -2), pos(-7, 10), pos(10, 10), pos(1, 1)];
    for within in 0..12 {
        for a in points.iter() {
            for b in points.iter() {
                assert_eq!(adjacent_positions(within, *a, *b), adjacent_positions(within, *b, *a));
            }
        }
    }
    assert!(adjacent_positions(10, pos(0, 0), pos(10, -10)));
    assert!(!adjacent_positions(10, pos(0, 0), pos(11, 0)));
    assert!(adjacent_positions(2, pos(i32::MIN, 0), pos(i32::MIN + 2, 1)));
    assert!(!adjacent_positions(2, pos(i32::MIN, 0), pos(i32::MAX, 0)));
}

#[test]
fn move_toward_takes_axis_of_larger_gap() {
    assert_eq!(move_toward(&pos(5, 5), &pos(9, 6)), pos(6, 5));
    assert_eq!(move_toward(&pos(5, 5), &pos(1, 6)), pos(4, 5));
    assert_eq!(move_toward(&pos(5, 5), &pos(6, 9)), pos(5, 6));
    assert_eq!(move_toward(&pos(5, 5), &pos(6, 1)), pos(5, 4));
    // equal gaps move along x
    assert_eq!(move_toward(&pos(5, 5), &pos(8, 8)), pos(6, 5));
}

#[test]
fn wander_follows_the_roll() {
    assert_eq!(wander(pos(3, 3), 1), pos(4, 3));
    assert_eq!(wander(pos(3, 3), 2), pos(2, 3));
    assert_eq!(wander(pos(3, 3), 3), pos(3, 4));
    assert_eq!(wander(pos(3, 3), 4), pos(3, 2));
}

#[test]
fn chase_target_is_nearest_player_in_range() {
    let players = vec![
        (pos(20, 20), Player { hp: 10 }),
        (pos(14, 10), Player { hp: 10 }),
        (pos(11, 12), Player { hp: 10 }),
        (pos(8, 8), Player { hp: 10 }),
    ];
    assert_eq!(find_chase_target(&players, pos(10, 10)), Some(pos(11, 12)));
    assert_eq!(find_chase_target(&players, pos(40, 40)), None);
    assert_eq!(find_chase_target(&vec![], pos(0, 0)), None);
}

#[test]
fn monster_ai_chases_or_wanders() {
    let mut players = vec![(pos(5, 5), Player { hp: 10 })];
    let mut monsters = vec![(pos(9, 6), Monster { hp: 2 }), (pos(40, 40), Monster { hp: 2 })];
    let mut ai = MonsterAi {};
    ai.run(&mut players, &mut monsters);
    assert_eq!(monsters[0], (pos(8, 6), Monster { hp: 2 }));
    let (p, m) = monsters[1];
    assert_eq!(m, Monster { hp: 2 });
    assert_eq!((p.x - 40).abs() + (p.y - 40).abs(), 1);
    assert_eq!(players[0], (pos(5, 5), Player { hp: 10 }));
}

#[test]
fn monster_ai_contact_damage_after_moves() {
    let mut players = vec![(pos(5, 5), Player { hp: 10 })];
    // moves from (7, 5) to (6, 5): within contact range afterwards
    let mut monsters = vec![(pos(7, 5), Monster { hp: 2 }), (pos(5, 6), Monster { hp: 2 })];
    let mut ai = MonsterAi {};
    ai.run(&mut players, &mut monsters);
    assert_eq!(monsters[0].0, pos(6, 5));
    assert_eq!(monsters[1].0, pos(5, 5));
    assert_eq!(players[0].1.hp, 8);
}

#[test]
fn wandering_picks_more_than_one_direction() {
    let players: Vec<(Position, Player)> = vec![];
    let mut seen = std::collections::HashSet::new();
    for _ in 0..60 {
        let mut monsters = vec![(pos(40, 40), Monster { hp: 2 })];
        let mut ps = players.clone();
        let mut ai = MonsterAi {};
        ai.run(&mut ps, &mut monsters);
        seen.insert((monsters[0].0.x, monsters[0].0.y));
    }
    assert!(seen.len() > 1);
}

#[test]
fn contact_damage_counts_every_adjacent_monster() {
    let mut players = vec![(pos(5, 5), Player { hp: 10 }), (pos(30, 30), Player { hp: 4 })];
    let monsters = vec![
        (pos(5, 5), Monster { hp: 2 }),
        (pos(6, 6), Monster { hp: 2 }),
        (pos(4, 5), Monster { hp: 2 }),
        (pos(7, 5), Monster { hp: 2 }),
    ];
    contact_damage(&mut players, &monsters);
    assert_eq!(players[0], (pos(5, 5), Player { hp: 7 }));
    assert_eq!(players[1], (pos(30, 30), Player { hp: 4 }));
}

#[test]
fn player_combat_counts_shared_tiles_only() {
    let mut players = vec![(pos(5, 5), Player { hp: 10 })];
    let monsters = vec![
        (pos(5, 5), Monster { hp: 2 }),
        (pos(5, 5), Monster { hp: 2 }),
        (pos(6, 5), Monster { hp: 2 }),
    ];
    let mut combat = PlayerCombat {};
    combat.run(&mut players, &monsters);
    assert_eq!(players[0].1.hp, 8);
}

#[test]
fn attack_hits_monsters_within_two_once_per_player() {
    let players = vec![(pos(5, 5), Player { hp: 10 }), (pos(6, 5), Player { hp: 10 })];
    let mut monsters = vec![
        (pos(7, 7), Monster { hp: 5 }),
        (pos(3, 3), Monster { hp: 5 }),
        (pos(9, 5), Monster { hp: 5 }),
    ];
    try_attack(&players, &mut monsters);
    assert_eq!(monsters[0].1.hp, 3);
    assert_eq!(monsters[1].1.hp, 4);
    assert_eq!(monsters[2].1.hp, 5);
}

#[test]
fn death_sweep_removes_exactly_dead_monsters() {
    let mut monsters = vec![
        (pos(1, 1), Monster { hp: 0 }),
        (pos(2, 2), Monster { hp: -1 }),
        (pos(3, 3), Monster { hp: 1 }),
        (pos(4, 4), Monster { hp: 2 }),
    ];
    let dead = clean_up_dead(&mut monsters);
    assert_eq!(dead, vec![0, 1]);
    assert_eq!(monsters, vec![(pos(3, 3), Monster { hp: 1 }), (pos(4, 4), Monster { hp: 2 })]);

    let mut none_dead = vec![(pos(1, 1), Monster { hp: 3 })];
    assert!(clean_up_dead(&mut none_dead).is_empty());
    assert_eq!(none_dead.len(), 1);

    let mut empty: Vec<(Position, Monster)> = vec![];
    assert!(clean_up_dead(&mut empty).is_empty());
}

#[test]
fn movement_clamps_to_the_grid() {
    let map = GameMap::new(80, 50);
    let mut players = vec![(pos(0, 7), Player { hp: 10 })];
    try_move_player(-1, 0, &map, &mut players);
    assert_eq!(players[0].0, pos(0, 7));
    let mut players = vec![(pos(79, 49), Player { hp: 10 })];
    try_move_player(1, 0, &map, &mut players);
    assert_eq!(players[0].0, pos(79, 49));
    try_move_player(0, 1, &map, &mut players);
    assert_eq!(players[0].0, pos(79, 49));
    try_move_player(0, -1, &map, &mut players);
    assert_eq!(players[0].0, pos(79, 48));
}

#[test]
fn movement_is_blocked_by_walls() {
    let mut map = GameMap::new(80, 50);
    assert!(map.place_wall(Rect::new(6, 0, 1, 10)));
    let mut players = vec![(pos(5, 5), Player { hp: 10 })];
    try_move_player(1, 0, &map, &mut players);
    assert_eq!(players[0].0, pos(5, 5));
    try_move_player(0, 1, &map, &mut players);
    assert_eq!(players[0].0, pos(5, 6));
}

#[test]
fn combat_scenario() {
    let map = GameMap::new(80, 50);
    let mut players = vec![(pos(5, 5), Player { hp: 10 })];
    let mut monsters = vec![(pos(6, 6), Monster { hp: 2 })];
    try_attack(&players, &mut monsters);
    assert_eq!(monsters[0].1.hp, 1);
    contact_damage(&mut players, &monsters);
    assert_eq!(players[0].1.hp, 9);
    let state = player_input(Some(Key::Space), &map, &mut players, &mut monsters);
    assert_eq!(state, RunState::Running);
    assert_eq!(monsters[0].1.hp, 0);
    run_systems(&mut players, &mut monsters);
    assert_eq!(monsters.len(), 1);
    assert_eq!(monsters[0].1.hp, 0);
    let dead = clean_up_dead(&mut monsters);
    assert_eq!(dead, vec![0]);
    assert!(monsters.is_empty());
}

#[test]
fn input_without_key_keeps_waiting() {
    let map = GameMap::new(80, 50);
    let mut players = vec![(pos(5, 5), Player { hp: 10 })];
    let mut monsters = vec![(pos(6, 6), Monster { hp: 2 })];
    assert_eq!(player_input(None, &map, &mut players, &mut monsters), RunState::Paused);
    assert_eq!(player_input(Some(Key::Other), &map, &mut players, &mut monsters), RunState::Paused);
    assert_eq!(players[0], (pos(5, 5), Player { hp: 10 }));
    assert_eq!(monsters[0], (pos(6, 6), Monster { hp: 2 }));
    assert_eq!(player_input(Some(Key::Up), &map, &mut players, &mut monsters), RunState::Running);
    assert_eq!(players[0].0, pos(5, 4));
    assert_eq!(player_input(Some(Key::Left), &map, &mut players, &mut monsters), RunState::Running);
    assert_eq!(players[0].0, pos(4, 4));
}

#[test]
fn tick_alternates_between_turn_and_input() {
    let map = GameMap::new(80, 50);
    let mut players = vec![(pos(5, 5), Player { hp: 10 })];
    let mut monsters = vec![(pos(8, 5), Monster { hp: 2 }), (pos(20, 20), Monster { hp: 0 })];

    // a running tick resolves a turn whatever the key
    let (state, dead) = tick(RunState::Running, Some(Key::Space), &map, &mut players, &mut monsters);
    assert_eq!(state, RunState::Paused);
    assert_eq!(dead, vec![1]);
    assert_eq!(monsters, vec![(pos(7, 5), Monster { hp: 2 })]);
    assert_eq!(players[0].1.hp, 10);

    // a paused tick without a key changes nothing
    let (state, dead) = tick(RunState::Paused, None, &map, &mut players, &mut monsters);
    assert_eq!(state, RunState::Paused);
    assert!(dead.is_empty());
    assert_eq!(players[0].0, pos(5, 5));

    // a paused tick with a movement key moves and starts a turn
    let (state, dead) = tick(RunState::Paused, Some(Key::Right), &map, &mut players, &mut monsters);
    assert_eq!(state, RunState::Running);
    assert!(dead.is_empty());
    assert_eq!(players[0].0, pos(6, 5));

    // the monster steps next to the player and hurts it
    let (state, _) = tick(RunState::Running, None, &map, &mut players, &mut monsters);
    assert_eq!(state, RunState::Paused);
    assert_eq!(monsters[0].0, pos(6, 5));
    assert_eq!(players[0].1.hp, 9);
}
