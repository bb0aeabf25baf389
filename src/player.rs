use vstd::prelude::*;
use crate::components::{Monster, Player, Position};
use crate::map::{GameMap, TileType};
use crate::systems::{damage_monsters, hurt_monsters, monsters_can_take_hits, ATTACK_RANGE};
use crate::turn::RunState;

verus! {

/// A key press as the turn controller sees it.
#[derive(Clone, Copy, Debug, PartialEq, Eq, Structural)]
pub enum Key {
    Left,
    Right,
    Up,
    Down,
    Space,
    Other,
}

pub open spec fn clamp(v: int, lo: int, hi: int) -> int {
    if v < lo {
        lo
    } else if v > hi {
        hi
    } else {
        v
    }
}

/// Where a player at `pos` ends up after trying to move by `(dx, dy)`: if the
/// destination is a wall tile it stays put; otherwise the destination, clamped
/// to the grid.
pub open spec fn moved_position(map: GameMap, pos: Position, dx: int, dy: int) -> Position {
    let nx = pos.x + dx;
    let ny = pos.y + dy;
    if map.in_bounds(nx, ny) && map.tile_at(nx, ny) == TileType::Wall {
        pos
    } else {
        Position {
            x: clamp(nx, 0, map.width - 1) as i32,
            y: clamp(ny, 0, map.height - 1) as i32,
        }
    }
}

/// `players` after each has tried to move by `(dx, dy)`.
pub open spec fn moved_players(
    map: GameMap,
    players: Seq<(Position, Player)>,
    dx: int,
    dy: int,
) -> Seq<(Position, Player)> {
    Seq::new(players.len(), |i: int| (moved_position(map, players[i].0, dx, dy), players[i].1))
}

/// Movement clamps to the grid and respects walls: a move ends inside the grid
/// or where it started; a player on the left edge moving left stays on that
/// edge; a move onto a wall tile leaves the position unchanged.
pub proof fn lemma_movement_clamps_and_respects_walls(map: GameMap, pos: Position, dx: int, dy: int)
    requires
        map.wf(),
    ensures
        map.in_bounds(moved_position(map, pos, dx, dy).x as int, moved_position(map, pos, dx, dy).y as int)
            || moved_position(map, pos, dx, dy) == pos,
        pos.x == 0 && dx == -1 ==> moved_position(map, pos, dx, dy).x == 0,
        map.in_bounds(pos.x + dx, pos.y + dy) && map.tile_at(pos.x + dx, pos.y + dy) == TileType::Wall
            ==> moved_position(map, pos, dx, dy) == pos,
{
}

/// Tries to move every player by `(delta_x, delta_y)`; see `moved_position`.
pub fn try_move_player(delta_x: i32, delta_y: i32, map: &GameMap, players: &mut Vec<(Position, Player)>)
    requires
        map.wf(),
    ensures
        final(players)@ == moved_players(*map, old(players)@, delta_x as int, delta_y as int),
{
    let mut i: usize = 0;
    while i < players.len()
        invariant
            map.wf(),
            i <= players@.len(),
            players@.len() == old(players)@.len(),
            forall|k: int|
                0 <= k < players@.len() ==> #[trigger] players@[k] == (if k < i {
                    moved_players(*map, old(players)@, delta_x as int, delta_y as int)[k]
                } else {
                    old(players)@[k]
                }),
        decreases players@.len() - i,
    {
        let (pos, player) = players[i];
        proof {
            assert(old(players)@[i as int] == (pos, player));
        }
        let nx: i64 = pos.x as i64 + delta_x as i64;
        let ny: i64 = pos.y as i64 + delta_y as i64;
        let blocked = if 0 <= nx && nx < map.width as i64 && 0 <= ny && ny < map.height as i64 {
            let idx = map.xy_idx(nx as i32, ny as i32);
            map.tiles[idx] == TileType::Wall
        } else {
            false
        };
        if !blocked {
            let x: i64 = if nx < 0 {
                0
            } else if nx > map.width as i64 - 1 {
                map.width as i64 - 1
            } else {
                nx
            };
            let y: i64 = if ny < 0 {
                0
            } else if ny > map.height as i64 - 1 {
                map.height as i64 - 1
            } else {
                ny
            };
            players.set(i, (Position { x: x as i32, y: y as i32 }, player));
        }
        i = i + 1;
    }
    assert(players@ =~= moved_players(*map, old(players)@, delta_x as int, delta_y as int));
}

/// Melee: each monster loses one hit point for every player within
/// `ATTACK_RANGE` tiles of it.
pub fn try_attack(players: &Vec<(Position, Player)>, monsters: &mut Vec<(Position, Monster)>)
    requires
        monsters_can_take_hits(players@, old(monsters)@),
    ensures
        final(monsters)@ == hurt_monsters(players@, old(monsters)@, ATTACK_RANGE as int),
{
    damage_monsters(players, monsters, ATTACK_RANGE);
}

/// The run state after a paused tick has read `key`: a movement key or the
/// attack key starts a turn; no key or any other key keeps waiting.
pub open spec fn input_run_state(key: Option<Key>) -> RunState {
    match key {
        Some(Key::Left) | Some(Key::Right) | Some(Key::Up) | Some(Key::Down) | Some(Key::Space) => {
            RunState::Running
        },
        _ => RunState::Paused,
    }
}

/// The players after reading `key`: a movement key moves them one tile.
pub open spec fn players_after_input(
    key: Option<Key>,
    map: GameMap,
    players: Seq<(Position, Player)>,
) -> Seq<(Position, Player)> {
    match key {
        Some(Key::Left) => moved_players(map, players, -1, 0),
        Some(Key::Right) => moved_players(map, players, 1, 0),
        Some(Key::Up) => moved_players(map, players, 0, -1),
        Some(Key::Down) => moved_players(map, players, 0, 1),
        _ => players,
    }
}

/// The monsters after reading `key`: the attack key hurts those in range.
pub open spec fn monsters_after_input(
    key: Option<Key>,
    players: Seq<(Position, Player)>,
    monsters: Seq<(Position, Monster)>,
) -> Seq<(Position, Monster)> {
    match key {
        Some(Key::Space) => hurt_monsters(players, monsters, ATTACK_RANGE as int),
        _ => monsters,
    }
}

/// Handles one key press while the game waits for input.
pub fn player_input(
    key: Option<Key>,
    map: &GameMap,
    players: &mut Vec<(Position, Player)>,
    monsters: &mut Vec<(Position, Monster)>,
) -> (r: RunState)
    requires
        map.wf(),
        key == Some(Key::Space) ==> monsters_can_take_hits(old(players)@, old(monsters)@),
    ensures
        r == input_run_state(key),
        final(players)@ == players_after_input(key, *map, old(players)@),
        final(monsters)@ == monsters_after_input(key, old(players)@, old(monsters)@),
{
    match key {
        None => RunState::Paused,
        Some(k) => match k {
            Key::Left => {
                try_move_player(-1, 0, map, players);
                RunState::Running
            },
            Key::Right => {
                try_move_player(1, 0, map, players);
                RunState::Running
            },
            Key::Up => {
                try_move_player(0, -1, map, players);
                RunState::Running
            },
            Key::Down => {
                try_move_player(0, 1, map, players);
                RunState::Running
            },
            Key::Space => {
                try_attack(players, monsters);
                RunState::Running
            },
            Key::Other => RunState::Paused,
        },
    }
}

} // verus!
