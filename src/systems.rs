use vstd::prelude::*;
use crate::components::{Monster, Player, Position};
use crate::rng::{new_rng, roll_dice};

verus! {

/// Chebyshev radius within which a monster chases a player.
pub const CHASE_RANGE: i32 = 10;

/// Chebyshev radius within which a monster hurts a player.
pub const CONTACT_RANGE: i32 = 1;

/// Chebyshev radius of the player's melee attack.
pub const ATTACK_RANGE: i32 = 2;

pub open spec fn abs_diff(a: int, b: int) -> int {
    if a >= b {
        a - b
    } else {
        b - a
    }
}

/// Chebyshev distance between two positions.
pub open spec fn distance(a: Position, b: Position) -> int {
    let dx = abs_diff(a.x as int, b.x as int);
    let dy = abs_diff(a.y as int, b.y as int);
    if dx >= dy {
        dx
    } else {
        dy
    }
}

/// The two positions are at most `within` tiles apart along each axis.
pub open spec fn within_range(within: int, a: Position, b: Position) -> bool {
    abs_diff(a.x as int, b.x as int) <= within && abs_diff(a.y as int, b.y as int) <= within
}

/// Both coordinates can move one step either way without leaving `i32`.
pub open spec fn can_step(p: Position) -> bool {
    i32::MIN < p.x < i32::MAX && i32::MIN < p.y < i32::MAX
}

/// One step from `from` toward `to`: along x when the x gap is at least the y
/// gap, else along y; up the axis when `from` is below `to` on it, else down.
pub open spec fn step_toward(from: Position, to: Position) -> Position {
    if abs_diff(from.x as int, to.x as int) >= abs_diff(from.y as int, to.y as int) {
        Position { x: (if from.x < to.x { from.x + 1 } else { from.x - 1 }) as i32, y: from.y }
    } else {
        Position { x: from.x, y: (if from.y < to.y { from.y + 1 } else { from.y - 1 }) as i32 }
    }
}

/// The step that a die roll of `roll` (one to four) picks: east, west, south or north.
pub open spec fn wander_step(p: Position, roll: int) -> Position {
    if roll == 1 {
        Position { x: (p.x + 1) as i32, y: p.y }
    } else if roll == 2 {
        Position { x: (p.x - 1) as i32, y: p.y }
    } else if roll == 3 {
        Position { x: p.x, y: (p.y + 1) as i32 }
    } else {
        Position { x: p.x, y: (p.y - 1) as i32 }
    }
}

/// Whether two positions lie within `within` tiles of each other on both axes
/// (Chebyshev distance at most `within`).
pub fn adjacent_positions(within: i32, pos_1: Position, pos_2: Position) -> (r: bool)
    ensures
        r == within_range(within as int, pos_1, pos_2),
{
    let dx: i64 = pos_1.x as i64 - pos_2.x as i64;
    let dy: i64 = pos_1.y as i64 - pos_2.y as i64;
    let adx: i64 = if dx < 0 { -dx } else { dx };
    let ady: i64 = if dy < 0 { -dy } else { dy };
    adx <= within as i64 && ady <= within as i64
}

/// Adjacency is symmetric in its two positions, and a position is within any
/// non-negative range of itself.
pub proof fn lemma_adjacency_symmetric(within: int, p1: Position, p2: Position)
    ensures
        within_range(within, p1, p2) == within_range(within, p2, p1),
        within >= 0 ==> within_range(within, p1, p1),
        within_range(within, p1, p2) <==> distance(p1, p2) <= within,
{
}

/// One step from `first` toward `second`.
pub fn move_toward(first: &Position, second: &Position) -> (r: Position)
    requires
        can_step(*first),
    ensures
        r == step_toward(*first, *second),
{
    let delta_x: i64 = if first.x >= second.x {
        first.x as i64 - second.x as i64
    } else {
        second.x as i64 - first.x as i64
    };
    let delta_y: i64 = if first.y >= second.y {
        first.y as i64 - second.y as i64
    } else {
        second.y as i64 - first.y as i64
    };
    if delta_x >= delta_y {
        if first.x < second.x {
            Position { x: first.x + 1, y: first.y }
        } else {
            Position { x: first.x - 1, y: first.y }
        }
    } else if first.y < second.y {
        Position { x: first.x, y: first.y + 1 }
    } else {
        Position { x: first.x, y: first.y - 1 }
    }
}

/// The wandering step for a die roll of one to four.
pub fn wander(pos: Position, roll: i32) -> (r: Position)
    requires
        can_step(pos),
        1 <= roll <= 4,
    ensures
        r == wander_step(pos, roll as int),
{
    if roll == 1 {
        Position { x: pos.x + 1, y: pos.y }
    } else if roll == 2 {
        Position { x: pos.x - 1, y: pos.y }
    } else if roll == 3 {
        Position { x: pos.x, y: pos.y + 1 }
    } else {
        Position { x: pos.x, y: pos.y - 1 }
    }
}

/// How many of `monsters` stand within `within` tiles of `p`.
pub open spec fn monsters_within(monsters: Seq<(Position, Monster)>, p: Position, within: int) -> nat
    decreases monsters.len(),
{
    if monsters.len() == 0 {
        0
    } else {
        monsters_within(monsters.drop_last(), p, within) + (if within_range(
            within,
            p,
            monsters.last().0,
        ) {
            1nat
        } else {
            0nat
        })
    }
}

/// How many of `players` stand within `within` tiles of `p`.
pub open spec fn players_within(players: Seq<(Position, Player)>, p: Position, within: int) -> nat
    decreases players.len(),
{
    if players.len() == 0 {
        0
    } else {
        players_within(players.drop_last(), p, within) + (if within_range(
            within,
            players.last().0,
            p,
        ) {
            1nat
        } else {
            0nat
        })
    }
}

proof fn lemma_monsters_within_bound(monsters: Seq<(Position, Monster)>, p: Position, within: int)
    ensures
        monsters_within(monsters, p, within) <= monsters.len(),
    decreases monsters.len(),
{
    if monsters.len() > 0 {
        lemma_monsters_within_bound(monsters.drop_last(), p, within);
    }
}

proof fn lemma_players_within_bound(players: Seq<(Position, Player)>, p: Position, within: int)
    ensures
        players_within(players, p, within) <= players.len(),
    decreases players.len(),
{
    if players.len() > 0 {
        lemma_players_within_bound(players.drop_last(), p, within);
    }
}

/// Counts the monsters within `within` tiles of `p`.
pub(crate) fn count_monsters_within(monsters: &Vec<(Position, Monster)>, p: Position, within: i32) -> (r:
    usize)
    ensures
        r == monsters_within(monsters@, p, within as int),
{
    let mut count: usize = 0;
    let mut i: usize = 0;
    while i < monsters.len()
        invariant
            i <= monsters@.len(),
            count == monsters_within(monsters@.take(i as int), p, within as int),
        decreases monsters@.len() - i,
    {
        proof {
            assert(monsters@.take(i as int + 1).drop_last() =~= monsters@.take(i as int));
            lemma_monsters_within_bound(monsters@.take(i as int), p, within as int);
        }
        if adjacent_positions(within, p, monsters[i].0) {
            count = count + 1;
        }
        i = i + 1;
    }
    assert(monsters@.take(i as int) =~= monsters@);
    count
}

/// Counts the players within `within` tiles of `p`.
pub(crate) fn count_players_within(players: &Vec<(Position, Player)>, p: Position, within: i32) -> (r:
    usize)
    ensures
        r == players_within(players@, p, within as int),
{
    let mut count: usize = 0;
    let mut i: usize = 0;
    while i < players.len()
        invariant
            i <= players@.len(),
            count == players_within(players@.take(i as int), p, within as int),
        decreases players@.len() - i,
    {
        proof {
            assert(players@.take(i as int + 1).drop_last() =~= players@.take(i as int));
            lemma_players_within_bound(players@.take(i as int), p, within as int);
        }
        if adjacent_positions(within, players[i].0, p) {
            count = count + 1;
        }
        i = i + 1;
    }
    assert(players@.take(i as int) =~= players@);
    count
}

/// Each player's hit points can drop by one per monster without leaving `i32`.
pub open spec fn players_can_take_hits(
    players: Seq<(Position, Player)>,
    monsters: Seq<(Position, Monster)>,
) -> bool {
    forall|i: int| 0 <= i < players.len() ==> #[trigger] players[i].1.hp - monsters.len() >= i32::MIN
}

/// Each monster's hit points can drop by one per player without leaving `i32`.
pub open spec fn monsters_can_take_hits(
    players: Seq<(Position, Player)>,
    monsters: Seq<(Position, Monster)>,
) -> bool {
    forall|i: int| 0 <= i < monsters.len() ==> #[trigger] monsters[i].1.hp - players.len() >= i32::MIN
}

/// `players` after each has lost one hit point per monster within `within` tiles.
pub open spec fn hurt_players(
    players: Seq<(Position, Player)>,
    monsters: Seq<(Position, Monster)>,
    within: int,
) -> Seq<(Position, Player)> {
    Seq::new(
        players.len(),
        |i: int|
            (
                players[i].0,
                Player { hp: (players[i].1.hp - monsters_within(monsters, players[i].0, within)) as i32 },
            ),
    )
}

/// `monsters` after each has lost one hit point per player within `within` tiles.
pub open spec fn hurt_monsters(
    players: Seq<(Position, Player)>,
    monsters: Seq<(Position, Monster)>,
    within: int,
) -> Seq<(Position, Monster)> {
    Seq::new(
        monsters.len(),
        |i: int|
            (
                monsters[i].0,
                Monster { hp: (monsters[i].1.hp - players_within(players, monsters[i].0, within)) as i32 },
            ),
    )
}

/// Takes one hit point from each player for every monster within `within` tiles.
fn damage_players(players: &mut Vec<(Position, Player)>, monsters: &Vec<(Position, Monster)>, within: i32)
    requires
        players_can_take_hits(old(players)@, monsters@),
    ensures
        final(players)@ == hurt_players(old(players)@, monsters@, within as int),
{
    let mut i: usize = 0;
    while i < players.len()
        invariant
            i <= players@.len(),
            players@.len() == old(players)@.len(),
            players_can_take_hits(old(players)@, monsters@),
            forall|k: int|
                0 <= k < players@.len() ==> #[trigger] players@[k] == (if k < i {
                    hurt_players(old(players)@, monsters@, within as int)[k]
                } else {
                    old(players)@[k]
                }),
        decreases players@.len() - i,
    {
        let (pos, player) = players[i];
        let hits = count_monsters_within(monsters, pos, within);
        proof {
            lemma_monsters_within_bound(monsters@, pos, within as int);
            assert(old(players)@[i as int] == (pos, player));
        }
        players.set(i, (pos, Player { hp: (player.hp as i64 - hits as i64) as i32 }));
        i = i + 1;
    }
    assert(players@ =~= hurt_players(old(players)@, monsters@, within as int));
}

/// Contact damage: each player loses one hit point for every monster within
/// `CONTACT_RANGE` tiles of it, its own tile included.
pub fn contact_damage(players: &mut Vec<(Position, Player)>, monsters: &Vec<(Position, Monster)>)
    requires
        players_can_take_hits(old(players)@, monsters@),
    ensures
        final(players)@ == hurt_players(old(players)@, monsters@, CONTACT_RANGE as int),
{
    damage_players(players, monsters, CONTACT_RANGE);
}

/// Takes one hit point from each monster for every player within `within` tiles.
pub(crate) fn damage_monsters(
    players: &Vec<(Position, Player)>,
    monsters: &mut Vec<(Position, Monster)>,
    within: i32,
)
    requires
        monsters_can_take_hits(players@, old(monsters)@),
    ensures
        final(monsters)@ == hurt_monsters(players@, old(monsters)@, within as int),
{
    let mut i: usize = 0;
    while i < monsters.len()
        invariant
            i <= monsters@.len(),
            monsters@.len() == old(monsters)@.len(),
            monsters_can_take_hits(players@, old(monsters)@),
            forall|k: int|
                0 <= k < monsters@.len() ==> #[trigger] monsters@[k] == (if k < i {
                    hurt_monsters(players@, old(monsters)@, within as int)[k]
                } else {
                    old(monsters)@[k]
                }),
        decreases monsters@.len() - i,
    {
        let (pos, monster) = monsters[i];
        let hits = count_players_within(players, pos, within);
        proof {
            lemma_players_within_bound(players@, pos, within as int);
            assert(old(monsters)@[i as int] == (pos, monster));
        }
        monsters.set(i, (pos, Monster { hp: (monster.hp as i64 - hits as i64) as i32 }));
        i = i + 1;
    }
    assert(monsters@ =~= hurt_monsters(players@, old(monsters)@, within as int));
}

/// Monsters that stand on a player's own tile: each player loses one hit point
/// per monster sharing its tile.
pub struct PlayerCombat {}

impl PlayerCombat {
    pub fn run(&mut self, players: &mut Vec<(Position, Player)>, monsters: &Vec<(Position, Monster)>)
        requires
            players_can_take_hits(old(players)@, monsters@),
        ensures
            final(players)@ == hurt_players(old(players)@, monsters@, 0),
    {
        damage_players(players, monsters, 0);
    }
}

/// The player a monster at `m` chases: the nearest player within
/// `CHASE_RANGE`, the earliest one on a tie; `None` when none is in range.
pub open spec fn chase_target(players: Seq<(Position, Player)>, m: Position) -> Option<Position>
    decreases players.len(),
{
    if players.len() == 0 {
        None
    } else {
        let best = chase_target(players.drop_last(), m);
        let p = players.last().0;
        if within_range(CHASE_RANGE as int, p, m) && (match best {
            None => true,
            Some(b) => distance(p, m) < distance(b, m),
        }) {
            Some(p)
        } else {
            best
        }
    }
}

/// Where a monster at `m` may stand after its move: one step toward its chase
/// target, or else one step in one of the four cardinal directions.
pub open spec fn ai_step_ok(players: Seq<(Position, Player)>, m: Position, next: Position) -> bool {
    match chase_target(players, m) {
        Some(t) => next == step_toward(m, t),
        None => exists|roll: int| 1 <= roll <= 4 && next == #[trigger] wander_step(m, roll),
    }
}

/// `moved` is `monsters` after every monster has made its move.
pub open spec fn ai_moved(
    players: Seq<(Position, Player)>,
    monsters: Seq<(Position, Monster)>,
    moved: Seq<(Position, Monster)>,
) -> bool {
    &&& moved.len() == monsters.len()
    &&& forall|i: int|
        0 <= i < monsters.len() ==> (#[trigger] moved[i]).1 == monsters[i].1 && ai_step_ok(
            players,
            monsters[i].0,
            moved[i].0,
        )
}

/// Every monster can take one step in any direction without leaving `i32`.
pub open spec fn monsters_can_step(monsters: Seq<(Position, Monster)>) -> bool {
    forall|i: int| 0 <= i < monsters.len() ==> can_step(#[trigger] monsters[i].0)
}

/// Chebyshev distance between two positions, as a machine integer.
fn chebyshev(a: Position, b: Position) -> (r: i64)
    ensures
        r == distance(a, b),
{
    let dx: i64 = if a.x >= b.x { a.x as i64 - b.x as i64 } else { b.x as i64 - a.x as i64 };
    let dy: i64 = if a.y >= b.y { a.y as i64 - b.y as i64 } else { b.y as i64 - a.y as i64 };
    if dx >= dy {
        dx
    } else {
        dy
    }
}

/// The position of the player that a monster at `m` chases, if any.
pub fn find_chase_target(players: &Vec<(Position, Player)>, m: Position) -> (r: Option<Position>)
    ensures
        r == chase_target(players@, m),
{
    let mut best: Option<Position> = None;
    let mut best_dist: i64 = 0;
    let mut i: usize = 0;
    while i < players.len()
        invariant
            i <= players@.len(),
            best == chase_target(players@.take(i as int), m),
            best matches Some(b) ==> best_dist == distance(b, m),
        decreases players@.len() - i,
    {
        proof {
            assert(players@.take(i as int + 1).drop_last() =~= players@.take(i as int));
        }
        let p = players[i].0;
        if adjacent_positions(CHASE_RANGE, p, m) {
            let d = chebyshev(p, m);
            let closer = match best {
                None => true,
                Some(_) => d < best_dist,
            };
            if closer {
                best = Some(p);
                best_dist = d;
            }
        }
        i = i + 1;
    }
    assert(players@.take(i as int) =~= players@);
    best
}

/// Moves every monster one step: toward its chase target when a player is in
/// range, else in a random cardinal direction.
fn move_monsters(players: &Vec<(Position, Player)>, monsters: &mut Vec<(Position, Monster)>)
    requires
        monsters_can_step(old(monsters)@),
    ensures
        ai_moved(players@, old(monsters)@, final(monsters)@),
{
    let mut rng = new_rng();
    let mut i: usize = 0;
    while i < monsters.len()
        invariant
            i <= monsters@.len(),
            monsters@.len() == old(monsters)@.len(),
            monsters_can_step(old(monsters)@),
            forall|k: int| i <= k < monsters@.len() ==> #[trigger] monsters@[k] == old(monsters)@[k],
            forall|k: int|
                0 <= k < i ==> (#[trigger] monsters@[k]).1 == old(monsters)@[k].1 && ai_step_ok(
                    players@,
                    old(monsters)@[k].0,
                    monsters@[k].0,
                ),
        decreases monsters@.len() - i,
    {
        let (pos, monster) = monsters[i];
        proof {
            assert(can_step(old(monsters)@[i as int].0));
        }
        let next = match find_chase_target(players, pos) {
            Some(target) => move_toward(&pos, &target),
            None => {
                let roll = roll_dice(&mut rng, 1, 4);
                let next = wander(pos, roll);
                assert(1 <= roll as int <= 4 && next == wander_step(pos, roll as int));
                next
            },
        };
        monsters.set(i, (next, monster));
        i = i + 1;
    }
}

/// The monster AI: every monster moves one step (chasing the nearest player
/// within `CHASE_RANGE`, else wandering at random); then each player loses one
/// hit point for every monster within `CONTACT_RANGE` of it after the moves.
/// Monster moves do not check walls.
pub struct MonsterAi {}

impl MonsterAi {
    pub fn run(&mut self, players: &mut Vec<(Position, Player)>, monsters: &mut Vec<(Position, Monster)>)
        requires
            monsters_can_step(old(monsters)@),
            players_can_take_hits(old(players)@, old(monsters)@),
        ensures
            exists|moved: Seq<(Position, Monster)>|
                ai_moved(old(players)@, old(monsters)@, moved) && final(monsters)@ == moved
                    && final(players)@ == hurt_players(old(players)@, moved, CONTACT_RANGE as int),
    {
        move_monsters(players, monsters);
        contact_damage(players, monsters);
    }
}

/// The monsters that survive the death sweep: those with positive hit points,
/// in their order.
pub open spec fn living(monsters: Seq<(Position, Monster)>) -> Seq<(Position, Monster)>
    decreases monsters.len(),
{
    if monsters.len() == 0 {
        seq![]
    } else {
        let rest = living(monsters.drop_last());
        if monsters.last().1.hp > 0 {
            rest.push(monsters.last())
        } else {
            rest
        }
    }
}

/// The indices, ascending, of the monsters that the death sweep removes.
pub open spec fn dead_indices(monsters: Seq<(Position, Monster)>) -> Seq<usize>
    decreases monsters.len(),
{
    if monsters.len() == 0 {
        seq![]
    } else {
        let rest = dead_indices(monsters.drop_last());
        if monsters.last().1.hp <= 0 {
            rest.push((monsters.len() - 1) as usize)
        } else {
            rest
        }
    }
}

/// The death sweep removes exactly the dead monsters: a monster is kept if and
/// only if its hit points are positive, every removed index names a monster
/// with hit points at most zero, and kept plus removed account for them all.
pub proof fn lemma_sweep_removes_exactly_dead(monsters: Seq<(Position, Monster)>)
    requires
        monsters.len() <= usize::MAX,
    ensures
        forall|e: (Position, Monster)|
            #[trigger] living(monsters).contains(e) <==> (monsters.contains(e) && e.1.hp > 0),
        forall|k: int|
            0 <= k < dead_indices(monsters).len() ==> {
                let d = #[trigger] dead_indices(monsters)[k] as int;
                0 <= d < monsters.len() && monsters[d].1.hp <= 0
            },
        living(monsters).len() + dead_indices(monsters).len() == monsters.len(),
    decreases monsters.len(),
{
    if monsters.len() > 0 {
        let init = monsters.drop_last();
        let last = monsters.last();
        lemma_sweep_removes_exactly_dead(init);
        assert forall|e: (Position, Monster)|
            #[trigger] living(monsters).contains(e) <==> (monsters.contains(e) && e.1.hp > 0) by {
            if monsters.contains(e) {
                let j = choose|j: int| 0 <= j < monsters.len() && monsters[j] == e;
                if j < init.len() {
                    assert(init[j] == e);
                }
            }
            if init.contains(e) {
                let j = choose|j: int| 0 <= j < init.len() && init[j] == e;
                assert(monsters[j] == e);
            }
            if last.1.hp > 0 {
                assert(living(monsters) == living(init).push(last));
                if living(monsters).contains(e) {
                    let j = choose|j: int| 0 <= j < living(monsters).len() && living(monsters)[j] == e;
                    if j < living(init).len() {
                        assert(living(init)[j] == e);
                    }
                }
                if e == last {
                    assert(living(monsters)[living(init).len() as int] == e);
                } else if living(init).contains(e) {
                    let j = choose|j: int| 0 <= j < living(init).len() && living(init)[j] == e;
                    assert(living(monsters)[j] == e);
                }
            }
            assert(monsters[monsters.len() - 1] == last);
        }
        assert forall|k: int| 0 <= k < dead_indices(monsters).len() implies {
            let d = #[trigger] dead_indices(monsters)[k] as int;
            0 <= d < monsters.len() && monsters[d].1.hp <= 0
        } by {
            if last.1.hp <= 0 {
                assert(dead_indices(monsters) == dead_indices(init).push((monsters.len() - 1) as usize));
            } else {
                assert(dead_indices(monsters) == dead_indices(init));
            }
            if k < dead_indices(init).len() {
                let d = dead_indices(init)[k] as int;
                assert(init[d] == monsters[d]);
                assert(dead_indices(monsters)[k] == dead_indices(init)[k]);
            }
        }
    }
}

/// The death sweep: removes every monster whose hit points are zero or less,
/// keeping the others in order, and returns the removed monsters' former
/// indices in ascending order.
pub fn clean_up_dead(monsters: &mut Vec<(Position, Monster)>) -> (dead: Vec<usize>)
    ensures
        final(monsters)@ == living(old(monsters)@),
        dead@ == dead_indices(old(monsters)@),
{
    let mut alive: Vec<(Position, Monster)> = Vec::new();
    let mut dead: Vec<usize> = Vec::new();
    let mut i: usize = 0;
    while i < monsters.len()
        invariant
            i <= monsters@.len(),
            alive@ == living(monsters@.take(i as int)),
            dead@ == dead_indices(monsters@.take(i as int)),
        decreases monsters@.len() - i,
    {
        proof {
            assert(monsters@.take(i as int + 1).drop_last() =~= monsters@.take(i as int));
        }
        let entry = monsters[i];
        if entry.1.hp <= 0 {
            dead.push(i);
        } else {
            alive.push(entry);
        }
        i = i + 1;
    }
    assert(monsters@.take(i as int) =~= monsters@);
    *monsters = alive;
    dead
}

} // verus!
