use vstd::prelude::*;
use crate::components::{Monster, Player, Position};
use crate::map::GameMap;
use crate::player::{
    input_run_state, monsters_after_input, player_input, players_after_input, Key,
};
use crate::systems::{
    ai_moved, clean_up_dead, dead_indices, hurt_players, living, monsters_can_step,
    monsters_can_take_hits, players_can_take_hits, MonsterAi, CONTACT_RANGE,
};

verus! {

/// Whose turn it is: `Paused` waits for the player's input, `Running`
/// resolves a game turn.
#[derive(Clone, Copy, Debug, PartialEq, Eq, Structural)]
pub enum RunState {
    Paused,
    Running,
}

/// What one resolved turn leaves behind: some monster moves `moved` allowed by
/// the AI, the contact damage those moves cause, and the death sweep over them.
pub open spec fn turn_resolved(
    players: Seq<(Position, Player)>,
    monsters: Seq<(Position, Monster)>,
    new_players: Seq<(Position, Player)>,
    new_monsters: Seq<(Position, Monster)>,
    dead: Seq<usize>,
) -> bool {
    exists|moved: Seq<(Position, Monster)>|
        #[trigger] ai_moved(players, monsters, moved) && new_players == hurt_players(
            players,
            moved,
            CONTACT_RANGE as int,
        ) && new_monsters == living(moved) && dead == dead_indices(moved)
}

/// The monster AI and the contact damage it causes; the death sweep is left
/// to the caller.
pub fn run_systems(players: &mut Vec<(Position, Player)>, monsters: &mut Vec<(Position, Monster)>)
    requires
        monsters_can_step(old(monsters)@),
        players_can_take_hits(old(players)@, old(monsters)@),
    ensures
        exists|moved: Seq<(Position, Monster)>|
            ai_moved(old(players)@, old(monsters)@, moved) && final(monsters)@ == moved
                && final(players)@ == hurt_players(old(players)@, moved, CONTACT_RANGE as int),
{
    let mut mob = MonsterAi {};
    mob.run(players, monsters);
}

/// One tick of the turn controller. While `Running` it ignores `key`, resolves
/// a turn (`run_systems`, then the death sweep) and then waits for input;
/// while `Paused` it handles `key`.
/// Returns the next run state and the former indices of the monsters removed.
pub fn tick(
    run_state: RunState,
    key: Option<Key>,
    map: &GameMap,
    players: &mut Vec<(Position, Player)>,
    monsters: &mut Vec<(Position, Monster)>,
) -> (r: (RunState, Vec<usize>))
    requires
        map.wf(),
        run_state == RunState::Running ==> monsters_can_step(old(monsters)@) && players_can_take_hits(
            old(players)@,
            old(monsters)@,
        ),
        run_state == RunState::Paused && key == Some(Key::Space) ==> monsters_can_take_hits(
            old(players)@,
            old(monsters)@,
        ),
    ensures
        run_state == RunState::Running ==> r.0 == RunState::Paused && turn_resolved(
            old(players)@,
            old(monsters)@,
            final(players)@,
            final(monsters)@,
            r.1@,
        ),
        run_state == RunState::Paused ==> r.0 == input_run_state(key) && r.1@.len() == 0
            && final(players)@ == players_after_input(key, *map, old(players)@) && final(monsters)@
            == monsters_after_input(key, old(players)@, old(monsters)@),
{
    match run_state {
        RunState::Running => {
            run_systems(players, monsters);
            let ghost moved = monsters@;
            let dead = clean_up_dead(monsters);
            assert(ai_moved(old(players)@, old(monsters)@, moved));
            (RunState::Paused, dead)
        },
        RunState::Paused => {
            let next = player_input(key, map, players, monsters);
            (next, Vec::new())
        },
    }
}

} // verus!
