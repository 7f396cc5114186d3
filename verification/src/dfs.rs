//! An exhaustive solver: depth-first backtracking over the states of a game,
//! bounded in depth and time, which never enters a state twice.

use crate::clock::{expired, now, seconds, whole_seconds};
use crate::game::{arrival, playable, steps, EndState, State};
use std::collections::HashSet;
use std::time::Duration;
use std::time::Instant;
use vstd::prelude::*;

verus! {

/// The path can be played from `m` and ends in a won game.
pub open spec fn wins<S: State>(m: S::Model, path: Seq<S::Step>) -> bool {
    playable::<S>(m, path) && S::status(arrival::<S>(m, path)) == Some(EndState::Win)
}

/// The search succeeds whatever the clock says: the game is won already,
/// the depth allows a path, and no time limit is set.
pub open spec fn won_at_once<S: State>(
    m: S::Model,
    max_depth: Option<usize>,
    max_search_time: Option<Duration>,
) -> bool {
    S::status(m) == Some(EndState::Win) && max_depth != Some(0usize) && max_search_time is None
}

/// A winning path goes on being one when the move that leads to its start
/// is put in front of it.
pub proof fn wins_after_move<S: State>(m: S::Model, action: S::Step, path: Seq<S::Step>)
    requires
        S::status(m) is None,
        S::options(m).contains(action),
        wins::<S>(S::outcome(m, action), path),
    ensures
        wins::<S>(m, seq![action] + path),
{
    let line = seq![action] + path;
    assert(line[0] == action);
    assert(line.drop_first() == path);
}

/// Searches below `state`, which lies `depth` moves into the search and at
/// the end of `path`. On success `path` is extended to a winning path; on
/// failure it is as before. The branch is given up at the depth limit;
/// below it the clock is read, and `enter` says what follows from its
/// answer.
fn backtrack<S: State + Clone>(
    state: &S,
    path: &mut Vec<S::Action>,
    cache: &mut HashSet<S>,
    depth: usize,
    search_start_time: &Instant,
    max_depth: usize,
    max_search_time: &Option<Duration>,
) -> (found: bool)
    requires
        S::valid(state.model()),
        old(path).len() == depth,
    ensures
        found ==> final(path).len() < max_depth && final(path).len() >= depth && final(path)@.take(
            depth as int,
        ) == old(path)@ && wins::<S>(state.model(), steps::<S>(final(path)@.skip(depth as int))),
        !found ==> final(path)@ == old(path)@,
        depth >= max_depth ==> !found && final(cache)@ == old(cache)@,
    decreases max_depth - depth, 2int,
{
    if depth >= max_depth {
        return false;
    }
    let late = expired(search_start_time, max_search_time);
    enter(state, path, cache, depth, search_start_time, max_depth, max_search_time, late)
}

/// What the search does in a state within the depth limit, once the clock
/// has said whether the time is up (`late`): if it is, the branch is given
/// up, and neither the path nor the set of entered states changes.
/// Otherwise the set is asked whether the state is new to it, and `expand`
/// says what follows from its answer.
pub fn enter<S: State + Clone>(
    state: &S,
    path: &mut Vec<S::Action>,
    cache: &mut HashSet<S>,
    depth: usize,
    search_start_time: &Instant,
    max_depth: usize,
    max_search_time: &Option<Duration>,
    late: bool,
) -> (found: bool)
    requires
        S::valid(state.model()),
        old(path).len() == depth,
        depth < max_depth,
    ensures
        found ==> final(path).len() < max_depth && final(path).len() >= depth && final(path)@.take(
            depth as int,
        ) == old(path)@ && wins::<S>(state.model(), steps::<S>(final(path)@.skip(depth as int))),
        !found ==> final(path)@ == old(path)@,
        late ==> !found && final(cache)@ == old(cache)@,
    decreases max_depth - depth, 1int,
{
    if late {
        return false;
    }
    // If the insert returns `false`, the state was entered before.
    let fresh = cache.insert(state.clone());
    expand(state, path, cache, depth, search_start_time, max_depth, max_search_time, fresh)
}

/// What the search does in a state that depth and time let it enter, once
/// the set of entered states has said whether the state is new to it
/// (`fresh`):
/// - a state that was entered before is left at once;
/// - a won game ends the search, with the path as it is;
/// - a lost game is left;
/// - otherwise the moves on offer are tried in their order, and the first
///   that leads to a win stays on the path.
pub fn expand<S: State + Clone>(
    state: &S,
    path: &mut Vec<S::Action>,
    cache: &mut HashSet<S>,
    depth: usize,
    search_start_time: &Instant,
    max_depth: usize,
    max_search_time: &Option<Duration>,
    fresh: bool,
) -> (found: bool)
    requires
        S::valid(state.model()),
        old(path).len() == depth,
        depth < max_depth,
    ensures
        found ==> final(path).len() < max_depth && final(path).len() >= depth && final(path)@.take(
            depth as int,
        ) == old(path)@ && wins::<S>(state.model(), steps::<S>(final(path)@.skip(depth as int))),
        !found ==> final(path)@ == old(path)@,
        !fresh ==> !found,
        fresh && S::status(state.model()) == Some(EndState::Win) ==> found && final(path)@ == old(
            path,
        )@,
        fresh && S::status(state.model()) == Some(EndState::Loss) ==> !found,
    decreases max_depth - depth, 0int,
{
    let ghost m = state.model();
    let ghost stem = path@;
    if !fresh {
        return false;
    }
    match state.end_status() {
        Some(EndState::Win) => {
            assert(path@.take(depth as int) == stem);
            assert(steps::<S>(path@.skip(depth as int)) =~= Seq::empty());
            return true;
        },
        Some(EndState::Loss) => {
            return false;
        },
        None => {},
    }
    let mut actions = state.possible_actions();
    let ghost all = S::options(m);
    let ghost mut tried: int = 0;
    assert(all.skip(0) == all);
    while actions.len() > 0
        invariant
            fresh,
            m == state.model(),
            S::valid(m),
            S::status(m) is None,
            all == S::options(m),
            0 <= tried <= all.len(),
            tried + actions.len() == all.len(),
            steps::<S>(actions@) == all.skip(tried),
            path@ == stem,
            stem == old(path)@,
            stem.len() == depth,
            depth < max_depth,
        decreases actions.len(),
    {
        let ghost rest = actions@;
        let mv = actions.remove(0);
        proof {
            assert(steps::<S>(rest)[0] == S::step(&mv));
            assert(all.skip(tried)[0] == all[tried]);
            assert(actions@ =~= rest.skip(1));
            assert(steps::<S>(rest.skip(1)) =~= steps::<S>(rest).skip(1));
            assert(all.skip(tried).skip(1) =~= all.skip(tried + 1));
            tried = tried + 1;
        }
        let next_state = state.act(&mv);
        let ghost action = S::step(&mv);
        path.push(mv);
        let ghost pushed = path@;
        let found = backtrack(
            &next_state,
            path,
            cache,
            depth + 1,
            search_start_time,
            max_depth,
            max_search_time,
        );
        if found {
            proof {
                let tail = path@.skip(depth + 1);
                assert(path@.take(depth + 1) == pushed);
                assert(path@[depth as int] == path@.take(depth + 1)[depth as int]);
                assert(S::step(&path@[depth as int]) == action);
                assert(path@.take(depth as int) =~= pushed.take(depth as int));
                assert(pushed.take(depth as int) =~= stem);
                assert(steps::<S>(path@.skip(depth as int)) =~= seq![action] + steps::<S>(tail));
                wins_after_move::<S>(m, action, steps::<S>(tail));
            }
            return true;
        }
        path.pop();
        assert(path@ =~= stem);
    }
    false
}

/// Whether the search is over before it starts: the time is not up and the
/// game is won already.
pub fn won_in_time<S: State>(state: &S, late: bool) -> (won: bool)
    requires
        S::valid(state.model()),
    ensures
        won == (!late && S::status(state.model()) == Some(EndState::Win)),
{
    if late {
        false
    } else {
        match state.end_status() {
            Some(EndState::Win) => true,
            _ => false,
        }
    }
}

/// Looks for a winning path from `state` that is shorter than `max_depth`
/// moves, giving up when `max_search_time` has run out.
///
/// A path that is returned can be played from `state` move by move, ends in
/// a won game and is shorter than `max_depth`. For a game that is won
/// already the empty path is returned, unless the depth is 0 or the time is
/// up. Beyond that no path is promised: the search gives up on a branch at
/// the depth limit, when the time has run out, and in a state that it has
/// entered before.
pub fn solve<S: State + Clone>(
    state: &S,
    max_depth: Option<usize>,
    max_search_time: &Option<Duration>,
) -> (solution: Option<Vec<S::Action>>)
    requires
        S::valid(state.model()),
    ensures
        solution matches Some(path) ==> wins::<S>(state.model(), steps::<S>(path@)),
        solution matches Some(path) ==> (max_depth matches Some(limit) ==> path.len() < limit),
        solution matches Some(path) ==> (max_depth is None ==> path.len() < usize::MAX),
        max_depth == Some(0usize) ==> solution is None,
        won_at_once::<S>(state.model(), max_depth, *max_search_time) ==> (solution matches Some(
            path,
        ) && path.len() == 0),
{
    let mut cache: HashSet<S> = HashSet::new();
    let mut path: Vec<S::Action> = Vec::new();
    let search_start_time = now();
    let limit: usize = match max_depth {
        Some(limit) => limit,
        None => usize::MAX,
    };
    if limit == 0 {
        return None;
    }
    // A game that is won already needs no search.
    let late = expired(&search_start_time, max_search_time);
    if won_in_time(state, late) {
        assert(steps::<S>(path@) =~= Seq::empty());
        return Some(path);
    }
    if backtrack(state, &mut path, &mut cache, 0, &search_start_time, limit, max_search_time) {
        assert(path@.skip(0) == path@);
        Some(path)
    } else {
        None
    }
}

/// Depth-first search for a way to win: `solve` on a state of one's own.
pub fn dfs_r<S: State + Clone>(
    state: S,
    max_depth: Option<usize>,
    max_search_time: Option<Duration>,
) -> (solution: Option<Vec<S::Action>>)
    requires
        S::valid(state.model()),
    ensures
        solution matches Some(path) ==> wins::<S>(state.model(), steps::<S>(path@)),
        solution matches Some(path) ==> (max_depth matches Some(limit) ==> path.len() < limit),
        solution matches Some(path) ==> (max_depth is None ==> path.len() < usize::MAX),
        max_depth == Some(0usize) ==> solution is None,
        won_at_once::<S>(state.model(), max_depth, max_search_time) ==> (solution matches Some(
            path,
        ) && path.len() == 0),
{
    solve(&state, max_depth, &max_search_time)
}

/// The time that `optimal_dfs` gives to each of its searches: a minute.
pub fn minute() -> (limit: Option<Duration>)
    ensures
        limit == Some(whole_seconds(60)),
{
    Some(seconds(60))
}

/// Goes on from what a first search has found. Where it found no path,
/// there is none to better. Where it found one, `solve` is asked again and
/// again for a path shorter than the last one found, with `max_search_time`
/// for each search, until it finds none; the last path found is returned,
/// which wins and is no longer than the first.
pub fn improve<S: State + Clone>(
    state: &S,
    first: Option<Vec<S::Action>>,
    max_search_time: &Option<Duration>,
) -> (solution: Option<Vec<S::Action>>)
    requires
        S::valid(state.model()),
        first matches Some(path) ==> wins::<S>(state.model(), steps::<S>(path@)),
    ensures
        first is None ==> solution is None,
        first matches Some(path) ==> (solution matches Some(best) && wins::<S>(
            state.model(),
            steps::<S>(best@),
        ) && best.len() <= path.len()),
{
    match first {
        None => None,
        Some(path) => {
            let ghost longest = path.len();
            let mut best = path;
            loop
                invariant
                    S::valid(state.model()),
                    wins::<S>(state.model(), steps::<S>(best@)),
                    best.len() <= longest,
                decreases best.len(),
            {
                match solve(state, Some(best.len()), max_search_time) {
                    Some(shorter) => {
                        best = shorter;
                    },
                    None => {
                        break ;
                    },
                }
            }
            Some(best)
        },
    }
}

/// Searches for a way to win without a limit of depth, and then again and
/// again for a shorter one, with a minute for each search: `improve` on
/// what `solve` finds first, each with the time limit `minute`. The path
/// that is returned wins; it need not be the shortest there is.
pub fn optimal_dfs<S: State + Clone>(state: S) -> (solution: Option<Vec<S::Action>>)
    requires
        S::valid(state.model()),
    ensures
        solution matches Some(path) ==> wins::<S>(state.model(), steps::<S>(path@)),
{
    let max_search_time = minute();
    let first = solve(&state, Some(usize::MAX), &max_search_time);
    improve(&state, first, &max_search_time)
}

} // verus!
