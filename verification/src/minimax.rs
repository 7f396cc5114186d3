//! A move advisor: single-player minimax, deepened step by step within a
//! budget of depth and time.

use crate::clock::{expired, now};
use crate::game::{playable, steps, Score, State};
use std::time::Duration;
use vstd::prelude::*;

verus! {

/// The best worth reachable from `m` within `depth` moves, with the line of
/// play that reaches it: the worth of `m` itself at depth 0 or once the game
/// is over, else the best among the offered actions.
pub open spec fn search<S: State>(m: S::Model, depth: nat) -> (int, Seq<S::Step>)
    decreases depth, S::options(m).len() + 1,
{
    if depth == 0 || S::status(m) is Some {
        (S::worth(m), Seq::empty())
    } else {
        search_among::<S>(m, depth, S::options(m).len())
    }
}

/// The best among the first `n` offered actions: an action replaces an
/// earlier one only if its line is worth strictly more.
pub open spec fn search_among<S: State>(m: S::Model, depth: nat, n: nat) -> (int, Seq<S::Step>)
    decreases depth, n,
{
    if n == 0 || depth == 0 {
        (Score::MIN as int, Seq::empty())
    } else {
        let before = search_among::<S>(m, depth, (n - 1) as nat);
        let action = S::options(m)[n - 1];
        let below = search::<S>(S::outcome(m, action), (depth - 1) as nat);
        if below.0 > before.0 {
            (below.0, seq![action] + below.1)
        } else {
            before
        }
    }
}

/// The advice after `evals` evaluations at the root. The evaluations go
/// through the offered actions once for each depth 1, 2, 3, ...; an action
/// replaces the advice so far if its line is worth at least as much.
pub open spec fn advice<S: State>(m: S::Model, evals: nat) -> (int, Option<S::Step>, Seq<S::Step>)
    decreases evals,
{
    if evals == 0 || S::options(m).len() == 0 {
        (Score::MIN as int, None, Seq::empty())
    } else {
        let before = advice::<S>(m, (evals - 1) as nat);
        let k = evals - 1;
        let action = S::options(m)[k % (S::options(m).len() as int)];
        let below = search::<S>(S::outcome(m, action), (k / (S::options(m).len() as int)) as nat);
        if below.0 >= before.0 {
            (below.0, Some(action), below.1)
        } else {
            before
        }
    }
}

/// The line that a search returns can be played and is no longer than the
/// depth.
pub proof fn search_is_sound<S: State>(m: S::Model, depth: nat)
    requires
        S::valid(m),
    ensures
        playable::<S>(m, search::<S>(m, depth).1),
        search::<S>(m, depth).1.len() <= depth,
    decreases depth, S::options(m).len() + 1,
{
    if !(depth == 0 || S::status(m) is Some) {
        search_among_is_sound::<S>(m, depth, S::options(m).len());
    }
}

/// The same of the best among the first offered actions.
pub proof fn search_among_is_sound<S: State>(m: S::Model, depth: nat, n: nat)
    requires
        S::valid(m),
        S::status(m) is None,
        n <= S::options(m).len(),
    ensures
        playable::<S>(m, search_among::<S>(m, depth, n).1),
        search_among::<S>(m, depth, n).1.len() <= depth,
    decreases depth, n,
{
    if !(n == 0 || depth == 0) {
        search_among_is_sound::<S>(m, depth, (n - 1) as nat);
        let before = search_among::<S>(m, depth, (n - 1) as nat);
        let action = S::options(m)[n - 1];
        let next = S::outcome(m, action);
        S::outcome_is_valid(m, action);
        search_is_sound::<S>(next, (depth - 1) as nat);
        let below = search::<S>(next, (depth - 1) as nat);
        if below.0 > before.0 {
            let line = seq![action] + below.1;
            assert(line.len() > 0);
            assert(line.drop_first() == below.1);
            assert(line[0] == action);
        }
    }
}

/// Minimax for a game of one player: the best worth within `depth` moves
/// and the line of play that reaches it.
pub fn minimax<S: State>(game_state: &S, depth: usize) -> (found: (Score, Vec<S::Action>))
    requires
        S::valid(game_state.model()),
    ensures
        found.0 == search::<S>(game_state.model(), depth as nat).0,
        steps::<S>(found.1@) == search::<S>(game_state.model(), depth as nat).1,
    decreases depth,
{
    let ghost m = game_state.model();
    if depth == 0 {
        return (game_state.evaluate(false), Vec::new());
    }
    if game_state.end_status().is_some() {
        return (game_state.evaluate(false), Vec::new());
    }
    let mut legal_moves = game_state.possible_actions();
    let ghost all = S::options(m);
    let mut max_eval: Score = Score::MIN;
    let mut best_path: Vec<S::Action> = Vec::new();
    let mut tried: usize = 0;
    assert(steps::<S>(legal_moves@) == all);
    let offered: usize = legal_moves.len();
    assert(all.len() == offered);
    assert(all.skip(0) == all);
    while legal_moves.len() > 0
        invariant
            m == game_state.model(),
            S::valid(m),
            depth > 0,
            all == S::options(m),
            tried + legal_moves.len() == all.len(),
            all.len() <= usize::MAX,
            steps::<S>(legal_moves@) == all.skip(tried as int),
            max_eval == search_among::<S>(m, depth as nat, tried as nat).0,
            steps::<S>(best_path@) == search_among::<S>(m, depth as nat, tried as nat).1,
        decreases legal_moves.len(),
    {
        let ghost rest = legal_moves@;
        let action = legal_moves.remove(0);
        proof {
            assert(steps::<S>(rest)[0] == S::step(&action));
            assert(all.skip(tried as int)[0] == all[tried as int]);
            assert(legal_moves@ =~= rest.skip(1));
            assert(steps::<S>(rest.skip(1)) =~= steps::<S>(rest).skip(1));
            assert(all.skip(tried as int).skip(1) =~= all.skip(tried + 1));
        }
        let simulated_state = game_state.act(&action);
        let (eval, mut path) = minimax(&simulated_state, depth - 1);
        if eval > max_eval {
            max_eval = eval;
            let ghost below = path@;
            best_path = Vec::new();
            best_path.push(action);
            best_path.append(&mut path);
            assert(steps::<S>(best_path@) =~= seq![S::step(&action)] + steps::<S>(below));
        }
        tried = tried + 1;
    }
    (max_eval, best_path)
}

/// What `best_move` returns after `evals` evaluations at the root.
pub open spec fn advised<S: State>(m: S::Model, evals: nat) -> Option<(S::Step, Seq<S::Step>)> {
    match advice::<S>(m, evals).1 {
        Some(action) => Some((action, advice::<S>(m, evals).2)),
        None => None,
    }
}

/// The mathematical value of a piece of advice.
pub open spec fn advice_of<S: State>(given: Option<(S::Action, Vec<S::Action>)>) -> Option<
    (S::Step, Seq<S::Step>),
> {
    match given {
        Some((action, line)) => Some((S::step(&action), steps::<S>(line@))),
        None => None,
    }
}

/// What the advisor does once it has evaluated an action at the root and
/// has read the clock: the action replaces the advice so far if its line is
/// worth at least as much, and the search goes on unless the time is up.
pub fn consider<A>(
    best: (Score, Option<A>, Vec<A>),
    action: A,
    score: Score,
    line: Vec<A>,
    late: bool,
) -> (next: ((Score, Option<A>, Vec<A>), bool))
    ensures
        next.0 == if score >= best.0 {
            (score, Some(action), line)
        } else {
            best
        },
        next.1 == !late,
{
    if score >= best.0 {
        ((score, Some(action), line), !late)
    } else {
        (best, !late)
    }
}

/// Chooses a move by minimax, deepening the search from depth 1 up to
/// `max_depth` and stopping when `search_time` has run out.
///
/// - A single offered action is returned at once, with an empty line,
///   whatever the depth and the time.
/// - No advice is given where no action is offered, or where several are
///   and `max_depth` is 0.
/// - Otherwise the advice is the one reached after some number of
///   evaluations at the root, at least one and at most one for each action
///   and depth; without a time limit all of them are made. The clock is read
///   after each evaluation at the root, and `consider` says what follows
///   from its answer.
pub fn best_move<S: State>(
    game_state: &S,
    max_depth: Option<usize>,
    search_time: Option<Duration>,
) -> (given: Option<(S::Action, Vec<S::Action>)>)
    requires
        S::valid(game_state.model()),
    ensures
        ({
            let m = game_state.model();
            let offered = S::options(m).len();
            let deepest = match max_depth {
                Some(d) => d as int,
                None => usize::MAX as int,
            };
            if offered == 1 {
                advice_of::<S>(given) == Some((S::options(m)[0], Seq::<S::Step>::empty()))
            } else if offered == 0 || deepest == 0 {
                given is None
            } else {
                exists|evals: nat|
                    1 <= evals <= offered * deepest && (search_time is None ==> evals == offered
                        * deepest) && advice_of::<S>(given) == #[trigger] advised::<S>(m, evals)
            }
        }),
{
    let ghost m = game_state.model();
    let max_depth: usize = match max_depth {
        Some(d) => d,
        None => usize::MAX,
    };
    let mut first = game_state.possible_actions();
    let ghost all = S::options(m);
    let offered: usize = first.len();
    if offered == 1 {
        let only = first.remove(0);
        return Some((only, Vec::new()));
    }
    if offered == 0 || max_depth == 0 {
        return None;
    }
    let mut best_move: Option<S::Action> = None;
    let mut best_score: Score = Score::MIN;
    let mut best_path: Vec<S::Action> = Vec::new();
    let time = now();
    let mut depth: usize = 1;
    let ghost mut evals: nat = 0;
    let mut legal_moves = first;
    loop
        invariant_except_break
            evals == (depth - 1) * offered,
            steps::<S>(legal_moves@) == all,
            evals >= 1 ==> best_move is Some,
        invariant
            m == game_state.model(),
            S::valid(m),
            all == S::options(m),
            offered == all.len(),
            offered >= 2,
            1 <= depth <= max_depth,
            best_score == advice::<S>(m, evals).0,
            (match best_move {
                Some(action) => Some(S::step(&action)),
                None => None,
            }) == advice::<S>(m, evals).1,
            steps::<S>(best_path@) == advice::<S>(m, evals).2,
        ensures
            1 <= evals <= offered * max_depth,
            search_time is None ==> evals == offered * max_depth,
            (match best_move {
                Some(action) => Some(S::step(&action)),
                None => None,
            }) == advice::<S>(m, evals).1,
            best_move is Some,
            steps::<S>(best_path@) == advice::<S>(m, evals).2,
        decreases max_depth - depth,
    {
        let mut tried: usize = 0;
        let mut out_of_time: bool = false;
        assert(all.skip(0) == all);
        while legal_moves.len() > 0 && !out_of_time
            invariant
                m == game_state.model(),
                S::valid(m),
                all == S::options(m),
                offered == all.len(),
                offered >= 2,
                1 <= depth <= max_depth,
                tried + legal_moves.len() == offered,
                evals == (depth - 1) * offered + tried,
                out_of_time ==> tried >= 1 && search_time is Some,
                steps::<S>(legal_moves@) == all.skip(tried as int),
                best_score == advice::<S>(m, evals).0,
                (match best_move {
                    Some(action) => Some(S::step(&action)),
                    None => None,
                }) == advice::<S>(m, evals).1,
                steps::<S>(best_path@) == advice::<S>(m, evals).2,
                evals >= 1 ==> best_move is Some,
            decreases legal_moves.len() + if out_of_time {
                0int
            } else {
                1int
            },
        {
            let ghost rest = legal_moves@;
            let action = legal_moves.remove(0);
            proof {
                assert(steps::<S>(rest)[0] == S::step(&action));
                assert(all.skip(tried as int)[0] == all[tried as int]);
                assert(legal_moves@ =~= rest.skip(1));
                assert(steps::<S>(rest.skip(1)) =~= steps::<S>(rest).skip(1));
                assert(all.skip(tried as int).skip(1) =~= all.skip(tried + 1));
                assert(evals % (offered as nat) == tried && evals / (offered as nat) == depth - 1)
                    by (nonlinear_arith)
                    requires
                        evals == (depth - 1) * offered + tried,
                        tried < offered,
                        depth >= 1,
                ;
            }
            let simulated_state = game_state.act(&action);
            let (score, path) = minimax(&simulated_state, depth - 1);
            let late = expired(&time, &search_time);
            let ((next_score, next_move, next_path), go_on) = consider(
                (best_score, best_move, best_path),
                action,
                score,
                path,
                late,
            );
            best_score = next_score;
            best_move = next_move;
            best_path = next_path;
            tried = tried + 1;
            proof {
                evals = evals + 1;
            }
            if !go_on {
                out_of_time = true;
            }
        }
        if out_of_time {
            assert(evals <= offered * max_depth) by (nonlinear_arith)
                requires
                    evals <= (depth - 1) * offered + offered,
                    depth <= max_depth,
                    offered >= 0,
            ;
            break ;
        }
        assert(evals == depth * offered) by (nonlinear_arith)
            requires
                evals == (depth - 1) * offered + offered,
        ;
        if depth == max_depth {
            assert(evals == offered * max_depth) by (nonlinear_arith)
                requires
                    evals == depth * offered,
                    depth == max_depth,
            ;
            assert(evals >= 1) by (nonlinear_arith)
                requires
                    evals == depth * offered,
                    depth >= 1,
                    offered >= 2,
            ;
            break ;
        }
        depth = depth + 1;
        legal_moves = game_state.possible_actions();
    }
    match best_move {
        Some(action) => {
            let given = Some((action, best_path));
            assert(advice_of::<S>(given) == advised::<S>(m, evals));
            given
        },
        None => None,
    }
}

} // verus!
