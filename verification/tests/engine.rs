//! End-to-end behaviour of the search engine on the take-away game.

use boardgameai_rs::nim::NimState;
use boardgameai_rs::node::NodeArena;
use boardgameai_rs::rng::{EntropyRandom, RandomSource, SeededRng};
use boardgameai_rs::scoring::{ilog2, isqrt, uct_score};
use boardgameai_rs::search::{uct_search, SearchConfig, SearchError};
use boardgameai_rs::state::{State, REWARD_UNIT};

#[test]
fn rejects_configuration_without_budget() {
    // Zero iterations and no time budget must be refused, never answered
    // with an arbitrary action.
    let mut arena = NodeArena::new();
    let mut rng = SeededRng::new(7);
    let state = NimState::new(3);
    let config = SearchConfig::with_iterations(0);
    let r = uct_search(&mut arena, &state, &config, &mut rng);
    assert_eq!(r, Err(SearchError::InvalidConfiguration));
    let config = SearchConfig::new(None, None);
    let r = uct_search(&mut arena, &state, &config, &mut rng);
    assert_eq!(r, Err(SearchError::InvalidConfiguration));
    let config = SearchConfig::new(Some(0), Some(0));
    let r = uct_search(&mut arena, &state, &config, &mut rng);
    assert_eq!(r, Err(SearchError::InvalidConfiguration));
}

#[test]
fn rejects_terminal_root() {
    let mut arena = NodeArena::new();
    let mut rng = SeededRng::new(7);
    let state = NimState::new(0);
    let config = SearchConfig::with_iterations(10);
    let r = uct_search(&mut arena, &state, &config, &mut rng);
    assert_eq!(r, Err(SearchError::TerminalRoot));
}

#[test]
fn single_winning_action_after_one_iteration() {
    // One chip: the only legal action takes it and wins on the spot.
    // After one iteration the root has one child with one visit and a
    // whole win, and that action is returned.
    let mut arena = NodeArena::new();
    let mut rng = SeededRng::new(11);
    let state = NimState::new(1);
    let config = SearchConfig::with_iterations(1);
    let r = uct_search(&mut arena, &state, &config, &mut rng);
    assert_eq!(r, Ok(1));
    let root = arena.node_at(0);
    assert_eq!(root.visits, 1);
    assert_eq!(root.children.len(), 1);
    let child = arena.get(root.children[0]);
    assert_eq!(child.visits, 1);
    assert_eq!(child.wins, REWARD_UNIT);
    assert_eq!(child.action, Some(1));
}

#[test]
fn seeded_runs_are_identical() {
    // A fixed position, a fixed seed and a fixed iteration count give two
    // independent runs with the same chosen action and the same visit
    // counts on every root child.
    let run = || {
        let mut arena = NodeArena::new();
        let mut rng = SeededRng::new(42);
        let state = NimState::new(5);
        let config = SearchConfig::with_iterations(200);
        let action = uct_search(&mut arena, &state, &config, &mut rng).unwrap();
        let root = arena.node_at(0);
        let visits: Vec<u64> = root
            .children
            .iter()
            .map(|c| arena.get(*c).visits)
            .collect();
        let actions: Vec<Option<u32>> = root
            .children
            .iter()
            .map(|c| arena.get(*c).action)
            .collect();
        (action, visits, actions)
    };
    let a = run();
    let b = run();
    assert_eq!(a, b);
}

#[test]
fn take_away_game_finds_the_winning_move() {
    // With three chips and moves {1, 2, 3}, taking all three wins at
    // once; a thousand iterations find that move for every seed tried.
    for seed in [1u64, 2, 3, 4, 5] {
        let mut arena = NodeArena::new();
        let mut rng = SeededRng::new(seed);
        let state = NimState::new(3);
        let config = SearchConfig::with_iterations(1000);
        let action = uct_search(&mut arena, &state, &config, &mut rng).unwrap();
        assert_eq!(action, 3, "seed {seed} chose a losing move");
    }
}

#[test]
fn root_visits_match_iteration_count() {
    let mut arena = NodeArena::new();
    let mut rng = SeededRng::new(3);
    let state = NimState::new(4);
    let config = SearchConfig::with_iterations(250);
    uct_search(&mut arena, &state, &config, &mut rng).unwrap();
    assert_eq!(arena.node_at(0).visits, 250);
}

#[test]
fn arena_reuse_leaves_old_trees_untouched() {
    let mut arena = NodeArena::new();
    let mut rng = SeededRng::new(9);
    let state = NimState::new(4);
    let config = SearchConfig::with_iterations(50);
    uct_search(&mut arena, &state, &config, &mut rng).unwrap();
    let len_before = arena.len();
    let first_root_visits = arena.node_at(0).visits;
    uct_search(&mut arena, &state, &config, &mut rng).unwrap();
    assert!(arena.len() > len_before);
    assert_eq!(arena.node_at(0).visits, first_root_visits);
    assert_eq!(arena.node_at(len_before).visits, 50);
}

#[test]
fn time_budget_runs_at_least_one_iteration() {
    let mut arena = NodeArena::new();
    let mut rng = EntropyRandom;
    let state = NimState::new(4);
    let config = SearchConfig::with_time_ms(1);
    let r = uct_search(&mut arena, &state, &config, &mut rng);
    assert!(r.is_ok());
    assert!(arena.node_at(0).visits >= 1);
}

#[test]
fn nim_state_contract() {
    let s = NimState::new(3);
    assert_eq!(s.get_actions(), vec![1, 2, 3]);
    assert_eq!(s.get_action_strings(), vec!["One", "Two", "Three"]);
    assert_eq!(s.get_player_just_moved(), 2);
    let mut s2 = s.clone_state();
    assert!(s2.do_action(3).is_ok());
    assert_eq!(s2.get_actions(), Vec::<u32>::new());
    assert_eq!(s2.get_player_just_moved(), 1);
    assert_eq!(s2.get_result(1), REWARD_UNIT);
    assert_eq!(s2.get_result(2), 0);
    let mut s3 = s.clone_state();
    assert_eq!(
        s3.do_action(4).map_err(|e| e.action),
        Err(4),
        "an illegal action must be rejected"
    );
    assert_eq!(s3.get_actions(), vec![1, 2, 3]);
}

#[test]
fn fixed_point_scoring_formula() {
    // Floor square root and floor base-two logarithm.
    assert_eq!(isqrt(0), 0);
    assert_eq!(isqrt(1), 1);
    assert_eq!(isqrt(15), 3);
    assert_eq!(isqrt(16), 4);
    assert_eq!(isqrt(1_000_000), 1000);
    assert_eq!(ilog2(1), 0);
    assert_eq!(ilog2(2), 1);
    assert_eq!(ilog2(8), 3);
    assert_eq!(ilog2(9), 3);
    // wins/visits + C * sqrt(2 ln(parent) / visits), in thousandths:
    // 500/1 + 1400 * isqrt(2 * 693 * 1000 / 1) / 1000 = 500 + 1647.
    assert_eq!(uct_score(500, 1, 2, 1400), 2147);
    // A pure exploitation check: C = 0.
    assert_eq!(uct_score(750, 3, 10, 0), 250);
}

#[test]
fn seeded_rng_is_reproducible_and_bounded() {
    let mut a = SeededRng::new(1234);
    let mut b = SeededRng::new(1234);
    for bound in 1..50usize {
        let x = a.next_below(bound);
        let y = b.next_below(bound);
        assert_eq!(x, y);
        assert!(x < bound);
    }
}

#[test]
fn entropy_rng_stays_below_bound() {
    // Would fail if the draw handed its bound back unchanged.
    let mut rng = EntropyRandom;
    assert_eq!(rng.next_below(1), 0);
    for _ in 0..100 {
        assert!(rng.next_below(7) < 7);
    }
}

#[test]
fn arena_tracks_untried_actions() {
    let mut arena = NodeArena::new();
    let id = arena.new_node(NimState::new(3));
    let node = arena.get(id);
    assert_eq!(node.untried_actions, vec![1, 2, 3]);
    assert_eq!(node.untried_action_strings.len(), 3);
    assert_eq!(node.parent, None);
    assert_eq!(node.action, None);
    assert_eq!(node.visits, 0);
    assert_eq!(node.wins, 0);
}

#[test]
fn every_untried_action_becomes_at_most_one_child() {
    // After exhausting the search on a tiny game, each root child carries
    // a distinct action, and together with the untried list they cover
    // exactly the three legal root actions.
    let mut arena = NodeArena::new();
    let mut rng = SeededRng::new(5);
    let state = NimState::new(3);
    let config = SearchConfig::with_iterations(100);
    uct_search(&mut arena, &state, &config, &mut rng).unwrap();
    let root = arena.node_at(0);
    let mut covered: Vec<u32> = root.untried_actions.clone();
    for c in root.children.iter() {
        covered.push(arena.get(*c).action.unwrap());
    }
    covered.sort();
    assert_eq!(covered, vec![1, 2, 3]);
}
