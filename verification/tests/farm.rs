//! Behaviour of the farming game's data model and farm work.

use boardgameai_rs::agricolaaction::{AgricolaAction, AgricolaTile};
use boardgameai_rs::agricolastate::AgricolaState;
use boardgameai_rs::board::Board;
use boardgameai_rs::farmtile::FarmTile;
use boardgameai_rs::fieldtile::FieldTile;
use boardgameai_rs::majorimprovement::MajorImprovement;
use boardgameai_rs::misc::{Crop, HouseType};
use boardgameai_rs::pasture::Pasture;
use boardgameai_rs::player::Player;
use boardgameai_rs::playermat::PlayerMat;
use boardgameai_rs::state::REWARD_UNIT;

#[test]
fn action_codes_round_trip() {
    for code in 1u32..=55 {
        let a = AgricolaAction::from_u32(code).expect("every code in range names an action");
        assert_eq!(a.to_u32(), code);
    }
    assert!(AgricolaAction::from_u32(0).is_none());
    assert!(AgricolaAction::from_u32(56).is_none());
    assert_eq!(AgricolaAction::from_u32(11), Some(AgricolaAction::Wood));
    assert_eq!(AgricolaAction::from_u32(11).unwrap().name(), "Wood");
}

#[test]
fn field_tile_basics() {
    let empty = FieldTile::new();
    assert_eq!(empty.count(), 0);
    assert!(!empty.is_empty());
    assert!(!empty.is_grain());
    assert!(!empty.is_vegetable());
    assert_eq!(empty.crop(), "     ");
    let grain = FieldTile::new_with_crop(Crop::Grain, 3);
    assert_eq!(grain.count(), 3);
    // Note the inverted sense of `is_empty`: a sown field reports true.
    assert!(grain.is_empty());
    assert!(grain.is_grain());
    assert!(!grain.is_vegetable());
    assert_eq!(grain.crop(), "Grain");
    let veg = FieldTile::new_with_crop(Crop::Vegetable, 2);
    assert!(veg.is_vegetable());
    assert_eq!(veg.crop(), "Veg  ");
}

#[test]
fn farm_tile_work() {
    let mut t = FarmTile::new(3);
    assert!(t.is_empty());
    assert!(t.can_be_fenced());
    t.plow();
    assert!(!t.is_empty());
    assert!(!t.can_be_fenced());
    t.sow_grain();
    assert_eq!(t.field.as_ref().unwrap().count, 3);
    assert!(t.field.as_ref().unwrap().is_grain());
    t.sow_veg();
    assert_eq!(t.field.as_ref().unwrap().count, 2);
    let mut h = FarmTile::new(0);
    h.build_room(HouseType::Wood);
    h.upgrade();
    assert_eq!(h.house, Some(HouseType::Clay));
    h.upgrade();
    assert_eq!(h.house, Some(HouseType::Stone));
    h.upgrade();
    assert_eq!(h.house, Some(HouseType::Stone));
    let mut s = FarmTile::new(1);
    s.stable();
    assert!(s.stable);
    assert!(!s.is_empty());
    assert!(s.can_be_fenced());
}

#[test]
fn pasture_capacity() {
    let p = Pasture::new(vec![0, 1], 1);
    assert_eq!(p.capacity, 6);
    assert_eq!(p.stables, 1);
    assert!(p.kind.is_none());
    let q = Pasture::new(vec![7], 0);
    assert_eq!(q.capacity, 2);
}

#[test]
fn player_mat_layout() {
    let m = PlayerMat::new();
    assert_eq!(m.tiles.len(), 15);
    for (i, t) in m.tiles.iter().enumerate() {
        assert_eq!(t.index, i);
        if i == 5 || i == 10 {
            assert_eq!(t.house, Some(HouseType::Wood));
        } else {
            assert_eq!(t.house, None);
        }
        for n in t.surrounding_tiles.iter() {
            assert!(*n < 15);
        }
    }
    // Corner, edge and centre tiles have two, three and four neighbours.
    assert_eq!(m.tiles[0].surrounding_tiles.len(), 2);
    assert_eq!(m.tiles[1].surrounding_tiles.len(), 3);
    assert_eq!(m.tiles[7].surrounding_tiles.len(), 4);
    assert!(m.current_fences().is_empty());
}

#[test]
fn fencing_a_corner_tile_costs_four_wood() {
    let mut m = PlayerMat::new();
    let spent = m.make_pasture(vec![0], 10);
    assert_eq!(spent, Some(4));
    assert!(m.tiles[0].pasture);
    assert!(m.tiles[0].north_fence);
    assert!(m.tiles[0].south_fence);
    assert!(m.tiles[0].east_fence);
    assert!(m.tiles[0].west_fence);
    // The raised fences are shared with the bordering tiles.
    assert!(m.tiles[1].west_fence);
    assert!(m.tiles[5].north_fence);
    assert_eq!(m.current_fences().len(), 6);
}

#[test]
fn fencing_beyond_the_wood_on_hand_is_refused() {
    let mut m = PlayerMat::new();
    let spent = m.make_pasture(vec![0], 3);
    assert_eq!(spent, None);
    assert!(!m.tiles[0].pasture);
    assert!(m.current_fences().is_empty());
}

#[test]
fn two_adjacent_tiles_share_no_inner_fence() {
    let mut m = PlayerMat::new();
    // Tiles 0 and 1 side by side: 2 * 3 outer sides plus nothing between.
    let spent = m.make_pasture(vec![0, 1], 10);
    assert_eq!(spent, Some(6));
    assert!(m.tiles[0].pasture && m.tiles[1].pasture);
}

#[test]
fn new_player_starts_with_the_documented_farm() {
    let p = Player::new(2);
    assert_eq!(p.food, 2);
    assert_eq!(p.actions, 2);
    assert_eq!(p.total_actions, 2);
    assert_eq!(p.house_type, HouseType::Wood);
    assert!(p.pastures.is_empty());
    assert!(p.improvements.is_empty());
    // Fields 0 (-1), grain 0 (-1), vegetables 0 (-1), sheep 0 (-1),
    // boar 0 (-1), 13 empty tiles (-13), wooden house (0), two family
    // members (+6): -12 points in all. (The cattle bracket is tallied but
    // never added, as the game ships.)
    assert_eq!(p.score(), -12);
}

#[test]
fn room_building_costs() {
    let mut p = Player::new(2);
    assert!(!p.can_build_room());
    p.wood = 5;
    p.reed = 2;
    assert!(p.can_build_room());
    p.pay_for_room();
    assert_eq!(p.wood, 0);
    assert_eq!(p.reed, 2);
    let mut q = Player::new(2);
    q.house_type = HouseType::Stone;
    q.reed = 2;
    q.stone = 7;
    assert!(q.can_build_room());
    q.pay_for_room();
    assert_eq!(q.stone, 2);
}

#[test]
fn build_room_places_a_room_next_to_the_house() {
    let mut p = Player::new(2);
    p.wood = 5;
    p.reed = 2;
    p.build_room();
    assert_eq!(p.wood, 0, "the room must be paid for");
    let rooms = p.player_mat.tiles.iter().filter(|t| t.house.is_some()).count();
    assert_eq!(rooms, 3);
}

#[test]
fn build_stable_spends_one_wood() {
    let mut p = Player::new(2);
    p.wood = 3;
    p.build_stable();
    assert_eq!(p.wood, 2);
    assert_eq!(p.stables, 1);
    assert_eq!(p.player_mat.tiles.iter().filter(|t| t.stable).count(), 1);
    let mut q = Player::new(2);
    q.build_stable();
    assert_eq!(q.stables, 0, "no wood, no stable");
}

#[test]
fn sowing_prefers_vegetables() {
    let mut p = Player::new(2);
    p.sow_veg(0);
    assert!(p.player_mat.tiles[0].field.is_none(), "sowing needs a field");
    p.player_mat.tiles[0].plow();
    p.player_mat.tiles[1].plow();
    p.vegetables = 1;
    p.grains = 1;
    p.sow();
    assert_eq!(p.vegetables, 0);
    assert_eq!(p.grains, 0);
    let veg = p.player_mat.tiles.iter().filter(|t| {
        t.field.as_ref().map(|f| f.is_vegetable()).unwrap_or(false)
    }).count();
    let grain = p.player_mat.tiles.iter().filter(|t| {
        t.field.as_ref().map(|f| f.is_grain()).unwrap_or(false)
    }).count();
    assert_eq!((veg, grain), (1, 1));
}

#[test]
fn renovation_upgrades_every_room() {
    let mut p = Player::new(2);
    p.upgrade_house();
    assert_eq!(p.house_type, HouseType::Clay);
    assert_eq!(p.player_mat.tiles[5].house, Some(HouseType::Clay));
    assert_eq!(p.player_mat.tiles[10].house, Some(HouseType::Clay));
    p.upgrade_house();
    p.upgrade_house();
    assert_eq!(p.house_type, HouseType::Stone);
}

#[test]
fn baking_uses_the_best_oven() {
    let mut p = Player::new(2);
    assert_eq!(p.bake_bread(), 0, "no grain, no bread");
    p.grains = 2;
    assert_eq!(p.bake_bread(), 0, "no oven, no bread");
    p.improvements.push(MajorImprovement::ClayOven);
    assert_eq!(p.bake_bread(), 5);
    assert_eq!(p.grains, 1);
    assert_eq!(p.food, 7);
    let mut q = Player::new(0);
    q.grains = 3;
    q.improvements.push(MajorImprovement::StoneOven);
    assert_eq!(q.bake_bread(), 8);
    assert_eq!(q.grains, 1);
    let mut r = Player::new(0);
    r.grains = 4;
    r.improvements.push(MajorImprovement::Fireplace_2);
    assert_eq!(r.bake_bread(), 8);
    assert_eq!(r.grains, 0);
}

#[test]
fn make_pastures_accounts_for_wood_and_fences() {
    let mut p = Player::new(2);
    p.wood = 12;
    let built = p.make_pastures();
    assert_eq!(built, 12 - p.wood, "every fence costs one wood");
    assert_eq!(p.fences, built);
    assert!(p.fences <= 15);
    assert!(p.pastures.len() <= p.player_mat.tiles.iter().filter(|t| t.pasture).count());
    for pa in p.pastures.iter() {
        for t in pa.tiles.iter() {
            assert!(p.player_mat.tiles[*t].pasture);
        }
    }
}

#[test]
fn board_reveals_round_cards_in_order() {
    let mut b = Board::new();
    assert_eq!(b.tiles.len(), 11);
    assert_eq!(b.future_tiles.len(), 13);
    assert!(b.find_tile(AgricolaTile::MajorImprovement).is_some());
    assert!(b.find_tile(AgricolaTile::Fences).is_none());
    let wood_at = b.find_tile(AgricolaTile::Wood).unwrap();
    assert_eq!(b.tiles[wood_at].1.items, 3);
    b.reset();
    assert_eq!(b.tiles.len(), 12);
    assert!(b.find_tile(AgricolaTile::Sow_BakeBread).is_some());
    assert_eq!(b.tiles[wood_at].1.items, 6, "the wood pile accumulates");
    b.reset();
    assert!(b.find_tile(AgricolaTile::Sheep).is_some());
}

#[test]
fn fresh_game_offers_the_documented_actions() {
    let s = AgricolaState::new(2);
    assert_eq!(s.players.len(), 2);
    assert_eq!(s.players[0].food, 2);
    assert_eq!(s.players[1].food, 3);
    assert_eq!(s.rounds, 1);
    let actions = s.get_actions();
    assert_eq!(actions, vec![
        15, 16, 1,      // build room / build stables
        2,              // starting player and food
        3,              // take grain
        4,              // plow
        5, 19, 20,      // build stable / bake bread
        6, 7, 8, 9,     // day laborer
        11, 12, 13, 14, // wood, clay, reed, fishing
        36, 37, 38, 39, 40, 41, 42, 43, 44, // the improvement stall
    ]);
    assert_eq!(s.get_action_strings().len(), actions.len());
}

#[test]
fn occupied_spaces_offer_nothing() {
    let mut s = AgricolaState::new(2);
    let wood_at = s.board.find_tile(AgricolaTile::Wood).unwrap();
    s.board.tiles[wood_at].1.occupied = Some(0);
    let actions = s.get_actions();
    assert!(!actions.contains(&11));
    assert!(actions.contains(&12));
}

#[test]
fn finished_game_offers_nothing() {
    let mut s = AgricolaState::new(2);
    s.rounds = 15;
    assert!(s.get_actions().is_empty());
}

#[test]
fn tied_farms_both_count_as_winners() {
    let s = AgricolaState::new(2);
    assert_eq!(s.get_result(0), REWARD_UNIT);
    assert_eq!(s.get_result(1), REWARD_UNIT);
}

#[test]
fn better_farm_wins_alone() {
    let mut s = AgricolaState::new(2);
    s.players[0].grains = 4;
    assert_eq!(s.get_result(0), REWARD_UNIT);
    assert_eq!(s.get_result(1), 0);
}

#[test]
fn game_log_records_actions() {
    let mut s = AgricolaState::new(2);
    s.add_action(0, "Wood".to_string());
    assert_eq!(s.actions_taken.len(), 1);
    assert_eq!(s.actions_taken[0], "Wood");
    assert_eq!(s.players[0].actions_taken.last().unwrap(), "Wood");
}

#[test]
fn plowing_grows_a_connected_farm() {
    let mut p = Player::new(2);
    p.plow();
    assert_eq!(p.fields, 1);
    assert_eq!(p.player_mat.tiles.iter().filter(|t| t.field.is_some()).count(), 1);
    p.plow();
    assert_eq!(p.fields, 2);
    assert_eq!(p.player_mat.tiles.iter().filter(|t| t.field.is_some()).count(), 2);
}

#[test]
fn playing_an_action_spends_a_worker_and_passes_the_turn() {
    let mut s = AgricolaState::new(2);
    assert!(s.do_action(11).is_ok(), "taking wood is legal at the start");
    assert_eq!(s.players[0].wood, 3, "three wood lie on the pile at first");
    assert_eq!(s.players[0].actions, 1);
    assert_eq!(s.player_just_moved, 0);
    assert_eq!(s.current_player, 1);
    let wood_at = s.board.find_tile(AgricolaTile::Wood).unwrap();
    assert_eq!(s.board.tiles[wood_at].1.occupied, Some(0));
    assert_eq!(s.board.tiles[wood_at].1.items, 0);
    assert!(!s.get_actions().contains(&11), "an occupied space offers nothing");
    let r = s.do_action(11);
    assert_eq!(r.map_err(|e| e.action), Err(11), "the space is taken");
}

#[test]
fn illegal_action_leaves_the_position_alone() {
    let mut s = AgricolaState::new(2);
    let before_actions = s.get_actions();
    let r = s.do_action(99);
    assert_eq!(r.map_err(|e| e.action), Err(99));
    assert_eq!(s.rounds, 1);
    assert_eq!(s.players[0].actions, 2);
    assert_eq!(s.get_actions(), before_actions);
}

#[test]
fn a_spent_table_ends_the_round() {
    let mut s = AgricolaState::new(2);
    // Two players with two workers each: four moves end round one.
    assert!(s.do_action(11).is_ok());
    assert!(s.do_action(12).is_ok());
    assert!(s.do_action(13).is_ok());
    assert!(s.do_action(14).is_ok());
    assert_eq!(s.rounds, 2);
    assert_eq!(s.players[0].actions, 2, "workers return for the new round");
    assert_eq!(s.players[1].actions, 2);
    assert_eq!(s.board.tiles.len(), 12, "a new round card is revealed");
    let wood_at = s.board.find_tile(AgricolaTile::Wood).unwrap();
    assert_eq!(s.board.tiles[wood_at].1.occupied, None);
    assert_eq!(s.board.tiles[wood_at].1.items, 3, "the swept pile regrows");
}

#[test]
fn the_search_plays_the_farming_game() {
    let mut arena = boardgameai_rs::node::NodeArena::new();
    let mut rng = boardgameai_rs::rng::EntropyRandom;
    let state = AgricolaState::new(2);
    let legal = state.get_actions();
    let config = boardgameai_rs::search::SearchConfig::with_iterations(15);
    let action =
        boardgameai_rs::search::uct_search(&mut arena, &state, &config, &mut rng).unwrap();
    assert!(legal.contains(&action));
    assert_eq!(arena.node_at(0).visits, 15);
}

#[test]
fn buying_the_clay_oven_bakes_at_once() {
    let mut s = AgricolaState::new(2);
    s.players[0].clay = 3;
    s.players[0].stone = 1;
    s.players[0].grains = 1;
    assert!(s.get_actions().contains(&40));
    assert!(s.do_action(40).is_ok());
    assert_eq!(s.players[0].clay, 0);
    assert_eq!(s.players[0].stone, 0);
    assert!(s.players[0].improvements.contains(&MajorImprovement::ClayOven));
    assert_eq!(s.players[0].grains, 0, "the oven bakes the grain at once");
    assert_eq!(s.players[0].food, 2 + 5);
    assert!(!s.get_actions().contains(&40), "a sold card is gone");
}

#[test]
fn farm_positions_evolve_deterministically() {
    // Applying the same actions to two fresh games gives field-for-field
    // identical farms: the rules draw only from their own seeded source.
    let play = || {
        let mut s = AgricolaState::new(2);
        for a in [4u32, 11, 21, 12] {
            let _ = s.do_action(a);
        }
        let fields: Vec<usize> = s.players[0]
            .player_mat
            .tiles
            .iter()
            .enumerate()
            .filter(|(_, t)| t.field.is_some())
            .map(|(i, _)| i)
            .collect();
        let fences: Vec<(usize, bool, bool, bool, bool)> = s.players[0]
            .player_mat
            .tiles
            .iter()
            .enumerate()
            .map(|(i, t)| (i, t.north_fence, t.south_fence, t.east_fence, t.west_fence))
            .collect();
        (fields, fences, s.players[0].wood, s.players[0].fences)
    };
    assert_eq!(play(), play());
}

#[test]
fn seeded_farm_searches_are_identical() {
    // With the engine seeded too, a whole search over the farming game is
    // reproducible run for run.
    let run = || {
        let mut arena = boardgameai_rs::node::NodeArena::new();
        let mut rng = boardgameai_rs::rng::SeededRng::new(21);
        let state = AgricolaState::new(2);
        let config = boardgameai_rs::search::SearchConfig::with_iterations(25);
        let action =
            boardgameai_rs::search::uct_search(&mut arena, &state, &config, &mut rng).unwrap();
        let root = arena.node_at(0);
        let visits: Vec<u64> = root.children.iter().map(|c| arena.get(*c).visits).collect();
        (action, visits)
    };
    assert_eq!(run(), run());
}
