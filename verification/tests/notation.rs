use mahjong::game::{
    GameManager, Hai, Haiyama, Kan, Kazehai, Mentsu, Naku, Operation, PlayerNumber, Sangenpai,
    State, Tehai, TehaiOperation,
};
use serde_json::Value;

fn m(n: u8) -> Hai {
    Hai::Manzu(n)
}

fn p(n: u8) -> Hai {
    Hai::Pinzu(n)
}

fn s(n: u8) -> Hai {
    Hai::Souzu(n)
}

fn strings(items: &[&str]) -> Value {
    Value::Array(items.iter().map(|item| Value::String(item.to_string())).collect())
}

const FULL_WALL: &str = "1m:4 2m:4 3m:4 4m:4 5m:4 6m:4 7m:4 8m:4 9m:4 \
1p:4 2p:4 3p:4 4p:4 5p:4 6p:4 7p:4 8p:4 9p:4 \
1s:4 2s:4 3s:4 4s:4 5s:4 6s:4 7s:4 8s:4 9s:4 \
東:4 南:4 西:4 北:4 白:4 發:4 中:4 ";

#[test]
fn tiles_are_written_with_number_and_suit() {
    assert_eq!(m(1).to_string(), "1m");
    assert_eq!(p(5).to_string(), "5p");
    assert_eq!(s(9).to_string(), "9s");
    assert_eq!(Hai::Kazehai(Kazehai::Ton).to_string(), "東");
    assert_eq!(Hai::Kazehai(Kazehai::Nan).to_string(), "南");
    assert_eq!(Hai::Kazehai(Kazehai::Shaa).to_string(), "西");
    assert_eq!(Hai::Kazehai(Kazehai::Pei).to_string(), "北");
    assert_eq!(Hai::Sangenpai(Sangenpai::Haku).to_string(), "白");
    assert_eq!(Hai::Sangenpai(Sangenpai::Hatsu).to_string(), "發");
    assert_eq!(Hai::Sangenpai(Sangenpai::Chun).to_string(), "中");
}

#[test]
fn numbers_that_no_tile_carries_are_written_in_full() {
    assert_eq!(m(0).to_string(), "0m");
    assert_eq!(p(10).to_string(), "10p");
    assert_eq!(s(47).to_string(), "47s");
    assert_eq!(m(100).to_string(), "100m");
    assert_eq!(m(205).to_string(), "205m");
    assert_eq!(m(255).to_string(), "255m");
    for n in 0..=255u8 {
        assert_eq!(mahjong::game::hai::decimal_string(n), n.to_string());
    }
}

#[test]
fn melds_are_written_tile_by_tile() {
    assert_eq!(Mentsu::Juntsu(m(1), m(2), m(3)).to_string(), "1m2m3m");
    assert_eq!(Mentsu::Koutsu(p(7)).to_string(), "7p7p7p");
    assert_eq!(Mentsu::Kantsu(Hai::Kazehai(Kazehai::Pei)).to_string(), "北北北北");
}

#[test]
fn the_wall_is_written_type_by_type() {
    assert_eq!(Haiyama::new(PlayerNumber::Four).to_string(), FULL_WALL);
    let mut wall = Haiyama::new(PlayerNumber::Three);
    wall.discard(&s(2), true).unwrap();
    let text = wall.to_string();
    assert!(text.starts_with("1m:4 2m:0 3m:0 4m:0 5m:0 6m:0 7m:0 8m:0 9m:4 1p:4 "));
    assert!(text.contains(" 1s:4 2s:3 3s:4 "));
    assert!(text.ends_with("中:4 "));
}

#[test]
fn the_hand_is_written_concealed_tiles_first() {
    let tehai = Tehai {
        juntehai: vec![m(1), m(2), p(3), Hai::Sangenpai(Sangenpai::Chun)],
        fuuro: vec![Mentsu::Koutsu(s(1)), Mentsu::Juntsu(p(4), p(5), p(6))],
    };
    assert_eq!(tehai.to_string(), "1m2m3p中 1s1s1s 4p5p6p");
    assert_eq!(Tehai { juntehai: vec![], fuuro: vec![] }.to_string(), "");
    assert_eq!(Tehai { juntehai: vec![m(1)], fuuro: vec![] }.to_string(), "1m");
}

#[test]
fn a_new_game_is_written_without_hand_and_discards() {
    let game = GameManager::new(PlayerNumber::Four);
    let expected = format!(
        "牌山:\n  {}\n捨て牌の種類:\n  無し\n手牌:\n  Not initialized.\n状態:\n  WaitToInit",
        FULL_WALL
    );
    assert_eq!(game.to_string(), expected);
}

fn a_game_with_discards() -> GameManager {
    let mut game = GameManager::new(PlayerNumber::Four);
    let juntehai =
        vec![m(1), m(1), m(1), m(2), m(3), m(4), m(5), m(6), m(7), m(8), m(9), m(9), m(9), p(5)];
    game.operate(Operation::Tehai(TehaiOperation::Initialize(Tehai { juntehai, fuuro: vec![] })))
        .unwrap();
    game.operate(Operation::Tehai(TehaiOperation::Discard(p(5)))).unwrap();
    game.operate(Operation::Tehai(TehaiOperation::Naku {
        kind: Naku::Pon(Mentsu::Koutsu(m(9))),
        bound_check: true,
    }))
    .unwrap();
    game.operate(Operation::Tehai(TehaiOperation::Discard(m(2)))).unwrap();
    game
}

#[test]
fn a_game_is_written_under_four_headings() {
    let game = a_game_with_discards();
    let wall = FULL_WALL
        .replace(
            "1m:4 2m:4 3m:4 4m:4 5m:4 6m:4 7m:4 8m:4 9m:4",
            "1m:1 2m:3 3m:3 4m:3 5m:3 6m:3 7m:3 8m:3 9m:0",
        )
        .replace("5p:4", "5p:3");
    let expected = format!(
        "牌山:\n  {}\n捨て牌の種類:\n  2m 5p \n手牌:\n  {}\n状態:\n  LackOneHai",
        wall, "1m1m1m3m4m5m6m7m8m9m 9m9m9m"
    );
    assert_eq!(game.to_string(), expected);
}

#[test]
fn states_are_named() {
    assert_eq!(State::WaitToInit.as_str(), "WaitToInit");
    assert_eq!(State::FullHai.as_str(), "FullHai");
    assert_eq!(State::LackOneHai.as_str(), "LackOneHai");
    assert_eq!(State::WaitForRinshanhai.as_str(), "WaitForRinshanhai");
    assert_eq!(State::FullHai.as_str(), format!("{:?}", State::FullHai));
}

#[test]
fn the_wall_as_json_counts_every_tile_type() {
    let mut wall = Haiyama::new(PlayerNumber::Three);
    wall.discard(&s(2), true).unwrap();
    let value = wall.to_json();
    let object = value.as_object().unwrap();
    assert_eq!(object.len(), 34);
    assert_eq!(value["1m"], 4);
    assert_eq!(value["2m"], 0);
    assert_eq!(value["8m"], 0);
    assert_eq!(value["9m"], 4);
    assert_eq!(value["2s"], 3);
    assert_eq!(value["中"], 4);
    assert!(value["2s"].is_u64());
    for i in 0..34 {
        let hai = Hai::from_index(i).unwrap();
        assert_eq!(value[hai.to_string().as_str()], wall.count(&hai));
    }
}

#[test]
fn the_hand_as_json_lists_tiles_and_melds() {
    let tehai = Tehai {
        juntehai: vec![m(1), m(2), p(3)],
        fuuro: vec![Mentsu::Koutsu(s(1)), Mentsu::Juntsu(p(4), p(5), p(6))],
    };
    let mut expected = serde_json::Map::new();
    expected.insert("juntehai".to_string(), strings(&["1m", "2m", "3p"]));
    expected.insert("fuuro".to_string(), strings(&["1s1s1s", "4p5p6p"]));
    assert_eq!(tehai.to_json(), Value::Object(expected));

    let empty = Tehai { juntehai: vec![], fuuro: vec![] }.to_json();
    assert_eq!(empty["juntehai"], Value::Array(vec![]));
    assert_eq!(empty["fuuro"], Value::Array(vec![]));
    assert_eq!(empty.as_object().unwrap().len(), 2);
}

#[test]
fn a_new_game_as_json_says_that_no_hand_is_dealt() {
    let game = GameManager::new(PlayerNumber::Four);
    let value = game.to_json();
    assert_eq!(value.as_object().unwrap().len(), 4);
    assert_eq!(value["tehai"], "Not initialized.");
    assert_eq!(value["state"], "WaitToInit");
    assert_eq!(value["sutehai_type"], Value::Array(vec![]));
    assert_eq!(value["haiyama"], game.haiyama().to_json());
    assert_eq!(value["haiyama"]["5p"], 4);
}

#[test]
fn a_game_as_json_holds_wall_discards_hand_and_state() {
    let game = a_game_with_discards();
    let value = game.to_json();
    let mut expected = serde_json::Map::new();
    expected.insert("haiyama".to_string(), game.haiyama().to_json());
    expected.insert("sutehai_type".to_string(), strings(&["2m", "5p"]));
    expected.insert("tehai".to_string(), game.tehai().unwrap().to_json());
    expected.insert("state".to_string(), Value::String("LackOneHai".to_string()));
    assert_eq!(value, Value::Object(expected));
    assert_eq!(value["haiyama"]["9m"], 0);
    assert_eq!(value["haiyama"]["5p"], 3);
    assert_eq!(
        value["tehai"]["juntehai"],
        strings(&["1m", "1m", "1m", "3m", "4m", "5m", "6m", "7m", "8m", "9m"])
    );
    assert_eq!(value["tehai"]["fuuro"], strings(&["9m9m9m"]));
    assert_eq!(
        value.to_string(),
        serde_json::to_string(&value).unwrap()
    );
}

#[test]
fn a_kan_appears_in_the_json_of_the_hand() {
    let mut game = GameManager::new(PlayerNumber::Four);
    let juntehai =
        vec![m(1), m(1), m(1), m(1), m(3), m(4), m(5), m(6), m(7), m(8), m(9), m(9), m(9), p(5)];
    game.operate(Operation::Tehai(TehaiOperation::Initialize(Tehai { juntehai, fuuro: vec![] })))
        .unwrap();
    game.operate(Operation::Tehai(TehaiOperation::Naku {
        kind: Naku::Kan(Kan::Unknown { kantsu: Mentsu::Kantsu(m(1)), rinshanhai: None }),
        bound_check: true,
    }))
    .unwrap();
    let value = game.to_json();
    assert_eq!(value["state"], "WaitForRinshanhai");
    assert_eq!(value["tehai"]["fuuro"], strings(&["1m1m1m1m"]));
    assert_eq!(value["haiyama"]["1m"], 0);
}
