use mahjong::game::tehai::sort_hai;
use mahjong::game::{
    Error, Hai, Haiyama, Kan, Kazehai, Mentsu, PlayerNumber, Sangenpai, Tehai,
};

fn m(n: u8) -> Hai {
    Hai::Manzu(n)
}

fn p(n: u8) -> Hai {
    Hai::Pinzu(n)
}

fn s(n: u8) -> Hai {
    Hai::Souzu(n)
}

fn ton() -> Hai {
    Hai::Kazehai(Kazehai::Ton)
}

fn chun() -> Hai {
    Hai::Sangenpai(Sangenpai::Chun)
}

#[test]
fn there_are_thirty_four_tile_types() {
    let mut seen = Vec::new();
    for i in 0..34 {
        let hai = Hai::from_index(i).unwrap();
        assert!(hai.is_valid());
        assert_eq!(hai.index(), Some(i));
        assert!(!seen.contains(&hai));
        seen.push(hai);
    }
    assert_eq!(Hai::from_index(34), None);
    assert_eq!(Hai::from_index(usize::MAX), None);
    assert_eq!(Hai::from_index(0), Some(m(1)));
    assert_eq!(Hai::from_index(8), Some(m(9)));
    assert_eq!(Hai::from_index(9), Some(p(1)));
    assert_eq!(Hai::from_index(26), Some(s(9)));
    assert_eq!(Hai::from_index(27), Some(ton()));
    assert_eq!(Hai::from_index(33), Some(chun()));
}

#[test]
fn tiles_outside_the_set_are_not_valid() {
    assert!(!m(0).is_valid());
    assert!(!p(10).is_valid());
    assert!(!s(255).is_valid());
    assert!(m(1).is_valid());
    assert!(s(9).is_valid());
    assert_eq!(m(0).index(), None);
    assert_eq!(p(10).index(), None);
}

#[test]
fn tiles_are_ordered_by_suit_and_number() {
    assert_eq!(m(1).key(), 1);
    assert_eq!(p(1).key(), 257);
    assert_eq!(s(9).key(), 521);
    assert_eq!(ton().key(), 768);
    assert_eq!(Hai::Kazehai(Kazehai::Pei).key(), 771);
    assert_eq!(Hai::Sangenpai(Sangenpai::Haku).key(), 1024);
    assert_eq!(chun().key(), 1026);
    let all: Vec<Hai> = (0..34).map(|i| Hai::from_index(i).unwrap()).collect();
    for pair in all.windows(2) {
        assert!(pair[0].key() < pair[1].key());
    }
    assert!(m(255).key() < p(0).key());
    assert!(p(255).key() < s(0).key());
    assert!(s(255).key() < ton().key());
}

#[test]
fn sorting_puts_tiles_in_ascending_order() {
    let mut tiles = vec![chun(), s(3), m(9), ton(), p(1), m(1), s(3), m(9), p(0)];
    sort_hai(&mut tiles);
    assert_eq!(tiles, vec![m(1), m(9), m(9), p(0), p(1), s(3), s(3), ton(), chun()]);
    let mut none: Vec<Hai> = vec![];
    sort_hai(&mut none);
    assert!(none.is_empty());
    let mut one = vec![p(4)];
    sort_hai(&mut one);
    assert_eq!(one, vec![p(4)]);
}

#[test]
fn runs_triplets_and_quads_are_checked() {
    assert!(Mentsu::Juntsu(m(1), m(2), m(3)).is_valid());
    assert!(Mentsu::Juntsu(s(7), s(8), s(9)).is_valid());
    assert!(!Mentsu::Juntsu(m(8), m(9), m(10)).is_valid());
    assert!(!Mentsu::Juntsu(m(0), m(1), m(2)).is_valid());
    assert!(!Mentsu::Juntsu(m(1), m(3), m(5)).is_valid());
    assert!(!Mentsu::Juntsu(m(3), m(2), m(1)).is_valid());
    assert!(!Mentsu::Juntsu(m(1), p(2), s(3)).is_valid());
    assert!(!Mentsu::Juntsu(
        Hai::Kazehai(Kazehai::Ton),
        Hai::Kazehai(Kazehai::Nan),
        Hai::Kazehai(Kazehai::Shaa)
    )
    .is_valid());
    assert!(Mentsu::Koutsu(chun()).is_valid());
    assert!(!Mentsu::Koutsu(m(0)).is_valid());
    assert!(Mentsu::Kantsu(p(9)).is_valid());
    assert!(!Mentsu::Kantsu(p(10)).is_valid());
}

#[test]
fn a_wall_for_four_holds_four_of_each() {
    let wall = Haiyama::new(PlayerNumber::Four);
    assert_eq!(wall.player_number(), PlayerNumber::Four);
    for i in 0..34 {
        let hai = Hai::from_index(i).unwrap();
        assert_eq!(wall.count(&hai), 4);
        assert_eq!(wall.limit(&hai), 4);
    }
    assert_eq!(wall.count(&m(0)), 0);
    assert_eq!(wall.limit(&m(0)), 0);
}

#[test]
fn a_wall_for_three_lacks_the_middle_characters() {
    let wall = Haiyama::new(PlayerNumber::Three);
    assert_eq!(wall.player_number(), PlayerNumber::Three);
    assert_eq!(wall.count(&m(1)), 4);
    assert_eq!(wall.count(&m(9)), 4);
    for n in 2..=8 {
        assert_eq!(wall.count(&m(n)), 0);
        assert_eq!(wall.limit(&m(n)), 0);
        assert_eq!(wall.count(&p(n)), 4);
        assert_eq!(wall.count(&s(n)), 4);
    }
    assert_eq!(wall.count(&chun()), 4);
}

#[test]
fn the_wall_gives_what_it_holds() {
    let mut wall = Haiyama::new(PlayerNumber::Four);
    for left in [3, 2, 1, 0] {
        assert_eq!(wall.discard(&p(3), true), Ok(()));
        assert_eq!(wall.count(&p(3)), left);
    }
    let empty = wall;
    assert_eq!(wall.discard(&p(3), true), Err(Error::SupplyUnderflow));
    assert_eq!(wall, empty);
    assert_eq!(wall.discard(&p(3), false), Ok(()));
    assert_eq!(wall, empty);
    assert_eq!(wall.discard(&p(0), true), Err(Error::SupplyUnderflow));
    assert_eq!(wall.discard(&p(0), false), Ok(()));
    assert_eq!(wall, empty);
    assert_eq!(wall.count(&p(2)), 4);
    assert_eq!(wall.count(&p(4)), 4);
}

#[test]
fn the_wall_takes_back_what_it_lacks() {
    let mut wall = Haiyama::new(PlayerNumber::Four);
    let full = wall;
    assert_eq!(wall.add(&s(1), true), Err(Error::SupplyOverflow));
    assert_eq!(wall.add(&s(1), false), Ok(()));
    assert_eq!(wall, full);
    wall.discard(&s(1), true).unwrap();
    assert_eq!(wall.add(&s(1), true), Ok(()));
    assert_eq!(wall, full);
    assert_eq!(wall.add(&s(0), true), Err(Error::SupplyOverflow));
    assert_eq!(wall.add(&s(0), false), Ok(()));
    assert_eq!(wall, full);

    let mut three = Haiyama::new(PlayerNumber::Three);
    assert_eq!(three.add(&m(5), true), Err(Error::SupplyOverflow));
    assert_eq!(three.add(&m(5), false), Ok(()));
    assert_eq!(three.count(&m(5)), 0);
}

#[test]
fn a_strict_batch_is_taken_whole_or_not_at_all() {
    let mut wall = Haiyama::new(PlayerNumber::Four);
    assert_eq!(wall.discard_with_vec(&vec![m(1), m(1), p(2), m(1)], true), Ok(()));
    assert_eq!(wall.count(&m(1)), 1);
    assert_eq!(wall.count(&p(2)), 3);
    let before = wall;
    assert_eq!(wall.discard_with_vec(&vec![p(2), m(1), m(1)], true), Err(Error::SupplyUnderflow));
    assert_eq!(wall, before);
    assert_eq!(wall.discard_with_vec(&vec![], true), Ok(()));
    assert_eq!(wall, before);
    assert_eq!(wall.add_with_vec(&vec![m(1), p(2), p(2)], true), Err(Error::SupplyOverflow));
    assert_eq!(wall, before);
    assert_eq!(wall.add_with_vec(&vec![m(1), p(2), m(1), m(1)], true), Ok(()));
    assert_eq!(wall, Haiyama::new(PlayerNumber::Four));
}

#[test]
fn a_lenient_batch_takes_what_there_is() {
    let mut wall = Haiyama::new(PlayerNumber::Four);
    assert_eq!(wall.discard_with_vec(&vec![m(1); 6], false), Ok(()));
    assert_eq!(wall.count(&m(1)), 0);
    assert_eq!(wall.discard_with_vec(&vec![m(1), m(2), m(0)], false), Ok(()));
    assert_eq!(wall.count(&m(2)), 3);
    assert_eq!(wall.add_with_vec(&vec![m(2), m(2), m(1), p(10)], false), Ok(()));
    assert_eq!(wall.count(&m(2)), 4);
    assert_eq!(wall.count(&m(1)), 1);
}

fn hand() -> Tehai {
    Tehai::new(
        vec![m(3), m(1), m(1), m(2), m(1), p(5), p(5), s(7), s(7), s(7), s(7), chun(), chun()],
        vec![],
    )
}

#[test]
fn a_new_hand_is_put_in_order() {
    let tehai = hand();
    assert_eq!(
        tehai.juntehai,
        vec![m(1), m(1), m(1), m(2), m(3), p(5), p(5), s(7), s(7), s(7), s(7), chun(), chun()]
    );
    assert!(tehai.fuuro.is_empty());
    assert_eq!(tehai.count_juntehai(&m(1)), 3);
    assert_eq!(tehai.count_juntehai(&s(7)), 4);
    assert_eq!(tehai.count_juntehai(&ton()), 0);
    assert_eq!(tehai.clone(), tehai);
}

#[test]
fn the_hand_takes_a_tile_at_its_place() {
    let mut tehai = hand();
    tehai.add(p(1));
    assert_eq!(tehai.juntehai[5], p(1));
    assert_eq!(tehai.juntehai.len(), 14);
    tehai.add(m(1));
    assert_eq!(tehai.count_juntehai(&m(1)), 4);
    assert!(tehai.juntehai.windows(2).all(|pair| pair[0].key() <= pair[1].key()));
}

#[test]
fn the_hand_discards_one_copy() {
    let mut tehai = Tehai { juntehai: vec![p(5), m(1), p(5), m(2)], fuuro: vec![] };
    assert_eq!(tehai.discard(&p(5)), Ok(()));
    assert_eq!(tehai.juntehai, vec![m(1), p(5), m(2)]);
    assert_eq!(tehai.discard(&s(1)), Err(Error::TileNotHeld));
    assert_eq!(tehai.juntehai, vec![m(1), p(5), m(2)]);
}

#[test]
fn the_hand_calls_a_run_with_the_two_other_tiles() {
    let run = Mentsu::Juntsu(m(1), m(2), m(3));
    for called in [m(1), m(2), m(3)] {
        let mut tehai = hand();
        let before = tehai.clone();
        assert_eq!(tehai.chii(&run, &called), Ok(()));
        assert_eq!(tehai.fuuro, vec![run]);
        assert_eq!(tehai.juntehai.len(), before.juntehai.len() - 2);
        for other in [m(1), m(2), m(3)] {
            let taken = if other == called { 0 } else { 1 };
            assert_eq!(tehai.count_juntehai(&other) + taken, before.count_juntehai(&other));
        }
    }
    let mut tehai = hand();
    tehai.chii(&run, &m(1)).unwrap();
    assert_eq!(
        tehai.juntehai,
        vec![m(1), m(1), m(1), p(5), p(5), s(7), s(7), s(7), s(7), chun(), chun()]
    );
    let mut tehai = hand();
    let before = tehai.clone();
    assert_eq!(tehai.chii(&run, &m(4)), Err(Error::InvalidMeld));
    assert_eq!(tehai.chii(&Mentsu::Juntsu(m(2), m(3), m(4)), &m(2)), Err(Error::InvalidMeld));
    assert_eq!(tehai.chii(&Mentsu::Koutsu(m(1)), &m(1)), Err(Error::InvalidMeld));
    assert_eq!(tehai.chii(&Mentsu::Juntsu(m(1), m(2), m(4)), &m(4)), Err(Error::InvalidMeld));
    assert_eq!(tehai, before);
}

#[test]
fn the_hand_calls_a_triplet_with_two_copies() {
    let mut tehai = hand();
    assert_eq!(tehai.pon(&Mentsu::Koutsu(p(5))), Ok(()));
    assert_eq!(tehai.fuuro, vec![Mentsu::Koutsu(p(5))]);
    assert_eq!(tehai.count_juntehai(&p(5)), 0);
    assert_eq!(tehai.juntehai.len(), 11);
    let before = tehai.clone();
    assert_eq!(tehai.pon(&Mentsu::Koutsu(m(2))), Err(Error::InvalidMeld));
    assert_eq!(tehai.pon(&Mentsu::Koutsu(ton())), Err(Error::InvalidMeld));
    assert_eq!(tehai.pon(&Mentsu::Kantsu(m(1))), Err(Error::InvalidMeld));
    assert_eq!(tehai, before);
    assert_eq!(tehai.pon(&Mentsu::Koutsu(m(1))), Ok(()));
    assert_eq!(tehai.count_juntehai(&m(1)), 1);
    assert_eq!(tehai.fuuro, vec![Mentsu::Koutsu(p(5)), Mentsu::Koutsu(m(1))]);
}

#[test]
fn the_hand_tells_the_three_kinds_of_kan_apart() {
    let mut tehai = hand();
    let kantsu = Mentsu::Kantsu(s(7));
    assert_eq!(tehai.kan(&kantsu, &None), Ok(Kan::Ankan { kantsu, rinshanhai: None }));
    assert_eq!(tehai.fuuro, vec![kantsu]);
    assert_eq!(tehai.count_juntehai(&s(7)), 0);
    assert_eq!(tehai.juntehai.len(), 9);

    let kantsu = Mentsu::Kantsu(m(1));
    assert_eq!(
        tehai.kan(&kantsu, &Some(p(1))),
        Ok(Kan::Daiminkan { kantsu, rinshanhai: Some(p(1)) })
    );
    assert_eq!(tehai.fuuro, vec![Mentsu::Kantsu(s(7)), kantsu]);
    assert_eq!(tehai.juntehai, vec![m(2), m(3), p(1), p(5), p(5), chun(), chun()]);

    tehai.add(p(5));
    tehai.pon(&Mentsu::Koutsu(p(5))).unwrap();
    assert_eq!(tehai.count_juntehai(&p(5)), 1);
    let kantsu = Mentsu::Kantsu(p(5));
    assert_eq!(tehai.kan(&kantsu, &None), Ok(Kan::Kakan { kantsu, rinshanhai: None }));
    assert_eq!(tehai.fuuro, vec![Mentsu::Kantsu(s(7)), Mentsu::Kantsu(m(1)), kantsu]);
    assert_eq!(tehai.juntehai, vec![m(2), m(3), p(1), chun(), chun()]);
}

#[test]
fn the_hand_refuses_a_kan_it_cannot_form() {
    let mut tehai = hand();
    let before = tehai.clone();
    assert_eq!(tehai.kan(&Mentsu::Kantsu(p(5)), &None), Err(Error::InvalidMeld));
    assert_eq!(tehai.kan(&Mentsu::Kantsu(ton()), &Some(p(1))), Err(Error::InvalidMeld));
    assert_eq!(tehai.kan(&Mentsu::Koutsu(s(7)), &None), Err(Error::InvalidMeld));
    assert_eq!(tehai.kan(&Mentsu::Juntsu(m(1), m(2), m(3)), &None), Err(Error::InvalidMeld));
    assert_eq!(tehai, before);
}

#[test]
fn an_added_kan_replaces_the_first_matching_triplet() {
    let mut tehai = Tehai {
        juntehai: vec![m(1), p(2)],
        fuuro: vec![Mentsu::Koutsu(p(2)), Mentsu::Koutsu(m(1)), Mentsu::Koutsu(m(1))],
    };
    let kantsu = Mentsu::Kantsu(m(1));
    assert_eq!(tehai.kan(&kantsu, &None), Ok(Kan::Kakan { kantsu, rinshanhai: None }));
    assert_eq!(tehai.fuuro, vec![Mentsu::Koutsu(p(2)), kantsu, Mentsu::Koutsu(m(1))]);
    assert_eq!(tehai.juntehai, vec![p(2)]);
}

#[test]
fn every_error_says_what_went_wrong() {
    let all = [
        Error::IllegalOperationForPhase,
        Error::SupplyUnderflow,
        Error::SupplyOverflow,
        Error::InvalidHandInitialization,
        Error::TileNotHeld,
        Error::InvalidMeld,
        Error::InternalInconsistency,
    ];
    for (i, error) in all.iter().enumerate() {
        assert!(!error.message().is_empty());
        for other in &all[i + 1..] {
            assert_ne!(error.message(), other.message());
        }
    }
    assert_eq!(
        Error::InternalInconsistency.message(),
        "Logic error: Tehai currently is not able to kan."
    );
}
