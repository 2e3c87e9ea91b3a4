//! The wall: the tiles that have not been drawn.

use super::error::Error;
use super::hai::{decimal_string, decimal_text, lemma_index_injective, Hai, HAI_KINDS};
use super::json::{
    json_model, json_number, json_object, json_object_insert, json_object_new, no_entries,
    JsonModel, JsonObject, json_entries,
};
use vstd::prelude::*;
use vstd::string::*;

verus! {

/// How many players sit at the table. With three players the characters two
/// to eight are not part of the set.
#[derive(Clone, Copy, Debug, PartialEq, Eq, Structural, Hash)]
pub enum PlayerNumber {
    Three,
    Four,
}

/// The tiles left to draw, counted by type.
///
/// # Japanese
/// * Haiyama: 牌山
#[derive(Clone, Copy, Debug, PartialEq, Eq, Hash)]
pub struct Haiyama {
    remaining: [u8; 34],
    player_number: PlayerNumber,
}

/// What a wall holds: for each valid tile the number of copies left, and the
/// number of players the set was made for.
pub struct HaiyamaView {
    pub remaining: Map<Hai, nat>,
    pub player_number: PlayerNumber,
}

/// How many copies of `hai` the set for `player_number` players holds in all.
pub open spec fn supply(player_number: PlayerNumber, hai: Hai) -> nat {
    if !hai.spec_is_valid() {
        0
    } else if player_number == PlayerNumber::Three && (hai matches Hai::Manzu(n) && 2 <= n <= 8) {
        0
    } else {
        4
    }
}

impl HaiyamaView {
    /// The wall before anything is drawn.
    pub open spec fn full(player_number: PlayerNumber) -> HaiyamaView {
        HaiyamaView {
            remaining: Map::new(
                |hai: Hai| hai.spec_is_valid(),
                |hai: Hai| supply(player_number, hai),
            ),
            player_number,
        }
    }

    /// Copies of `hai` left in the wall.
    pub open spec fn count(self, hai: Hai) -> nat {
        if self.remaining.contains_key(hai) {
            self.remaining[hai]
        } else {
            0
        }
    }

    /// The most copies of `hai` the wall can hold.
    pub open spec fn limit(self, hai: Hai) -> nat {
        supply(self.player_number, hai)
    }

    /// The wall with the number of copies of `hai` set to `n`.
    pub open spec fn with_count(self, hai: Hai, n: nat) -> HaiyamaView {
        HaiyamaView { remaining: self.remaining.insert(hai, n), ..self }
    }

    /// Taking one `hai` from the wall. Where none is left, a strict call
    /// fails and a lenient one leaves the wall as it is.
    pub open spec fn discard(self, hai: Hai, strict: bool) -> Result<HaiyamaView, Error> {
        if self.count(hai) > 0 {
            Ok(self.with_count(hai, (self.count(hai) - 1) as nat))
        } else if strict {
            Err(Error::SupplyUnderflow)
        } else {
            Ok(self)
        }
    }

    /// Putting one `hai` back. Where the wall already holds every copy, or the
    /// tile is not part of the set, a strict call fails and a lenient one
    /// leaves the wall as it is.
    pub open spec fn add(self, hai: Hai, strict: bool) -> Result<HaiyamaView, Error> {
        if hai.spec_is_valid() && self.count(hai) < self.limit(hai) {
            Ok(self.with_count(hai, self.count(hai) + 1))
        } else if strict {
            Err(Error::SupplyOverflow)
        } else {
            Ok(self)
        }
    }

    /// Taking `tiles` from the wall one after the other; the first failure
    /// fails the whole.
    pub open spec fn discard_all(self, tiles: Seq<Hai>, strict: bool) -> Result<HaiyamaView, Error>
        decreases tiles.len(),
    {
        if tiles.len() == 0 {
            Ok(self)
        } else {
            match self.discard(tiles[0], strict) {
                Ok(next) => next.discard_all(tiles.skip(1), strict),
                Err(e) => Err(e),
            }
        }
    }

    /// The first `n` tile types, each written with a colon, the number of
    /// copies left and a space.
    pub open spec fn text_upto(self, n: nat) -> Seq<char>
        decreases n,
    {
        if n == 0 {
            Seq::empty()
        } else {
            let hai = Hai::spec_from_index(n - 1);
            self.text_upto((n - 1) as nat) + hai.text() + ":"@ + decimal_text(self.count(hai))
                + " "@
        }
    }

    /// How the wall is written: every tile type with the number of copies left.
    pub open spec fn text(self) -> Seq<char> {
        self.text_upto(HAI_KINDS as nat)
    }

    /// For each of the first `n` tile types, the number of copies left under
    /// the name of the tile.
    pub open spec fn entries_upto(self, n: nat) -> Map<Seq<char>, JsonModel>
        decreases n,
    {
        if n == 0 {
            no_entries()
        } else {
            let hai = Hai::spec_from_index(n - 1);
            self.entries_upto((n - 1) as nat).insert(
                hai.text(),
                JsonModel::Number(self.count(hai) as int),
            )
        }
    }

    /// The wall as a JSON object: for each tile type the number of copies left.
    pub open spec fn json(self) -> JsonModel {
        JsonModel::Object(self.entries_upto(HAI_KINDS as nat))
    }

    /// Putting `tiles` back one after the other; the first failure fails the whole.
    pub open spec fn add_all(self, tiles: Seq<Hai>, strict: bool) -> Result<HaiyamaView, Error>
        decreases tiles.len(),
    {
        if tiles.len() == 0 {
            Ok(self)
        } else {
            match self.add(tiles[0], strict) {
                Ok(next) => next.add_all(tiles.skip(1), strict),
                Err(e) => Err(e),
            }
        }
    }
}

impl View for Haiyama {
    type V = HaiyamaView;

    closed spec fn view(&self) -> HaiyamaView {
        HaiyamaView {
            remaining: Map::new(
                |hai: Hai| hai.spec_is_valid(),
                |hai: Hai| self.remaining[hai.spec_index()] as nat,
            ),
            player_number: self.player_number,
        }
    }
}

impl Haiyama {
    /// A full wall for `player_number` players.
    pub fn new(player_number: PlayerNumber) -> (r: Haiyama)
        ensures
            r@ == HaiyamaView::full(player_number),
    {
        let mut remaining = [4u8;34];
        match player_number {
            PlayerNumber::Three => {
                let mut i: usize = 1;
                while i < 8
                    invariant
                        1 <= i <= 8,
                        forall|j: int| 0 <= j < 34 ==> remaining[j] == if 1 <= j < i {
                            0u8
                        } else {
                            4u8
                        },
                    decreases 8 - i,
                {
                    remaining[i] = 0;
                    i += 1;
                }
            },
            PlayerNumber::Four => {},
        }
        let r = Haiyama { remaining, player_number };
        assert(r@.remaining =~= HaiyamaView::full(player_number).remaining);
        r
    }

    /// The number of players the wall was made for.
    pub fn player_number(&self) -> (r: PlayerNumber)
        ensures
            r == self@.player_number,
    {
        self.player_number
    }

    /// Copies of `hai` left in the wall.
    pub fn count(&self, hai: &Hai) -> (n: u8)
        ensures
            n == self@.count(*hai),
    {
        match hai.index() {
            Some(i) => self.remaining[i],
            None => 0,
        }
    }

    /// The most copies of `hai` this wall can hold.
    pub fn limit(&self, hai: &Hai) -> (n: u8)
        ensures
            n == self@.limit(*hai),
    {
        if !hai.is_valid() {
            0
        } else {
            match (self.player_number, hai) {
                (PlayerNumber::Three, Hai::Manzu(n)) => if 2 <= *n && *n <= 8 {
                    0
                } else {
                    4
                },
                _ => 4,
            }
        }
    }

    /// Writes the wall as [`HaiyamaView::text`] describes.
    pub fn to_string(&self) -> (s: String)
        ensures
            s@ == self@.text(),
    {
        let mut s = String::new();
        let mut i: usize = 0;
        while i < HAI_KINDS
            invariant
                i <= HAI_KINDS,
                s@ == self@.text_upto(i as nat),
            decreases HAI_KINDS - i,
        {
            match Hai::from_index(i) {
                Some(hai) => {
                    s.append(hai.to_string().as_str());
                    s.append(":");
                    s.append(decimal_string(self.remaining[i]).as_str());
                    s.append(" ");
                },
                None => {},
            }
            i += 1;
        }
        s
    }

    /// Builds the JSON object that [`HaiyamaView::json`] describes.
    pub fn to_json(&self) -> (value: serde_json::Value)
        ensures
            json_model(value) == self@.json(),
    {
        let mut object = json_object_new();
        let mut i: usize = 0;
        while i < HAI_KINDS
            invariant
                i <= HAI_KINDS,
                json_entries(object) == self@.entries_upto(i as nat),
            decreases HAI_KINDS - i,
        {
            match Hai::from_index(i) {
                Some(hai) => {
                    json_object_insert(
                        &mut object,
                        hai.to_string().as_str(),
                        json_number(self.remaining[i]),
                    );
                },
                None => {},
            }
            i += 1;
        }
        json_object(object)
    }

    /// Takes one `hai` from the wall, as [`HaiyamaView::discard`] describes.
    pub fn discard(&mut self, hai: &Hai, bound_check: bool) -> (r: Result<(), Error>)
        ensures
            match old(self)@.discard(*hai, bound_check) {
                Ok(next) => r is Ok && final(self)@ == next,
                Err(e) => r == Err::<(), Error>(e) && *final(self) == *old(self),
            },
    {
        match hai.index() {
            Some(i) => {
                if self.remaining[i] > 0 {
                    self.remaining[i] = self.remaining[i] - 1;
                    proof {
                        lemma_index_of_no_other(*hai);
                        let taken = old(self)@.discard(*hai, bound_check).unwrap();
                        assert(self@.remaining =~= taken.remaining);
                    }
                    return Ok(());
                }
            },
            None => {},
        }
        if bound_check {
            Err(Error::SupplyUnderflow)
        } else {
            Ok(())
        }
    }

    /// Puts one `hai` back into the wall, as [`HaiyamaView::add`] describes.
    pub fn add(&mut self, hai: &Hai, bound_check: bool) -> (r: Result<(), Error>)
        ensures
            match old(self)@.add(*hai, bound_check) {
                Ok(next) => r is Ok && final(self)@ == next,
                Err(e) => r == Err::<(), Error>(e) && *final(self) == *old(self),
            },
    {
        let limit = self.limit(hai);
        match hai.index() {
            Some(i) => {
                if self.remaining[i] < limit {
                    self.remaining[i] = self.remaining[i] + 1;
                    proof {
                        lemma_index_of_no_other(*hai);
                        let given = old(self)@.add(*hai, bound_check).unwrap();
                        assert(self@.remaining =~= given.remaining);
                    }
                    return Ok(());
                }
            },
            None => {},
        }
        if bound_check {
            Err(Error::SupplyOverflow)
        } else {
            Ok(())
        }
    }

    /// Takes every tile of `hai_vec` from the wall, as
    /// [`HaiyamaView::discard_all`] describes. A failure leaves the wall as it was.
    pub fn discard_with_vec(&mut self, hai_vec: &Vec<Hai>, bound_check: bool) -> (r: Result<
        (),
        Error,
    >)
        ensures
            match old(self)@.discard_all(hai_vec@, bound_check) {
                Ok(next) => r is Ok && final(self)@ == next,
                Err(e) => r == Err::<(), Error>(e) && *final(self) == *old(self),
            },
    {
        let backup = *self;
        let mut i: usize = 0;
        assert(hai_vec@.skip(0) =~= hai_vec@);
        while i < hai_vec.len()
            invariant
                i <= hai_vec.len(),
                backup == *old(self),
                old(self)@.discard_all(hai_vec@, bound_check) == self@.discard_all(
                    hai_vec@.skip(i as int),
                    bound_check,
                ),
            decreases hai_vec.len() - i,
        {
            proof {
                assert(hai_vec@.skip(i as int)[0] == hai_vec@[i as int]);
                assert(hai_vec@.skip(i as int).skip(1) =~= hai_vec@.skip(i + 1));
            }
            match self.discard(&hai_vec[i], bound_check) {
                Ok(()) => {},
                Err(e) => {
                    *self = backup;
                    return Err(e);
                },
            }
            i += 1;
        }
        Ok(())
    }

    /// Puts every tile of `hai_vec` back into the wall, as
    /// [`HaiyamaView::add_all`] describes. A failure leaves the wall as it was.
    pub fn add_with_vec(&mut self, hai_vec: &Vec<Hai>, bound_check: bool) -> (r: Result<(), Error>)
        ensures
            match old(self)@.add_all(hai_vec@, bound_check) {
                Ok(next) => r is Ok && final(self)@ == next,
                Err(e) => r == Err::<(), Error>(e) && *final(self) == *old(self),
            },
    {
        let backup = *self;
        let mut i: usize = 0;
        assert(hai_vec@.skip(0) =~= hai_vec@);
        while i < hai_vec.len()
            invariant
                i <= hai_vec.len(),
                backup == *old(self),
                old(self)@.add_all(hai_vec@, bound_check) == self@.add_all(
                    hai_vec@.skip(i as int),
                    bound_check,
                ),
            decreases hai_vec.len() - i,
        {
            proof {
                assert(hai_vec@.skip(i as int)[0] == hai_vec@[i as int]);
                assert(hai_vec@.skip(i as int).skip(1) =~= hai_vec@.skip(i + 1));
            }
            match self.add(&hai_vec[i], bound_check) {
                Ok(()) => {},
                Err(e) => {
                    *self = backup;
                    return Err(e);
                },
            }
            i += 1;
        }
        Ok(())
    }
}

/// No other valid tile has the position of `hai`.
proof fn lemma_index_of_no_other(hai: Hai)
    requires
        hai.spec_is_valid(),
    ensures
        forall|other: Hai|
            other.spec_is_valid() && other != hai ==> #[trigger] other.spec_index()
                != hai.spec_index(),
{
    assert forall|other: Hai| other.spec_is_valid() && other != hai implies #[trigger]
        other.spec_index() != hai.spec_index() by {
        if other.spec_index() == hai.spec_index() {
            lemma_index_injective(other, hai);
        }
    }
}

/// Taking no tile leaves the wall as it is.
pub proof fn lemma_discard_none(wall: HaiyamaView, strict: bool)
    ensures
        wall.discard_all(Seq::<Hai>::empty(), strict) == Ok::<HaiyamaView, Error>(wall),
{
}

/// Taking a sequence of one tile is taking that tile.
pub proof fn lemma_discard_one(wall: HaiyamaView, hai: Hai, strict: bool)
    ensures
        wall.discard_all(seq![hai], strict) == wall.discard(hai, strict),
{
    let tiles = seq![hai];
    assert(tiles.skip(1) =~= Seq::<Hai>::empty());
    assert(tiles[0] == hai);
    match wall.discard(hai, strict) {
        Ok(next) => {
            assert(next.discard_all(tiles.skip(1), strict) == Ok::<HaiyamaView, Error>(next));
        },
        Err(_) => {},
    }
}

/// Taking a sequence of two tiles is taking the first and then the second.
pub proof fn lemma_discard_two(wall: HaiyamaView, first: Hai, second: Hai, strict: bool)
    ensures
        wall.discard_all(seq![first, second], strict) == match wall.discard(first, strict) {
            Ok(next) => next.discard(second, strict),
            Err(e) => Err(e),
        },
{
    let tiles = seq![first, second];
    assert(tiles.skip(1) =~= seq![second]);
    assert(tiles[0] == first);
    match wall.discard(first, strict) {
        Ok(next) => {
            lemma_discard_one(next, second, strict);
        },
        Err(_) => {},
    }
}

/// Taking tiles from a wall, or putting tiles back, leaves it a wall for as
/// many players as before.
pub proof fn lemma_player_number_stays(wall: HaiyamaView, tiles: Seq<Hai>, strict: bool)
    ensures
        wall.discard_all(tiles, strict) matches Ok(next) ==> next.player_number
            == wall.player_number,
        wall.add_all(tiles, strict) matches Ok(next) ==> next.player_number == wall.player_number,
    decreases tiles.len(),
{
    if tiles.len() > 0 {
        if let Ok(next) = wall.discard(tiles[0], strict) {
            lemma_player_number_stays(next, tiles.skip(1), strict);
        }
        if let Ok(next) = wall.add(tiles[0], strict) {
            lemma_player_number_stays(next, tiles.skip(1), strict);
        }
    }
}

/// Where a strict call takes all of `tiles`, a lenient call does the same,
/// and the wall then holds of each tile as many copies fewer as `tiles` has of it.
pub proof fn lemma_discard_all_count(wall: HaiyamaView, tiles: Seq<Hai>, strict: bool, hai: Hai)
    requires
        wall.discard_all(tiles, true) is Ok,
    ensures
        wall.discard_all(tiles, strict) == wall.discard_all(tiles, true),
        wall.discard_all(tiles, true).unwrap().count(hai) + tiles.to_multiset().count(hai)
            == wall.count(hai),
        wall.discard_all(tiles, true).unwrap().player_number == wall.player_number,
    decreases tiles.len(),
{
    broadcast use vstd::multiset::group_multiset_axioms;

    if tiles.len() == 0 {
        tiles.to_multiset_ensures();
        assert(tiles =~= Seq::<Hai>::empty());
    } else {
        let next = wall.discard(tiles[0], true).unwrap();
        lemma_discard_all_count(next, tiles.skip(1), strict, hai);
        assert(tiles =~= seq![tiles[0]] + tiles.skip(1));
        vstd::seq_lib::lemma_multiset_commutative(seq![tiles[0]], tiles.skip(1));
        assert(seq![tiles[0]] =~= Seq::<Hai>::empty().push(tiles[0]));
        vstd::seq_lib::to_multiset_build(Seq::<Hai>::empty(), tiles[0]);
        Seq::<Hai>::empty().to_multiset_ensures();
    }
}

} // verus!
