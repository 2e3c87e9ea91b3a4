//! The hand: concealed tiles and exposed melds.

use super::error::Error;
use super::game_manager::Kan;
use super::hai::{lemma_key_injective, Hai};
use super::json::{
    json_model, json_object, json_object_insert, json_object_new, no_entries, JsonModel,
};
use super::mentsu::Mentsu;
use super::notation::{
    fuuro_json, fuuro_text, fuuro_to_json, fuuro_to_string, tiles_json, tiles_text, tiles_to_json,
    tiles_to_string,
};
use vstd::prelude::*;
use vstd::string::*;
use vstd::relations::{sorted_by, total_ordering};
use vstd::seq_lib::*;

verus! {

/// The order of tiles: by key.
pub open spec fn hai_leq() -> spec_fn(Hai, Hai) -> bool {
    |a: Hai, b: Hai| a.spec_key() <= b.spec_key()
}

/// `tiles` in ascending order.
pub open spec fn sort_tiles(tiles: Seq<Hai>) -> Seq<Hai> {
    tiles.sort_by(hai_leq())
}

/// How many copies of `hai` are among `tiles`.
pub open spec fn count_in(tiles: Seq<Hai>, hai: Hai) -> nat {
    tiles.to_multiset().count(hai)
}

/// `tiles` without the first `n` copies of `hai`, or without all of them if
/// there are fewer.
pub open spec fn take_out(tiles: Seq<Hai>, hai: Hai, n: nat) -> Seq<Hai>
    decreases n,
{
    if n == 0 {
        tiles
    } else {
        take_out(tiles.remove_value(hai), hai, (n - 1) as nat)
    }
}

/// The two tiles that a hand must hold to call `nakihai` into the run
/// `juntsu`, if `juntsu` is a valid run with `nakihai` in it.
pub open spec fn chii_partners(juntsu: Mentsu, nakihai: Hai) -> Option<(Hai, Hai)> {
    match juntsu {
        Mentsu::Juntsu(a, b, c) => if !juntsu.spec_is_valid() {
            None
        } else if nakihai == a {
            Some((b, c))
        } else if nakihai == b {
            Some((a, c))
        } else if nakihai == c {
            Some((a, b))
        } else {
            None
        },
        _ => None,
    }
}

/// How many copies of `hai` are in the melds of `fuuro`.
pub open spec fn count_in_fuuro(fuuro: Seq<Mentsu>, hai: Hai) -> nat
    decreases fuuro.len(),
{
    if fuuro.len() == 0 {
        0
    } else {
        count_in_fuuro(fuuro.drop_last(), hai) + fuuro.last().count(hai)
    }
}

/// A player's hand.
///
/// # Japanese
/// * Tehai: 手牌
/// * juntehai: 純手牌
/// * fuuro: 副露
#[derive(Debug, PartialEq, Eq)]
pub struct Tehai {
    /// The concealed tiles.
    pub juntehai: Vec<Hai>,
    /// The exposed melds, in the order they were made.
    pub fuuro: Vec<Mentsu>,
}

/// What a hand holds.
pub struct TehaiView {
    pub juntehai: Seq<Hai>,
    pub fuuro: Seq<Mentsu>,
}

impl View for Tehai {
    type V = TehaiView;

    open spec fn view(&self) -> TehaiView {
        TehaiView { juntehai: self.juntehai@, fuuro: self.fuuro@ }
    }
}

impl TehaiView {
    /// Copies of `hai` in the hand, concealed and exposed.
    pub open spec fn count(self, hai: Hai) -> nat {
        count_in(self.juntehai, hai) + count_in_fuuro(self.fuuro, hai)
    }

    /// The size of the hand as the rules count it: each concealed tile, and
    /// three for each exposed meld, a quad too.
    pub open spec fn size(self) -> nat {
        self.juntehai.len() + 3 * self.fuuro.len()
    }

    /// How the hand is written: the concealed tiles without gaps, then each
    /// exposed meld after a space.
    pub open spec fn text(self) -> Seq<char> {
        tiles_text(self.juntehai, Seq::empty()) + fuuro_text(self.fuuro)
    }

    /// The hand as a JSON object: the concealed tiles and the exposed melds,
    /// each an array of strings.
    pub open spec fn json(self) -> JsonModel {
        JsonModel::Object(
            no_entries().insert("juntehai"@, tiles_json(self.juntehai)).insert(
                "fuuro"@,
                fuuro_json(self.fuuro),
            ),
        )
    }

    /// The hand with `hai` among its concealed tiles, which are put in order.
    pub open spec fn add(self, hai: Hai) -> TehaiView {
        TehaiView { juntehai: sort_tiles(self.juntehai.push(hai)), ..self }
    }

    /// Discarding `hai`: its first concealed copy leaves the hand.
    pub open spec fn discard(self, hai: Hai) -> Result<TehaiView, Error> {
        if self.juntehai.contains(hai) {
            Ok(TehaiView { juntehai: self.juntehai.remove_value(hai), ..self })
        } else {
            Err(Error::TileNotHeld)
        }
    }

    /// Calling `nakihai` into the run `juntsu`: the two other tiles of the run
    /// leave the concealed tiles, and the run is exposed.
    pub open spec fn chii(self, juntsu: Mentsu, nakihai: Hai) -> Result<TehaiView, Error> {
        match chii_partners(juntsu, nakihai) {
            Some((x, y)) => if self.juntehai.contains(x) && self.juntehai.contains(y) {
                Ok(
                    TehaiView {
                        juntehai: self.juntehai.remove_value(x).remove_value(y),
                        fuuro: self.fuuro.push(juntsu),
                    },
                )
            } else {
                Err(Error::InvalidMeld)
            },
            None => Err(Error::InvalidMeld),
        }
    }

    /// Calling a tile into the triplet `koutsu`: two concealed copies leave
    /// the concealed tiles, and the triplet is exposed.
    pub open spec fn pon(self, koutsu: Mentsu) -> Result<TehaiView, Error> {
        match koutsu {
            Mentsu::Koutsu(hai) => if count_in(self.juntehai, hai) >= 2 {
                Ok(
                    TehaiView {
                        juntehai: take_out(self.juntehai, hai, 2),
                        fuuro: self.fuuro.push(koutsu),
                    },
                )
            } else {
                Err(Error::InvalidMeld)
            },
            _ => Err(Error::InvalidMeld),
        }
    }

    /// The hand with `n` concealed copies of `hai` set aside, and with `fuuro`
    /// as its exposed melds.
    pub open spec fn set_aside(self, hai: Hai, n: nat, fuuro: Seq<Mentsu>) -> TehaiView {
        TehaiView { juntehai: take_out(self.juntehai, hai, n), fuuro }
    }

    /// The hand with the replacement tile, where there is one.
    pub open spec fn replaced(self, rinshanhai: Option<Hai>) -> TehaiView {
        match rinshanhai {
            Some(drawn) => self.add(drawn),
            None => self,
        }
    }

    /// Forming the quad `kantsu`, with the replacement tile if it is known
    /// already. The hand decides of which kind the quad is: four concealed
    /// copies make a concealed quad; else an exposed triplet, the first of
    /// them, and one concealed copy make an added quad; else three concealed
    /// copies make a quad with a tile that another player discarded.
    pub open spec fn kan(self, kantsu: Mentsu, rinshanhai: Option<Hai>) -> Result<
        (TehaiView, Kan),
        Error,
    > {
        match kantsu {
            Mentsu::Kantsu(hai) => {
                let held = count_in(self.juntehai, hai);
                let triplet = self.fuuro.index_of_first(Mentsu::Koutsu(hai));
                if held == 4 {
                    Ok(
                        (
                            self.set_aside(hai, 4, self.fuuro.push(kantsu)).replaced(rinshanhai),
                            Kan::Ankan { kantsu, rinshanhai },
                        ),
                    )
                } else if held >= 1 && triplet is Some {
                    Ok(
                        (
                            self.set_aside(
                                hai,
                                1,
                                self.fuuro.update(triplet.unwrap(), kantsu),
                            ).replaced(rinshanhai),
                            Kan::Kakan { kantsu, rinshanhai },
                        ),
                    )
                } else if held == 3 {
                    Ok(
                        (
                            self.set_aside(hai, 3, self.fuuro.push(kantsu)).replaced(rinshanhai),
                            Kan::Daiminkan { kantsu, rinshanhai },
                        ),
                    )
                } else {
                    Err(Error::InvalidMeld)
                }
            },
            _ => Err(Error::InvalidMeld),
        }
    }
}

/// The order of tiles is total.
pub proof fn lemma_hai_leq_total()
    ensures
        total_ordering(hai_leq()),
{
    assert forall|a: Hai, b: Hai| #[trigger] hai_leq()(a, b) && #[trigger] hai_leq()(b, a) implies a
        == b by {
        lemma_key_injective(a, b);
    }
}

/// Sorting rearranges: the result is in ascending order and holds each tile
/// as often as before.
pub proof fn lemma_sort_tiles(tiles: Seq<Hai>)
    ensures
        sorted_by(sort_tiles(tiles), hai_leq()),
        sort_tiles(tiles).to_multiset() == tiles.to_multiset(),
        sort_tiles(tiles).len() == tiles.len(),
        forall|hai: Hai| count_in(sort_tiles(tiles), hai) == count_in(tiles, hai),
{
    lemma_hai_leq_total();
    tiles.lemma_sort_by_ensures(hai_leq());
    to_multiset_len(tiles);
    to_multiset_len(sort_tiles(tiles));
}

/// Removing the first copy of a tile: one copy fewer of that tile if there
/// was one, and as many as before of every other.
pub proof fn lemma_remove_value_count(tiles: Seq<Hai>, hai: Hai, other: Hai)
    ensures
        tiles.contains(hai) <==> count_in(tiles, hai) > 0,
        count_in(tiles.remove_value(hai), other) == if other == hai && count_in(tiles, hai) > 0 {
            (count_in(tiles, other) - 1) as nat
        } else {
            count_in(tiles, other)
        },
        tiles.remove_value(hai).len() == if tiles.contains(hai) {
            (tiles.len() - 1) as nat
        } else {
            tiles.len()
        },
{
    broadcast use vstd::multiset::group_multiset_axioms;

    to_multiset_contains(tiles, hai);
    tiles.index_of_first_ensures(hai);
    match tiles.index_of_first(hai) {
        Some(i) => {
            to_multiset_remove(tiles, i);
        },
        None => {},
    }
}

/// Taking out `n` copies of a tile of which the hand holds at least `n`:
/// `n` copies fewer of that tile, and as many as before of every other.
pub proof fn lemma_take_out_count(tiles: Seq<Hai>, hai: Hai, n: nat, other: Hai)
    requires
        count_in(tiles, hai) >= n,
    ensures
        count_in(take_out(tiles, hai, n), other) == if other == hai {
            (count_in(tiles, other) - n) as nat
        } else {
            count_in(tiles, other)
        },
        take_out(tiles, hai, n).len() == tiles.len() - n,
    decreases n,
{
    if n > 0 {
        lemma_remove_value_count(tiles, hai, other);
        lemma_remove_value_count(tiles, hai, hai);
        lemma_take_out_count(tiles.remove_value(hai), hai, (n - 1) as nat, other);
    }
}

/// No tile is among no tiles.
pub proof fn lemma_count_in_empty(hai: Hai)
    ensures
        count_in(Seq::<Hai>::empty(), hai) == 0,
{
    Seq::<Hai>::empty().to_multiset_ensures();
}

/// One more tile at the end: one more copy of that tile.
pub proof fn lemma_count_in_push(tiles: Seq<Hai>, last: Hai, hai: Hai)
    ensures
        count_in(tiles.push(last), hai) == count_in(tiles, hai) + if last == hai {
            1nat
        } else {
            0nat
        },
{
    broadcast use vstd::multiset::group_multiset_axioms;

    to_multiset_build(tiles, last);
}

/// Tiles of two sequences put together: the copies of both.
pub proof fn lemma_count_in_concat(first: Seq<Hai>, second: Seq<Hai>, hai: Hai)
    ensures
        count_in(first + second, hai) == count_in(first, hai) + count_in(second, hai),
{
    broadcast use vstd::multiset::group_multiset_axioms;

    lemma_multiset_commutative(first, second);
}

/// One more meld at the end: the copies that it holds more.
pub proof fn lemma_count_in_fuuro_push(fuuro: Seq<Mentsu>, mentsu: Mentsu, hai: Hai)
    ensures
        count_in_fuuro(fuuro.push(mentsu), hai) == count_in_fuuro(fuuro, hai) + mentsu.count(hai),
{
    assert(fuuro.push(mentsu).drop_last() =~= fuuro);
}

/// One meld replaced: the copies of the new one in place of those of the old one.
pub proof fn lemma_count_in_fuuro_update(fuuro: Seq<Mentsu>, at: int, mentsu: Mentsu, hai: Hai)
    requires
        0 <= at < fuuro.len(),
    ensures
        count_in_fuuro(fuuro.update(at, mentsu), hai) + fuuro[at].count(hai) == count_in_fuuro(
            fuuro,
            hai,
        ) + mentsu.count(hai),
    decreases fuuro.len(),
{
    let updated = fuuro.update(at, mentsu);
    if at == fuuro.len() - 1 {
        assert(updated.drop_last() =~= fuuro.drop_last());
    } else {
        assert(updated.drop_last() =~= fuuro.drop_last().update(at, mentsu));
        lemma_count_in_fuuro_update(fuuro.drop_last(), at, mentsu, hai);
    }
}

impl TehaiView {
    /// A tile drawn is one more copy of it in the hand, which is in
    /// ascending order afterwards.
    pub proof fn lemma_add(self, drawn: Hai, hai: Hai)
        ensures
            self.add(drawn).count(hai) == self.count(hai) + if drawn == hai {
                1nat
            } else {
                0nat
            },
            self.add(drawn).size() == self.size() + 1,
            sorted_by(self.add(drawn).juntehai, hai_leq()),
    {
        lemma_sort_tiles(self.juntehai.push(drawn));
        lemma_count_in_push(self.juntehai, drawn, hai);
    }

    /// A tile discarded is one copy fewer of it in the hand.
    pub proof fn lemma_discard(self, thrown: Hai, hai: Hai)
        ensures
            self.discard(thrown) matches Ok(next) ==> {
                &&& next.count(hai) + (if thrown == hai {
                    1nat
                } else {
                    0nat
                }) == self.count(hai)
                &&& next.size() + 1 == self.size()
            },
    {
        lemma_remove_value_count(self.juntehai, thrown, hai);
    }

    /// A run called leaves the hand with one more copy of the called tile.
    pub proof fn lemma_chii(self, juntsu: Mentsu, nakihai: Hai, hai: Hai)
        ensures
            self.chii(juntsu, nakihai) matches Ok(next) ==> {
                &&& next.count(hai) == self.count(hai) + if nakihai == hai {
                    1nat
                } else {
                    0nat
                }
                &&& next.size() == self.size() + 1
            },
    {
        if let Ok(next) = self.chii(juntsu, nakihai) {
            let (x, y) = chii_partners(juntsu, nakihai).unwrap();
            let rest = self.juntehai.remove_value(x);
            assert(x != y && x != nakihai && y != nakihai);
            lemma_remove_value_count(self.juntehai, x, hai);
            lemma_remove_value_count(self.juntehai, x, y);
            lemma_remove_value_count(self.juntehai, y, y);
            lemma_remove_value_count(rest, y, hai);
            lemma_remove_value_count(rest, y, y);
            lemma_count_in_fuuro_push(self.fuuro, juntsu, hai);
            let one = |tile: Hai| if tile == hai { 1nat } else { 0nat };
            assert(count_in(next.juntehai, hai) + one(x) + one(y) == count_in(self.juntehai, hai));
            assert(juntsu.count(hai) == one(x) + one(y) + one(nakihai));
        }
    }

    /// A triplet called leaves the hand with one more copy of its tile.
    pub proof fn lemma_pon(self, koutsu: Mentsu, hai: Hai)
        ensures
            self.pon(koutsu) matches Ok(next) ==> {
                &&& next.count(hai) == self.count(hai) + if koutsu == Mentsu::Koutsu(hai) {
                    1nat
                } else {
                    0nat
                }
                &&& next.size() == self.size() + 1
            },
    {
        if let Mentsu::Koutsu(called) = koutsu {
            if count_in(self.juntehai, called) >= 2 {
                lemma_take_out_count(self.juntehai, called, 2, hai);
                lemma_count_in_fuuro_push(self.fuuro, koutsu, hai);
            }
        }
    }

    /// A kan is returned with the quad and the replacement tile it was asked
    /// with, and with its kind. It leaves the hand with one more copy of its
    /// tile if that tile came from another player's discard, and with as many
    /// as before if not; and with one more copy of the replacement tile, where
    /// there is one. A quad counts as three tiles: the hand is as large as
    /// before if a tile came in from a discard, and a tile smaller if not;
    /// the replacement tile makes it a tile larger.
    pub proof fn lemma_kan(self, kantsu: Mentsu, rinshanhai: Option<Hai>, hai: Hai)
        ensures
            self.kan(kantsu, rinshanhai) matches Ok((next, kan)) ==> {
                &&& kan.kantsu() == kantsu
                &&& kan.rinshanhai() == rinshanhai
                &&& !(kan is Unknown)
                &&& next.count(hai) == self.count(hai) + (if kan is Daiminkan && kantsu
                    == Mentsu::Kantsu(hai) {
                    1nat
                } else {
                    0nat
                }) + (if rinshanhai == Some(hai) {
                    1nat
                } else {
                    0nat
                })
                &&& next.size() + (if kan is Daiminkan {
                    0nat
                } else {
                    1nat
                }) == self.size() + (if rinshanhai is Some {
                    1nat
                } else {
                    0nat
                })
            },
    {
        if let Mentsu::Kantsu(called) = kantsu {
            let held = count_in(self.juntehai, called);
            let triplet = self.fuuro.index_of_first(Mentsu::Koutsu(called));
            self.fuuro.index_of_first_ensures(Mentsu::Koutsu(called));
            let taken: nat = if held == 4 {
                4
            } else if held >= 1 && triplet is Some {
                1
            } else {
                3
            };
            let fuuro = if taken == 1 {
                self.fuuro.update(triplet.unwrap(), kantsu)
            } else {
                self.fuuro.push(kantsu)
            };
            if self.kan(kantsu, rinshanhai) is Ok {
                lemma_take_out_count(self.juntehai, called, taken, hai);
                if taken == 1 {
                    lemma_count_in_fuuro_update(self.fuuro, triplet.unwrap(), kantsu, hai);
                } else {
                    lemma_count_in_fuuro_push(self.fuuro, kantsu, hai);
                }
                if let Some(drawn) = rinshanhai {
                    self.set_aside(called, taken, fuuro).lemma_add(drawn, hai);
                }
            }
        }
    }
}

/// The position of the first copy of `hai` among `tiles`.
fn find_first(tiles: &Vec<Hai>, hai: &Hai) -> (r: Option<usize>)
    ensures
        match r {
            Some(i) => tiles@.index_of_first(*hai) == Some(i as int) && i < tiles.len(),
            None => tiles@.index_of_first(*hai) is None,
        },
{
    let mut i: usize = 0;
    while i < tiles.len()
        invariant
            i <= tiles.len(),
            forall|j: int| 0 <= j < i ==> tiles@[j] != *hai,
        decreases tiles.len() - i,
    {
        if tiles[i] == *hai {
            proof {
                tiles@.index_of_first_ensures(*hai);
                assert(tiles@.contains(*hai));
            }
            return Some(i);
        }
        i += 1;
    }
    proof {
        tiles@.index_of_first_ensures(*hai);
    }
    None
}

/// The position of the first meld equal to `mentsu` in `fuuro`.
fn find_first_mentsu(fuuro: &Vec<Mentsu>, mentsu: &Mentsu) -> (r: Option<usize>)
    ensures
        match r {
            Some(i) => fuuro@.index_of_first(*mentsu) == Some(i as int) && i < fuuro.len(),
            None => fuuro@.index_of_first(*mentsu) is None,
        },
        r is Some <==> fuuro@.contains(*mentsu),
{
    let mut i: usize = 0;
    while i < fuuro.len()
        invariant
            i <= fuuro.len(),
            forall|j: int| 0 <= j < i ==> fuuro@[j] != *mentsu,
        decreases fuuro.len() - i,
    {
        if fuuro[i] == *mentsu {
            proof {
                fuuro@.index_of_first_ensures(*mentsu);
                assert(fuuro@.contains(*mentsu));
            }
            return Some(i);
        }
        i += 1;
    }
    proof {
        fuuro@.index_of_first_ensures(*mentsu);
    }
    None
}

/// Counts the copies of `hai` among `tiles`.
fn count_tiles(tiles: &Vec<Hai>, hai: &Hai) -> (n: usize)
    ensures
        n == count_in(tiles@, *hai),
{
    broadcast use vstd::multiset::group_multiset_axioms;

    let mut n: usize = 0;
    let mut i: usize = 0;
    assert(tiles@.take(0) =~= Seq::<Hai>::empty());
    proof {
        tiles@.take(0).to_multiset_ensures();
    }
    while i < tiles.len()
        invariant
            i <= tiles.len(),
            n <= i,
            n == count_in(tiles@.take(i as int), *hai),
        decreases tiles.len() - i,
    {
        proof {
            assert(tiles@.take(i + 1) =~= tiles@.take(i as int).push(tiles@[i as int]));
            to_multiset_build(tiles@.take(i as int), tiles@[i as int]);
        }
        if tiles[i] == *hai {
            n += 1;
        }
        i += 1;
    }
    assert(tiles@.take(tiles.len() as int) =~= tiles@);
    n
}

/// Takes the first `n` copies of `hai` out of `tiles`.
fn remove_tiles(tiles: &mut Vec<Hai>, hai: &Hai, n: usize)
    ensures
        final(tiles)@ == take_out(old(tiles)@, *hai, n as nat),
{
    let mut k: usize = 0;
    while k < n
        invariant
            k <= n,
            take_out(old(tiles)@, *hai, n as nat) == take_out(tiles@, *hai, (n - k) as nat),
        decreases n - k,
    {
        match find_first(tiles, hai) {
            Some(i) => {
                tiles.remove(i);
            },
            None => {},
        }
        k += 1;
    }
}

/// Puts `tiles` in ascending order.
pub fn sort_hai(tiles: &mut Vec<Hai>)
    ensures
        final(tiles)@ == sort_tiles(old(tiles)@),
{
    let mut sorted: Vec<Hai> = Vec::new();
    let mut i: usize = 0;
    assert(tiles@.take(0) =~= sorted@);
    while i < tiles.len()
        invariant
            i <= tiles.len(),
            sorted_by(sorted@, hai_leq()),
            sorted@.to_multiset() == tiles@.take(i as int).to_multiset(),
            sorted@.len() == i,
        decreases tiles.len() - i,
    {
        let hai = tiles[i];
        let key = hai.key();
        let mut at: usize = 0;
        while at < sorted.len() && sorted[at].key() <= key
            invariant
                at <= sorted.len(),
                key == hai.spec_key(),
                forall|j: int| 0 <= j < at ==> sorted@[j].spec_key() <= key,
            decreases sorted.len() - at,
        {
            at += 1;
        }
        proof {
            let before = sorted@;
            let after = before.insert(at as int, hai);
            assert forall|a: int, b: int| 0 <= a < b < after.len() implies #[trigger] hai_leq()(
                after[a],
                after[b],
            ) by {
                if a < at && b > at {
                    assert(hai_leq()(before[a], before[b - 1]));
                } else if a < at && b < at {
                    assert(hai_leq()(before[a], before[b]));
                } else if a > at {
                    assert(hai_leq()(before[a - 1], before[b - 1]));
                } else if a == at {
                    assert(hai_leq()(before[at as int], before[b - 1]));
                }
            }
            to_multiset_insert(before, at as int, hai);
            assert(tiles@.take(i + 1) =~= tiles@.take(i as int).push(hai));
            to_multiset_build(tiles@.take(i as int), hai);
        }
        sorted.insert(at, hai);
        i += 1;
    }
    proof {
        assert(tiles@.take(tiles.len() as int) =~= tiles@);
        lemma_hai_leq_total();
        tiles@.lemma_sort_by_ensures(hai_leq());
        lemma_sorted_unique(sorted@, sort_tiles(tiles@), hai_leq());
    }
    *tiles = sorted;
}

impl Clone for Tehai {
    fn clone(&self) -> (r: Tehai)
        ensures
            r@ == self@,
    {
        let r = Tehai { juntehai: self.juntehai.clone(), fuuro: self.fuuro.clone() };
        assert(r.juntehai@ =~= self.juntehai@);
        assert(r.fuuro@ =~= self.fuuro@);
        r
    }
}

impl Tehai {
    /// A hand of the given concealed tiles, put in order, and exposed melds.
    pub fn new(juntehai: Vec<Hai>, fuuro: Vec<Mentsu>) -> (r: Tehai)
        ensures
            r@ == (TehaiView { juntehai: sort_tiles(juntehai@), fuuro: fuuro@ }),
    {
        let mut juntehai = juntehai;
        sort_hai(&mut juntehai);
        Tehai { juntehai, fuuro }
    }

    /// Writes the hand as [`TehaiView::text`] describes.
    pub fn to_string(&self) -> (s: String)
        ensures
            s@ == self@.text(),
    {
        proof {
            reveal_strlit("");
            assert(""@ =~= Seq::<char>::empty());
        }
        let mut s = tiles_to_string(&self.juntehai, "");
        s.append(fuuro_to_string(&self.fuuro).as_str());
        s
    }

    /// Builds the JSON object that [`TehaiView::json`] describes.
    pub fn to_json(&self) -> (value: serde_json::Value)
        ensures
            json_model(value) == self@.json(),
    {
        let mut object = json_object_new();
        json_object_insert(&mut object, "juntehai", tiles_to_json(&self.juntehai));
        json_object_insert(&mut object, "fuuro", fuuro_to_json(&self.fuuro));
        json_object(object)
    }

    /// Concealed copies of `hai`.
    pub fn count_juntehai(&self, hai: &Hai) -> (n: usize)
        ensures
            n == count_in(self@.juntehai, *hai),
    {
        count_tiles(&self.juntehai, hai)
    }

    /// Takes `hai` into the concealed tiles and puts them in order.
    pub fn add(&mut self, hai: Hai)
        ensures
            final(self)@ == old(self)@.add(hai),
    {
        self.juntehai.push(hai);
        sort_hai(&mut self.juntehai);
    }

    /// Discards `hai`, as [`TehaiView::discard`] describes.
    pub fn discard(&mut self, hai: &Hai) -> (r: Result<(), Error>)
        ensures
            match old(self)@.discard(*hai) {
                Ok(next) => r is Ok && final(self)@ == next,
                Err(e) => r == Err::<(), Error>(e) && final(self)@ == old(self)@,
            },
    {
        proof {
            self.juntehai@.index_of_first_ensures(*hai);
        }
        match find_first(&self.juntehai, hai) {
            Some(i) => {
                self.juntehai.remove(i);
                Ok(())
            },
            None => Err(Error::TileNotHeld),
        }
    }

    /// Calls `nakihai` into the run `juntsu`, as [`TehaiView::chii`] describes.
    pub fn chii(&mut self, juntsu: &Mentsu, nakihai: &Hai) -> (r: Result<(), Error>)
        ensures
            match old(self)@.chii(*juntsu, *nakihai) {
                Ok(next) => r is Ok && final(self)@ == next,
                Err(e) => r == Err::<(), Error>(e) && final(self)@ == old(self)@,
            },
    {
        if !juntsu.is_valid() {
            return Err(Error::InvalidMeld);
        }
        let (x, y) = match juntsu {
            Mentsu::Juntsu(a, b, c) => {
                if *nakihai == *a {
                    (*b, *c)
                } else if *nakihai == *b {
                    (*a, *c)
                } else if *nakihai == *c {
                    (*a, *b)
                } else {
                    return Err(Error::InvalidMeld);
                }
            },
            _ => {
                return Err(Error::InvalidMeld);
            },
        };
        proof {
            self.juntehai@.index_of_first_ensures(x);
            self.juntehai@.index_of_first_ensures(y);
        }
        let first = find_first(&self.juntehai, &x);
        let second = find_first(&self.juntehai, &y);
        if first.is_none() || second.is_none() {
            return Err(Error::InvalidMeld);
        }
        remove_tiles(&mut self.juntehai, &x, 1);
        remove_tiles(&mut self.juntehai, &y, 1);
        self.fuuro.push(*juntsu);
        proof {
            let s = old(self)@.juntehai;
            assert(take_out(s, x, 1) == s.remove_value(x)) by {
                assert(take_out(s.remove_value(x), x, 0) == s.remove_value(x));
            }
            let t = s.remove_value(x);
            assert(take_out(t, y, 1) == t.remove_value(y)) by {
                assert(take_out(t.remove_value(y), y, 0) == t.remove_value(y));
            }
        }
        Ok(())
    }

    /// Calls a tile into the triplet `koutsu`, as [`TehaiView::pon`] describes.
    pub fn pon(&mut self, koutsu: &Mentsu) -> (r: Result<(), Error>)
        ensures
            match old(self)@.pon(*koutsu) {
                Ok(next) => r is Ok && final(self)@ == next,
                Err(e) => r == Err::<(), Error>(e) && final(self)@ == old(self)@,
            },
    {
        match koutsu {
            Mentsu::Koutsu(hai) => {
                if count_tiles(&self.juntehai, hai) >= 2 {
                    remove_tiles(&mut self.juntehai, hai, 2);
                    self.fuuro.push(*koutsu);
                    Ok(())
                } else {
                    Err(Error::InvalidMeld)
                }
            },
            _ => Err(Error::InvalidMeld),
        }
    }

    /// Forms the quad `kantsu`, as [`TehaiView::kan`] describes, and returns
    /// the quad with the kind that it turned out to be.
    pub fn kan(&mut self, kantsu: &Mentsu, rinshanhai: &Option<Hai>) -> (r: Result<Kan, Error>)
        ensures
            match old(self)@.kan(*kantsu, *rinshanhai) {
                Ok((next, kan)) => r == Ok::<Kan, Error>(kan) && final(self)@ == next,
                Err(e) => r == Err::<Kan, Error>(e) && final(self)@ == old(self)@,
            },
    {
        let hai = match kantsu {
            Mentsu::Kantsu(hai) => *hai,
            _ => {
                return Err(Error::InvalidMeld);
            },
        };
        let held = count_tiles(&self.juntehai, &hai);
        let exposed = find_first_mentsu(&self.fuuro, &Mentsu::Koutsu(hai));
        let kan = if held == 4 {
            remove_tiles(&mut self.juntehai, &hai, 4);
            self.fuuro.push(*kantsu);
            Kan::Ankan { kantsu: *kantsu, rinshanhai: *rinshanhai }
        } else if held >= 1 && exposed.is_some() {
            remove_tiles(&mut self.juntehai, &hai, 1);
            self.fuuro.set(exposed.unwrap(), *kantsu);
            Kan::Kakan { kantsu: *kantsu, rinshanhai: *rinshanhai }
        } else if held == 3 {
            remove_tiles(&mut self.juntehai, &hai, 3);
            self.fuuro.push(*kantsu);
            Kan::Daiminkan { kantsu: *kantsu, rinshanhai: *rinshanhai }
        } else {
            return Err(Error::InvalidMeld);
        };
        match rinshanhai {
            Some(drawn) => {
                self.add(*drawn);
            },
            None => {},
        }
        Ok(kan)
    }
}

} // verus!
