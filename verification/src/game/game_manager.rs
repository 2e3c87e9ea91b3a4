//! The game manager: one player's hand, the wall it draws from, and the turn.

use super::error::Error;
use super::hai::{lemma_key_injective, Hai};
use super::haiyama::{
    lemma_discard_none, lemma_discard_one, lemma_discard_two, supply, Haiyama, PlayerNumber,
};
use super::mentsu::Mentsu;
use super::json::{
    json_model, json_object, json_object_insert, json_object_new, json_string,
};
use super::model::{
    ascending, history_view, lemma_ascending_unique, strictly_ascending, GameView,
    HaiyamaOperationView, OperationView, TehaiOperationView,
};
use super::notation::{tiles_to_json, tiles_to_string};
use super::session::{
    lemma_conservation, lemma_hand_size, lemma_log_stays_settled, lemma_replay_is_run,
    lemma_step_follows_its_log, requests,
};
use super::tehai::Tehai;
use vstd::prelude::*;
use vstd::string::*;

verus! {

/// Type of kan.
///
/// # Japanese
/// * Daiminkan: 大明槓
/// * Kakan: 加槓
/// * Ankan: 暗槓
/// * kantsu: 槓子
/// * rinshanhai: 嶺上牌
#[derive(Clone, Copy, Debug, PartialEq, Eq)]
pub enum Kan {
    /// Three concealed tiles and the tile another player discarded.
    Daiminkan { kantsu: Mentsu, rinshanhai: Option<Hai> },
    /// An exposed triplet to which the fourth tile is added.
    Kakan { kantsu: Mentsu, rinshanhai: Option<Hai> },
    /// Four concealed tiles.
    Ankan { kantsu: Mentsu, rinshanhai: Option<Hai> },
    /// A kan whose kind the hand has yet to determine: the form in which it is asked for.
    Unknown { kantsu: Mentsu, rinshanhai: Option<Hai> },
}

/// Type of naku.
///
/// # Japanese
/// * Naku: 鳴く
/// * Chii: チー
/// * Pon: ポン
/// * Kan: カン
/// * nakihai: 鳴き牌
#[derive(Clone, Copy, Debug, PartialEq, Eq)]
pub enum Naku {
    Chii { juntsu: Mentsu, nakihai: Hai },
    Pon(Mentsu),
    Kan(Kan),
}

/// Operation on haiyama.
#[derive(Clone, Debug, PartialEq, Eq)]
pub enum HaiyamaOperation {
    Add(Vec<Hai>),
    Discard(Vec<Hai>),
}

/// Operation on tehai.
#[derive(Clone, Debug, PartialEq, Eq)]
pub enum TehaiOperation {
    Initialize(Tehai),
    Add { hai: Hai, bound_check: bool },
    Discard(Hai),
    Naku { kind: Naku, bound_check: bool },
}

/// Valid operation for game manager.
#[derive(Clone, Debug, PartialEq, Eq)]
pub enum Operation {
    Haiyama { kind: HaiyamaOperation, bound_check: bool },
    Tehai(TehaiOperation),
}

/// Game state.
#[derive(Clone, Copy, Debug, PartialEq, Eq, Structural, Hash)]
pub enum State {
    /// No hand has been dealt yet.
    WaitToInit,
    /// The hand is complete: a tile is to be discarded.
    FullHai,
    /// The hand is one tile short: a tile is to be drawn or called.
    LackOneHai,
    /// A kan was formed and its replacement tile is still owed.
    WaitForRinshanhai,
}

impl Kan {
    /// The quad that is, or is to be, formed.
    pub open spec fn kantsu(self) -> Mentsu {
        match self {
            Kan::Daiminkan { kantsu, .. } => kantsu,
            Kan::Kakan { kantsu, .. } => kantsu,
            Kan::Ankan { kantsu, .. } => kantsu,
            Kan::Unknown { kantsu, .. } => kantsu,
        }
    }

    /// The replacement tile, where it is known already.
    pub open spec fn rinshanhai(self) -> Option<Hai> {
        match self {
            Kan::Daiminkan { rinshanhai, .. } => rinshanhai,
            Kan::Kakan { rinshanhai, .. } => rinshanhai,
            Kan::Ankan { rinshanhai, .. } => rinshanhai,
            Kan::Unknown { rinshanhai, .. } => rinshanhai,
        }
    }
}

impl State {
    /// The name of the state.
    pub open spec fn name(self) -> Seq<char> {
        match self {
            State::WaitToInit => "WaitToInit"@,
            State::FullHai => "FullHai"@,
            State::LackOneHai => "LackOneHai"@,
            State::WaitForRinshanhai => "WaitForRinshanhai"@,
        }
    }

    /// The name of the state.
    pub fn as_str(&self) -> (s: &'static str)
        ensures
            s@ == self.name(),
    {
        match self {
            State::WaitToInit => "WaitToInit",
            State::FullHai => "FullHai",
            State::LackOneHai => "LackOneHai",
            State::WaitForRinshanhai => "WaitForRinshanhai",
        }
    }
}

impl View for HaiyamaOperation {
    type V = HaiyamaOperationView;

    open spec fn view(&self) -> HaiyamaOperationView {
        match self {
            HaiyamaOperation::Add(tiles) => HaiyamaOperationView::Add(tiles@),
            HaiyamaOperation::Discard(tiles) => HaiyamaOperationView::Discard(tiles@),
        }
    }
}

impl View for TehaiOperation {
    type V = TehaiOperationView;

    open spec fn view(&self) -> TehaiOperationView {
        match self {
            TehaiOperation::Initialize(tehai) => TehaiOperationView::Initialize(tehai@),
            TehaiOperation::Add { hai, bound_check } => TehaiOperationView::Add {
                hai: *hai,
                bound_check: *bound_check,
            },
            TehaiOperation::Discard(hai) => TehaiOperationView::Discard(*hai),
            TehaiOperation::Naku { kind, bound_check } => TehaiOperationView::Naku {
                kind: *kind,
                bound_check: *bound_check,
            },
        }
    }
}

impl View for Operation {
    type V = OperationView;

    open spec fn view(&self) -> OperationView {
        match self {
            Operation::Haiyama { kind, bound_check } => OperationView::Haiyama {
                kind: kind@,
                bound_check: *bound_check,
            },
            Operation::Tehai(op) => OperationView::Tehai(op@),
        }
    }
}

/// Puts `hai` at its place in `tiles`, unless it is there already.
fn insert_type(tiles: &mut Vec<Hai>, hai: Hai)
    requires
        strictly_ascending(old(tiles)@),
    ensures
        strictly_ascending(final(tiles)@),
        final(tiles)@.to_set() == old(tiles)@.to_set().insert(hai),
{
    let key = hai.key();
    let mut at: usize = 0;
    while at < tiles.len() && tiles[at].key() < key
        invariant
            at <= tiles.len(),
            tiles@ == old(tiles)@,
            key == hai.spec_key(),
            forall|j: int| 0 <= j < at ==> tiles@[j].spec_key() < key,
        decreases tiles.len() - at,
    {
        at += 1;
    }
    if at < tiles.len() && tiles[at].key() == key {
        proof {
            lemma_key_injective(tiles@[at as int], hai);
            assert(tiles@.contains(hai));
            assert(tiles@.to_set() =~= tiles@.to_set().insert(hai));
        }
    } else {
        let ghost before = tiles@;
        tiles.insert(at, hai);
        proof {
            let after = tiles@;
            assert forall|x: Hai| after.to_set().contains(x) <==> before.to_set().insert(
                hai,
            ).contains(x) by {
                if after.contains(x) {
                    let k = choose|k: int| 0 <= k < after.len() && after[k] == x;
                    if k < at {
                        assert(before[k] == x);
                    } else if k > at {
                        assert(before[k - 1] == x);
                    }
                }
                if before.contains(x) {
                    let k = choose|k: int| 0 <= k < before.len() && before[k] == x;
                    if k < at {
                        assert(after[k] == x);
                    } else {
                        assert(after[k + 1] == x);
                    }
                }
                if x == hai {
                    assert(after[at as int] == x);
                }
            }
            assert(after.to_set() =~= before.to_set().insert(hai));
            assert forall|i: int, j: int| 0 <= i < j < after.len() implies after[i].spec_key()
                < after[j].spec_key() by {
                if i < at && j > at {
                    assert(before[i].spec_key() < before[j - 1].spec_key());
                } else if i > at {
                    assert(before[i - 1].spec_key() < before[j - 1].spec_key());
                } else if i == at {
                    assert(before[at as int].spec_key() <= before[j - 1].spec_key());
                }
            }
        }
    }
}

/// The game manager.
/// Include everything that a complete mahjong game need.
#[derive(Clone, Debug, PartialEq, Eq)]
pub struct GameManager {
    haiyama: Haiyama,
    tehai: Option<Tehai>,
    sutehai_type: Vec<Hai>,
    state: State,
    history: Vec<(Operation, State)>,
}

impl View for GameManager {
    type V = GameView;

    closed spec fn view(&self) -> GameView {
        GameView {
            haiyama: self.haiyama@,
            tehai: match self.tehai {
                Some(tehai) => Some(tehai@),
                None => None,
            },
            sutehai_type: self.sutehai_type@.to_set(),
            state: self.state,
            history: history_view(self.history@),
        }
    }
}

impl GameManager {
    /// The game is well formed, and the discarded tile types are kept in
    /// ascending order, each once.
    spec fn is_consistent(&self) -> bool {
        &&& self@.wf()
        &&& strictly_ascending(self.sutehai_type@)
    }

    /// What holds of every manager that was made by [`GameManager::new`] and
    /// changed by [`GameManager::operate`] alone: its parts fit together, and
    /// it is the game that its log tells of.
    pub closed spec fn wf(&self) -> bool {
        &&& self.is_consistent()
        &&& self@.follows_its_log()
    }

    /// A manager is the game that its log tells of: asking a new game for
    /// what the log records, entry by entry, leads to this game and to no
    /// other. So its hand has the size that its state names, and no kan is
    /// in the log without its kind.
    pub proof fn lemma_follows_its_log(&self)
        requires
            self.wf(),
        ensures
            self@.wf(),
            self@.follows_its_log(),
            self@ == GameView::fresh(self@.haiyama.player_number).run(requests(self@.history)),
            self@.hand_fits_state(),
            self@.log_is_settled(),
    {
        let start = GameView::fresh(self@.haiyama.player_number);
        let asked = requests(self@.history);
        lemma_replay_is_run(start, self@.history);
        lemma_hand_size(self@.haiyama.player_number, asked);
        lemma_log_stays_settled(start, asked);
    }

    /// A manager that was asked for strict operations on the hand only holds
    /// every tile as often as the set does, counting the wall, the hand and
    /// the discards that the log records.
    pub proof fn lemma_conserved(&self, hai: Hai)
        requires
            self.wf(),
            forall|i: int|
                0 <= i < self@.history.len() ==> (
                #[trigger] self@.history[i]).0.is_strict_hand_operation(),
        ensures
            self@.tally(hai) == supply(self@.haiyama.player_number, hai),
    {
        let asked = requests(self@.history);
        self.lemma_follows_its_log();
        assert forall|i: int| 0 <= i < asked.len() implies (
        #[trigger] asked[i]).is_strict_hand_operation() by {
            assert(self@.history[i].0.is_strict_hand_operation());
        }
        lemma_conservation(self@.haiyama.player_number, asked, hai);
    }

    /// Create a instance of GameManager.
    pub fn new(player_number: PlayerNumber) -> (r: Self)
        ensures
            r.wf(),
            r@ == GameView::fresh(player_number),
    {
        let r = Self {
            haiyama: Haiyama::new(player_number),
            tehai: None,
            sutehai_type: Vec::new(),
            state: State::WaitToInit,
            history: Vec::new(),
        };
        assert(r.sutehai_type@.to_set() =~= Set::<Hai>::empty());
        assert(history_view(r.history@) =~= Seq::empty());
        r
    }

    /// Return a reference of haiyama
    pub fn haiyama(&self) -> (r: &Haiyama)
        ensures
            r@ == self@.haiyama,
    {
        &self.haiyama
    }

    /// Return a reference of tehai, once it has been dealt.
    pub fn tehai(&self) -> (r: Option<&Tehai>)
        ensures
            r is Some <==> self@.tehai is Some,
            r matches Some(tehai) ==> tehai@ == self@.tehai.unwrap(),
    {
        self.tehai.as_ref()
    }

    /// Return the types of the tiles discarded so far, in ascending order.
    pub fn sutehai_type(&self) -> (r: &Vec<Hai>)
        ensures
            r@.to_set() == self@.sutehai_type,
            self.wf() ==> r@ == ascending(self@.sutehai_type) && strictly_ascending(r@),
    {
        proof {
            if self.wf() {
                self.lemma_sutehai_type_ascending();
            }
        }
        &self.sutehai_type
    }

    /// Return the state the game is in.
    pub fn state(&self) -> (r: State)
        ensures
            r == self@.state,
    {
        self.state
    }

    /// Return every accepted operation, oldest first, each with the state it met.
    pub fn history(&self) -> (r: &Vec<(Operation, State)>)
        ensures
            history_view(r@) == self@.history,
            r@.len() == self@.history.len(),
    {
        &self.history
    }

    /// Main function to control the game.
    ///
    /// The operation is applied as [`GameView::step`] describes and recorded,
    /// or it is refused and the game stays exactly as it was.
    pub fn operate(&mut self, op: Operation) -> (r: Result<(), Error>)
        requires
            old(self).wf(),
        ensures
            final(self).wf(),
            match old(self)@.step(op@) {
                Ok(next) => r is Ok && final(self)@ == next,
                Err(e) => r == Err::<(), Error>(e),
            },
            r is Err ==> final(self)@ == old(self)@,
            old(self)@.sutehai_type.subset_of(final(self)@.sutehai_type),
            old(self)@.sutehai_type.len() <= final(self)@.sutehai_type.len(),
    {
        let last_state = self.state;
        let outcome = match last_state {
            State::WaitToInit => self.operate_wait_to_init(op),
            State::FullHai => self.operate_full_hai(op),
            State::LackOneHai => self.operate_lack_one_hai(op),
            State::WaitForRinshanhai => self.operate_wait_for_rinshanhai(op),
        };
        proof {
            vstd::set_lib::lemma_len_subset(old(self)@.sutehai_type, self@.sutehai_type);
            lemma_step_follows_its_log(old(self)@, op@);
        }
        match outcome {
            Ok(recorded) => {
                let ghost before = self.history@;
                self.history.push((recorded, last_state));
                assert(history_view(self.history@) =~= history_view(before).push(
                    (recorded@, last_state),
                ));
                Ok(())
            },
            Err(e) => Err(e),
        }
    }

    /// Print self to json.
    pub fn to_json(&self) -> (value: serde_json::Value)
        ensures
            self.wf() ==> json_model(value) == self@.json(),
    {
        proof {
            if self.wf() {
                self.lemma_sutehai_type_ascending();
            }
        }
        let tehai_json = match &self.tehai {
            Some(tehai) => tehai.to_json(),
            None => json_string("Not initialized."),
        };
        let mut object = json_object_new();
        json_object_insert(&mut object, "haiyama", self.haiyama.to_json());
        json_object_insert(&mut object, "sutehai_type", tiles_to_json(&self.sutehai_type));
        json_object_insert(&mut object, "tehai", tehai_json);
        json_object_insert(&mut object, "state", json_string(self.state.as_str()));
        json_object(object)
    }

    /// Writes the game as [`GameView::text`] describes.
    pub fn to_string(&self) -> (s: String)
        ensures
            self.wf() ==> s@ == self@.text(),
    {
        proof {
            if self.wf() {
                self.lemma_sutehai_type_ascending();
            }
            if self.sutehai_type@.len() == 0 {
                assert(self.sutehai_type@.to_set() =~= Set::<Hai>::empty());
            } else {
                assert(self.sutehai_type@.to_set().contains(self.sutehai_type@[0]));
            }
        }
        let mut s = String::from_str("牌山:\n  ");
        s.append(self.haiyama.to_string().as_str());
        s.append("\n捨て牌の種類:\n  ");
        if self.sutehai_type.len() == 0 {
            s.append("無し");
        } else {
            s.append(tiles_to_string(&self.sutehai_type, " ").as_str());
        }
        s.append("\n手牌:\n  ");
        match &self.tehai {
            Some(tehai) => {
                s.append(tehai.to_string().as_str());
            },
            None => {
                s.append("Not initialized.");
            },
        }
        s.append("\n状態:\n  ");
        s.append(self.state.as_str());
        s
    }

    /// The discarded tile types are kept as [`ascending`] lists them.
    proof fn lemma_sutehai_type_ascending(&self)
        requires
            self.is_consistent(),
        ensures
            self.sutehai_type@ == ascending(self@.sutehai_type),
    {
        let listed = ascending(self@.sutehai_type);
        assert(strictly_ascending(self.sutehai_type@) && self.sutehai_type@.to_set()
            == self@.sutehai_type);
        lemma_ascending_unique(self.sutehai_type@, listed);
    }

    /// An operation on the wall, which every state accepts.
    fn operate_haiyama(&mut self, kind: &HaiyamaOperation, bound_check: bool) -> (r: Result<
        (),
        Error,
    >)
        requires
            old(self).is_consistent(),
        ensures
            final(self).is_consistent(),
            match old(self)@.operate_haiyama(kind@, bound_check) {
                Ok(next) => r is Ok && final(self)@ == next,
                Err(e) => r == Err::<(), Error>(e) && final(self)@ == old(self)@,
            },
    {
        match kind {
            HaiyamaOperation::Add(hai_vec) => self.haiyama.add_with_vec(hai_vec, bound_check),
            HaiyamaOperation::Discard(hai_vec) => self.haiyama.discard_with_vec(
                hai_vec,
                bound_check,
            ),
        }
    }

    /// Draws `hai` from the wall into the hand, which is complete after it.
    fn draw(&mut self, hai: Hai, bound_check: bool) -> (r: Result<(), Error>)
        requires
            old(self).is_consistent(),
            old(self)@.state == State::LackOneHai || old(self)@.state == State::WaitForRinshanhai,
        ensures
            final(self).is_consistent(),
            match old(self)@.operate_tehai(TehaiOperationView::Add { hai, bound_check }) {
                Ok((next, recorded)) => r is Ok && final(self)@ == next && recorded
                    == (TehaiOperationView::Add { hai, bound_check }),
                Err(e) => r == Err::<(), Error>(e) && final(self)@ == old(self)@,
            },
    {
        proof {
            lemma_discard_one(self.haiyama@, hai, bound_check);
        }
        match self.haiyama.discard(&hai, bound_check) {
            Ok(()) => {},
            Err(e) => {
                return Err(e);
            },
        }
        match &mut self.tehai {
            Some(tehai) => {
                tehai.add(hai);
            },
            None => {},
        }
        self.state = State::FullHai;
        Ok(())
    }

    /// Forms a kan, or leaves everything as it was.
    ///
    /// The wall, the state and the hand are copied first. Then the wall gives
    /// the tiles that the kan spends, and the hand forms the quad and says of
    /// which kind it is. If the hand refuses, or the kind cannot arise in the
    /// state the kan was asked in, the three copies are put back.
    fn operate_kan(&mut self, kantsu: &Mentsu, rinshanhai: &Option<Hai>, bound_check: bool) -> (r:
        Result<Kan, Error>)
        requires
            old(self).is_consistent(),
            old(self)@.state == State::FullHai || (old(self)@.state == State::LackOneHai
                && *kantsu is Kantsu),
        ensures
            final(self).is_consistent(),
            match old(self)@.operate_tehai(
                TehaiOperationView::Naku {
                    kind: Naku::Kan(Kan::Unknown { kantsu: *kantsu, rinshanhai: *rinshanhai }),
                    bound_check,
                },
            ) {
                Ok((next, recorded)) => r is Ok && final(self)@ == next && recorded
                    == (TehaiOperationView::Naku { kind: Naku::Kan(r.unwrap()), bound_check }),
                Err(e) => r == Err::<Kan, Error>(e) && final(self)@ == old(self)@,
            },
    {
        let haiyama_backup = self.haiyama;
        let state_backup = self.state;
        let tehai_backup = match &self.tehai {
            Some(tehai) => Some(tehai.clone()),
            None => None,
        };
        let ghost request = TehaiOperationView::Naku {
            kind: Naku::Kan(Kan::Unknown { kantsu: *kantsu, rinshanhai: *rinshanhai }),
            bound_check,
        };
        let ghost spent = request.spent(state_backup);
        proof {
            lemma_discard_none(self.haiyama@, bound_check);
        }
        match (state_backup, kantsu) {
            (State::LackOneHai, Mentsu::Kantsu(hai)) => {
                proof {
                    lemma_discard_one(self.haiyama@, *hai, bound_check);
                    if let Some(drawn) = *rinshanhai {
                        lemma_discard_two(self.haiyama@, *hai, drawn, bound_check);
                        assert(spent =~= seq![*hai, drawn]);
                    } else {
                        assert(spent =~= seq![*hai]);
                    }
                }
                match self.haiyama.discard(hai, bound_check) {
                    Ok(()) => {},
                    Err(e) => {
                        return Err(e);
                    },
                }
            },
            _ => {
                proof {
                    if let Some(drawn) = *rinshanhai {
                        lemma_discard_one(self.haiyama@, drawn, bound_check);
                        assert(spent =~= seq![drawn]);
                    } else {
                        assert(spent =~= Seq::<Hai>::empty());
                    }
                }
            },
        }
        match rinshanhai {
            Some(drawn) => {
                match self.haiyama.discard(drawn, bound_check) {
                    Ok(()) => {},
                    Err(e) => {
                        self.haiyama = haiyama_backup;
                        return Err(e);
                    },
                }
                self.state = State::FullHai;
            },
            None => {
                self.state = State::WaitForRinshanhai;
            },
        }
        assert(old(self)@.haiyama.discard_all(spent, bound_check) == Ok::<_, Error>(self.haiyama@));
        let formed = match &mut self.tehai {
            Some(tehai) => tehai.kan(kantsu, rinshanhai),
            None => Err(Error::InternalInconsistency),
        };
        match formed {
            Ok(kan) => {
                let consistent = match (state_backup, &kan) {
                    (State::FullHai, Kan::Ankan { .. }) => true,
                    (State::FullHai, Kan::Kakan { .. }) => true,
                    (State::LackOneHai, Kan::Daiminkan { .. }) => true,
                    _ => false,
                };
                if consistent {
                    Ok(kan)
                } else {
                    self.haiyama = haiyama_backup;
                    self.state = state_backup;
                    self.tehai = tehai_backup;
                    Err(Error::InternalInconsistency)
                }
            },
            Err(e) => {
                self.haiyama = haiyama_backup;
                self.state = state_backup;
                self.tehai = tehai_backup;
                Err(e)
            },
        }
    }

    fn operate_wait_to_init(&mut self, op: Operation) -> (r: Result<Operation, Error>)
        requires
            old(self).is_consistent(),
            old(self)@.state == State::WaitToInit,
        ensures
            final(self).is_consistent(),
            match old(self)@.transition(op@) {
                Ok((next, recorded)) => r is Ok && final(self)@ == next && r.unwrap()@ == recorded,
                Err(e) => r == Err::<Operation, Error>(e) && final(self)@ == old(self)@,
            },
    {
        match op {
            Operation::Tehai(TehaiOperation::Initialize(tehai)) => {
                if tehai.fuuro.len() != 0 {
                    return Err(Error::InvalidHandInitialization);
                }
                let state = if tehai.juntehai.len() == 13 {
                    State::LackOneHai
                } else if tehai.juntehai.len() == 14 {
                    State::FullHai
                } else {
                    return Err(Error::InvalidHandInitialization);
                };
                match self.haiyama.discard_with_vec(&tehai.juntehai, true) {
                    Ok(()) => {},
                    Err(e) => {
                        return Err(e);
                    },
                }
                self.state = state;
                self.tehai = Some(tehai.clone());
                Ok(Operation::Tehai(TehaiOperation::Initialize(tehai)))
            },
            Operation::Haiyama { kind, bound_check } => {
                match self.operate_haiyama(&kind, bound_check) {
                    Ok(()) => Ok(Operation::Haiyama { kind, bound_check }),
                    Err(e) => Err(e),
                }
            },
            _ => Err(Error::IllegalOperationForPhase),
        }
    }

    fn operate_full_hai(&mut self, op: Operation) -> (r: Result<Operation, Error>)
        requires
            old(self).is_consistent(),
            old(self)@.state == State::FullHai,
        ensures
            final(self).is_consistent(),
            match old(self)@.transition(op@) {
                Ok((next, recorded)) => r is Ok && final(self)@ == next && r.unwrap()@ == recorded,
                Err(e) => r == Err::<Operation, Error>(e) && final(self)@ == old(self)@,
            },
            old(self)@.sutehai_type.subset_of(final(self)@.sutehai_type),
    {
        match op {
            Operation::Tehai(TehaiOperation::Discard(hai)) => {
                proof {
                    lemma_discard_none(self.haiyama@, true);
                }
                let discarded = match &mut self.tehai {
                    Some(tehai) => tehai.discard(&hai),
                    None => Err(Error::TileNotHeld),
                };
                match discarded {
                    Ok(()) => {},
                    Err(e) => {
                        return Err(e);
                    },
                }
                insert_type(&mut self.sutehai_type, hai);
                self.state = State::LackOneHai;
                Ok(Operation::Tehai(TehaiOperation::Discard(hai)))
            },
            Operation::Tehai(
                TehaiOperation::Naku {
                    kind: Naku::Kan(Kan::Unknown { kantsu, rinshanhai }),
                    bound_check,
                },
            ) => {
                match self.operate_kan(&kantsu, &rinshanhai, bound_check) {
                    Ok(kan) => Ok(
                        Operation::Tehai(
                            TehaiOperation::Naku { kind: Naku::Kan(kan), bound_check },
                        ),
                    ),
                    Err(e) => Err(e),
                }
            },
            Operation::Haiyama { kind, bound_check } => {
                match self.operate_haiyama(&kind, bound_check) {
                    Ok(()) => Ok(Operation::Haiyama { kind, bound_check }),
                    Err(e) => Err(e),
                }
            },
            _ => Err(Error::IllegalOperationForPhase),
        }
    }

    fn operate_lack_one_hai(&mut self, op: Operation) -> (r: Result<Operation, Error>)
        requires
            old(self).is_consistent(),
            old(self)@.state == State::LackOneHai,
        ensures
            final(self).is_consistent(),
            match old(self)@.transition(op@) {
                Ok((next, recorded)) => r is Ok && final(self)@ == next && r.unwrap()@ == recorded,
                Err(e) => r == Err::<Operation, Error>(e) && final(self)@ == old(self)@,
            },
    {
        match op {
            Operation::Tehai(TehaiOperation::Add { hai, bound_check }) => {
                match self.draw(hai, bound_check) {
                    Ok(()) => Ok(Operation::Tehai(TehaiOperation::Add { hai, bound_check })),
                    Err(e) => Err(e),
                }
            },
            Operation::Tehai(
                TehaiOperation::Naku { kind: Naku::Chii { juntsu, nakihai }, bound_check },
            ) => {
                let haiyama_backup = self.haiyama;
                proof {
                    lemma_discard_one(self.haiyama@, nakihai, bound_check);
                }
                match self.haiyama.discard(&nakihai, bound_check) {
                    Ok(()) => {},
                    Err(e) => {
                        return Err(e);
                    },
                }
                let called = match &mut self.tehai {
                    Some(tehai) => tehai.chii(&juntsu, &nakihai),
                    None => Err(Error::InvalidMeld),
                };
                match called {
                    Ok(()) => {},
                    Err(e) => {
                        self.haiyama = haiyama_backup;
                        return Err(e);
                    },
                }
                self.state = State::FullHai;
                Ok(
                    Operation::Tehai(
                        TehaiOperation::Naku { kind: Naku::Chii { juntsu, nakihai }, bound_check },
                    ),
                )
            },
            Operation::Tehai(
                TehaiOperation::Naku { kind: Naku::Pon(Mentsu::Koutsu(hai)), bound_check },
            ) => {
                let haiyama_backup = self.haiyama;
                proof {
                    lemma_discard_one(self.haiyama@, hai, bound_check);
                }
                match self.haiyama.discard(&hai, bound_check) {
                    Ok(()) => {},
                    Err(e) => {
                        return Err(e);
                    },
                }
                let called = match &mut self.tehai {
                    Some(tehai) => tehai.pon(&Mentsu::Koutsu(hai)),
                    None => Err(Error::InvalidMeld),
                };
                match called {
                    Ok(()) => {},
                    Err(e) => {
                        self.haiyama = haiyama_backup;
                        return Err(e);
                    },
                }
                self.state = State::FullHai;
                Ok(
                    Operation::Tehai(
                        TehaiOperation::Naku { kind: Naku::Pon(Mentsu::Koutsu(hai)), bound_check },
                    ),
                )
            },
            Operation::Tehai(
                TehaiOperation::Naku {
                    kind: Naku::Kan(Kan::Unknown { kantsu: Mentsu::Kantsu(hai), rinshanhai }),
                    bound_check,
                },
            ) => {
                match self.operate_kan(&Mentsu::Kantsu(hai), &rinshanhai, bound_check) {
                    Ok(kan) => Ok(
                        Operation::Tehai(
                            TehaiOperation::Naku { kind: Naku::Kan(kan), bound_check },
                        ),
                    ),
                    Err(e) => Err(e),
                }
            },
            Operation::Haiyama { kind, bound_check } => {
                match self.operate_haiyama(&kind, bound_check) {
                    Ok(()) => Ok(Operation::Haiyama { kind, bound_check }),
                    Err(e) => Err(e),
                }
            },
            _ => Err(Error::IllegalOperationForPhase),
        }
    }

    fn operate_wait_for_rinshanhai(&mut self, op: Operation) -> (r: Result<Operation, Error>)
        requires
            old(self).is_consistent(),
            old(self)@.state == State::WaitForRinshanhai,
        ensures
            final(self).is_consistent(),
            match old(self)@.transition(op@) {
                Ok((next, recorded)) => r is Ok && final(self)@ == next && r.unwrap()@ == recorded,
                Err(e) => r == Err::<Operation, Error>(e) && final(self)@ == old(self)@,
            },
    {
        match op {
            Operation::Tehai(TehaiOperation::Add { hai, bound_check }) => {
                match self.draw(hai, bound_check) {
                    Ok(()) => Ok(Operation::Tehai(TehaiOperation::Add { hai, bound_check })),
                    Err(e) => Err(e),
                }
            },
            Operation::Haiyama { kind, bound_check } => {
                match self.operate_haiyama(&kind, bound_check) {
                    Ok(()) => Ok(Operation::Haiyama { kind, bound_check }),
                    Err(e) => Err(e),
                }
            },
            _ => Err(Error::IllegalOperationForPhase),
        }
    }
}

} // verus!
