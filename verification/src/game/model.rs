//! What a game is, and what each operation makes of it.
//!
//! The functions here are the definition of the manager's behaviour: what
//! [`GameManager::operate`](super::game_manager::GameManager::operate) does is
//! stated as [`GameView::step`].

use super::error::Error;
use super::game_manager::{Kan, Naku, Operation, State};
use super::hai::{lemma_key_injective, Hai};
use super::haiyama::{HaiyamaView, PlayerNumber};
use super::json::{no_entries, JsonModel};
use super::mentsu::Mentsu;
use super::notation::{tiles_json, tiles_text};
use super::tehai::TehaiView;
use vstd::prelude::*;

verus! {

/// An operation on the wall, with its tiles as a sequence.
pub enum HaiyamaOperationView {
    Add(Seq<Hai>),
    Discard(Seq<Hai>),
}

/// An operation on the hand, with the hand it may carry as a view.
pub enum TehaiOperationView {
    Initialize(TehaiView),
    Add { hai: Hai, bound_check: bool },
    Discard(Hai),
    Naku { kind: Naku, bound_check: bool },
}

/// An operation.
pub enum OperationView {
    Haiyama { kind: HaiyamaOperationView, bound_check: bool },
    Tehai(TehaiOperationView),
}

/// A game: the wall, the hand once it is dealt, the tile types discarded so
/// far, the state, and every accepted operation with the state it met.
pub struct GameView {
    pub haiyama: HaiyamaView,
    pub tehai: Option<TehaiView>,
    pub sutehai_type: Set<Hai>,
    pub state: State,
    pub history: Seq<(OperationView, State)>,
}

/// Whether `tiles` is in ascending order without repetition.
pub open spec fn strictly_ascending(tiles: Seq<Hai>) -> bool {
    forall|i: int, j: int| 0 <= i < j < tiles.len() ==> tiles[i].spec_key() < tiles[j].spec_key()
}

/// The tile types of `types` in ascending order, each once.
pub open spec fn ascending(types: Set<Hai>) -> Seq<Hai> {
    choose|tiles: Seq<Hai>| strictly_ascending(tiles) && tiles.to_set() == types
}

/// There is one way only to list tile types in ascending order, each once.
pub proof fn lemma_ascending_unique(a: Seq<Hai>, b: Seq<Hai>)
    requires
        strictly_ascending(a),
        strictly_ascending(b),
        a.to_set() == b.to_set(),
    ensures
        a == b,
    decreases a.len(),
{
    if a.len() == 0 {
        if b.len() > 0 {
            assert(b.to_set().contains(b[0]));
            assert(a.contains(b[0]));
        }
        assert(a =~= b);
    } else {
        let top = a.last();
        assert(a.to_set().contains(top));
        assert(b.contains(top));
        assert(b.len() > 0);
        assert(b.to_set().contains(b.last()));
        assert(a.contains(b.last()));
        let i = choose|i: int| 0 <= i < a.len() && a[i] == b.last();
        let j = choose|j: int| 0 <= j < b.len() && b[j] == top;
        assert(b[j].spec_key() <= b.last().spec_key());
        assert(a[i].spec_key() <= top.spec_key());
        lemma_key_injective(top, b.last());
        let (front, other) = (a.drop_last(), b.drop_last());
        assert forall|x: Hai| front.to_set().contains(x) <==> other.to_set().contains(x) by {
            if front.contains(x) {
                let k = choose|k: int| 0 <= k < front.len() && front[k] == x;
                assert(a[k] == x);
                assert(a.to_set().contains(x));
                assert(b.contains(x));
                let m = choose|m: int| 0 <= m < b.len() && b[m] == x;
                assert(other[m] == x);
            }
            if other.contains(x) {
                let k = choose|k: int| 0 <= k < other.len() && other[k] == x;
                assert(b[k] == x);
                assert(b.to_set().contains(x));
                assert(a.contains(x));
                let m = choose|m: int| 0 <= m < a.len() && a[m] == x;
                assert(front[m] == x);
            }
        }
        assert(front.to_set() =~= other.to_set());
        lemma_ascending_unique(front, other);
        assert(a =~= a.drop_last().push(top));
        assert(b =~= b.drop_last().push(b.last()));
    }
}

/// The log of a manager, entry by entry.
pub open spec fn history_view(history: Seq<(Operation, State)>) -> Seq<(OperationView, State)> {
    history.map_values(|entry: (Operation, State)| (entry.0@, entry.1))
}

impl TehaiOperationView {
    /// Whether a shortage in the wall fails the operation. Dealing the hand
    /// is always strict, and a discard takes nothing from the wall.
    pub open spec fn strict(self) -> bool {
        match self {
            TehaiOperationView::Add { bound_check, .. } => bound_check,
            TehaiOperationView::Naku { bound_check, .. } => bound_check,
            _ => true,
        }
    }

    /// Whether `state` accepts the operation.
    pub open spec fn accepted_in(self, state: State) -> bool {
        match state {
            State::WaitToInit => self is Initialize,
            State::FullHai => match self {
                TehaiOperationView::Discard(_) => true,
                TehaiOperationView::Naku { kind: Naku::Kan(kan), .. } => kan is Unknown,
                _ => false,
            },
            State::LackOneHai => match self {
                TehaiOperationView::Add { .. } => true,
                TehaiOperationView::Naku { kind, .. } => match kind {
                    Naku::Chii { .. } => true,
                    Naku::Pon(koutsu) => koutsu is Koutsu,
                    Naku::Kan(kan) => kan is Unknown && kan.kantsu() is Kantsu,
                },
                _ => false,
            },
            State::WaitForRinshanhai => self is Add,
        }
    }

    /// The tiles that the operation, met in `state`, takes from the wall, in
    /// the order in which they are taken: the hand that is dealt; the tile
    /// drawn; the tile called from another player's discard; for a kan the
    /// called tile, where the hand is a tile short, and then the replacement
    /// tile, where it is known.
    pub open spec fn spent(self, state: State) -> Seq<Hai> {
        match self {
            TehaiOperationView::Initialize(tehai) => tehai.juntehai,
            TehaiOperationView::Add { hai, .. } => seq![hai],
            TehaiOperationView::Discard(_) => seq![],
            TehaiOperationView::Naku { kind, .. } => match kind {
                Naku::Chii { nakihai, .. } => seq![nakihai],
                Naku::Pon(koutsu) => match koutsu {
                    Mentsu::Koutsu(hai) => seq![hai],
                    _ => seq![],
                },
                Naku::Kan(kan) => (match kan.kantsu() {
                    Mentsu::Kantsu(hai) => if state == State::LackOneHai {
                        seq![hai]
                    } else {
                        seq![]
                    },
                    _ => seq![],
                }) + (match kan.rinshanhai() {
                    Some(drawn) => seq![drawn],
                    None => seq![],
                }),
            },
        }
    }
}

/// Whether a kan of the kind the hand found can arise in `state`: with a
/// full hand the quad is concealed or added to an exposed triplet, with a
/// hand one tile short it takes another player's discard.
pub open spec fn kan_allowed(state: State, kan: Kan) -> bool {
    match state {
        State::FullHai => kan is Ankan || kan is Kakan,
        State::LackOneHai => kan is Daiminkan,
        _ => false,
    }
}

/// What the hand makes of an operation: the hand after it, the state after
/// it, and the operation as it is recorded.
pub struct HandOutcome {
    pub tehai: TehaiView,
    pub state: State,
    pub recorded: TehaiOperationView,
}

impl GameView {
    /// A game before anything happened, with a full wall for `player_number` players.
    pub open spec fn fresh(player_number: PlayerNumber) -> GameView {
        GameView {
            haiyama: HaiyamaView::full(player_number),
            tehai: None,
            sutehai_type: Set::empty(),
            state: State::WaitToInit,
            history: Seq::empty(),
        }
    }

    /// The hand is there from the moment it is dealt, and only finitely many
    /// tile types have been discarded.
    pub open spec fn wf(self) -> bool {
        &&& self.tehai is Some <==> self.state != State::WaitToInit
        &&& self.sutehai_type.finite()
    }

    /// How the game is written: the wall, the discarded tile types in
    /// ascending order, the hand and the state, each under its heading.
    pub open spec fn text(self) -> Seq<char> {
        let discards = if self.sutehai_type.len() == 0 {
            "無し"@
        } else {
            tiles_text(ascending(self.sutehai_type), " "@)
        };
        let hand = match self.tehai {
            Some(tehai) => tehai.text(),
            None => "Not initialized."@,
        };
        "牌山:\n  "@ + self.haiyama.text() + "\n捨て牌の種類:\n  "@ + discards + "\n手牌:\n  "@ + hand
            + "\n状態:\n  "@ + self.state.name()
    }

    /// The game as a JSON object: the wall, the discarded tile types in
    /// ascending order, the hand, or a remark that there is none yet, and the state.
    pub open spec fn json(self) -> JsonModel {
        JsonModel::Object(
            no_entries().insert("haiyama"@, self.haiyama.json()).insert(
                "sutehai_type"@,
                tiles_json(ascending(self.sutehai_type)),
            ).insert(
                "tehai"@,
                match self.tehai {
                    Some(tehai) => tehai.json(),
                    None => JsonModel::String("Not initialized."@),
                },
            ).insert("state"@, JsonModel::String(self.state.name())),
        )
    }

    /// An operation on the wall: it changes the wall and nothing else.
    pub open spec fn operate_haiyama(self, kind: HaiyamaOperationView, bound_check: bool) -> Result<
        GameView,
        Error,
    > {
        let wall = match kind {
            HaiyamaOperationView::Add(tiles) => self.haiyama.add_all(tiles, bound_check),
            HaiyamaOperationView::Discard(tiles) => self.haiyama.discard_all(tiles, bound_check),
        };
        match wall {
            Ok(haiyama) => Ok(GameView { haiyama, ..self }),
            Err(e) => Err(e),
        }
    }

    /// What the hand makes of `op`, which the state accepts.
    pub open spec fn hand_outcome(self, op: TehaiOperationView) -> Result<HandOutcome, Error> {
        match op {
            TehaiOperationView::Initialize(tehai) => {
                if tehai.fuuro.len() != 0 {
                    Err(Error::InvalidHandInitialization)
                } else if tehai.juntehai.len() == 13 {
                    Ok(HandOutcome { tehai, state: State::LackOneHai, recorded: op })
                } else if tehai.juntehai.len() == 14 {
                    Ok(HandOutcome { tehai, state: State::FullHai, recorded: op })
                } else {
                    Err(Error::InvalidHandInitialization)
                }
            },
            TehaiOperationView::Add { hai, .. } => Ok(
                HandOutcome {
                    tehai: self.tehai.unwrap().add(hai),
                    state: State::FullHai,
                    recorded: op,
                },
            ),
            TehaiOperationView::Discard(hai) => match self.tehai.unwrap().discard(hai) {
                Ok(tehai) => Ok(HandOutcome { tehai, state: State::LackOneHai, recorded: op }),
                Err(e) => Err(e),
            },
            TehaiOperationView::Naku { kind, bound_check } => match kind {
                Naku::Chii { juntsu, nakihai } => match self.tehai.unwrap().chii(juntsu, nakihai) {
                    Ok(tehai) => Ok(HandOutcome { tehai, state: State::FullHai, recorded: op }),
                    Err(e) => Err(e),
                },
                Naku::Pon(koutsu) => match self.tehai.unwrap().pon(koutsu) {
                    Ok(tehai) => Ok(HandOutcome { tehai, state: State::FullHai, recorded: op }),
                    Err(e) => Err(e),
                },
                Naku::Kan(kan) => match self.tehai.unwrap().kan(kan.kantsu(), kan.rinshanhai()) {
                    Ok((tehai, found)) => if kan_allowed(self.state, found) {
                        Ok(
                            HandOutcome {
                                tehai,
                                state: if kan.rinshanhai() is Some {
                                    State::FullHai
                                } else {
                                    State::WaitForRinshanhai
                                },
                                recorded: TehaiOperationView::Naku {
                                    kind: Naku::Kan(found),
                                    bound_check,
                                },
                            },
                        )
                    } else {
                        Err(Error::InternalInconsistency)
                    },
                    Err(e) => Err(e),
                },
            },
        }
    }

    /// An operation on the hand. It is refused where the state does not
    /// accept it, and a hand that cannot be dealt is refused before the wall
    /// is asked. Then the wall gives the tiles that the operation spends, and
    /// the hand does its part; either may refuse. Only if both agree does
    /// anything change.
    pub open spec fn operate_tehai(self, op: TehaiOperationView) -> Result<
        (GameView, TehaiOperationView),
        Error,
    > {
        if !op.accepted_in(self.state) {
            Err(Error::IllegalOperationForPhase)
        } else if op is Initialize && self.hand_outcome(op) is Err {
            Err(Error::InvalidHandInitialization)
        } else {
            match self.haiyama.discard_all(op.spent(self.state), op.strict()) {
                Err(e) => Err(e),
                Ok(haiyama) => match self.hand_outcome(op) {
                    Err(e) => Err(e),
                    Ok(outcome) => Ok(
                        (
                            GameView {
                                haiyama,
                                tehai: Some(outcome.tehai),
                                sutehai_type: match op {
                                    TehaiOperationView::Discard(hai) => self.sutehai_type.insert(
                                        hai,
                                    ),
                                    _ => self.sutehai_type,
                                },
                                state: outcome.state,
                                history: self.history,
                            },
                            outcome.recorded,
                        ),
                    ),
                },
            }
        }
    }

    /// The game after `op`, without the entry in the log, and `op` as it is
    /// to be recorded; or the reason why `op` is refused.
    pub open spec fn transition(self, op: OperationView) -> Result<
        (GameView, OperationView),
        Error,
    > {
        match op {
            OperationView::Haiyama { kind, bound_check } => match self.operate_haiyama(
                kind,
                bound_check,
            ) {
                Ok(next) => Ok((next, op)),
                Err(e) => Err(e),
            },
            OperationView::Tehai(hand_op) => match self.operate_tehai(hand_op) {
                Ok((next, recorded)) => Ok((next, OperationView::Tehai(recorded))),
                Err(e) => Err(e),
            },
        }
    }

    /// The game after `op`: as [`GameView::transition`] says, with the
    /// operation and the state it met appended to the log. A refused
    /// operation gives the reason and no game.
    pub open spec fn step(self, op: OperationView) -> Result<GameView, Error> {
        match self.transition(op) {
            Ok((next, recorded)) => Ok(
                GameView { history: self.history.push((recorded, self.state)), ..next },
            ),
            Err(e) => Err(e),
        }
    }
}

} // verus!
