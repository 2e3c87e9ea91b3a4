//! A game over time: what holds after any number of operations.

use super::error::Error;
use super::game_manager::{Kan, Naku, State};
use super::hai::Hai;
use super::haiyama::{
    lemma_discard_all_count, lemma_player_number_stays, supply, PlayerNumber,
};
use super::mentsu::Mentsu;
use super::model::{GameView, HaiyamaOperationView, OperationView, TehaiOperationView};
use super::tehai::{count_in, lemma_count_in_concat, lemma_count_in_empty, lemma_count_in_push};
use vstd::prelude::*;

verus! {

impl Kan {
    /// The kan as it is asked for: the same quad and replacement tile, with
    /// the kind left open.
    pub open spec fn as_request(self) -> Kan {
        Kan::Unknown { kantsu: self.kantsu(), rinshanhai: self.rinshanhai() }
    }
}

impl OperationView {
    /// The operation as it is asked for. Only a kan is recorded otherwise
    /// than it was asked for: with the kind that the hand found.
    pub open spec fn as_request(self) -> OperationView {
        match self {
            OperationView::Tehai(TehaiOperationView::Naku { kind: Naku::Kan(kan), bound_check }) =>
                OperationView::Tehai(
                TehaiOperationView::Naku { kind: Naku::Kan(kan.as_request()), bound_check },
            ),
            _ => self,
        }
    }

    /// Whether the operation says all that a record of it has to say: a kan
    /// says of which kind it is.
    pub open spec fn is_settled(self) -> bool {
        match self {
            OperationView::Tehai(TehaiOperationView::Naku { kind: Naku::Kan(kan), .. }) => !(kan
                is Unknown),
            _ => true,
        }
    }

    /// Whether this is an operation on the hand that a shortage in the wall fails.
    pub open spec fn is_strict_hand_operation(self) -> bool {
        match self {
            OperationView::Tehai(op) => op.strict(),
            _ => false,
        }
    }
}

/// The operations that `log` records, each as it was asked for.
pub open spec fn requests(log: Seq<(OperationView, State)>) -> Seq<OperationView> {
    log.map_values(|entry: (OperationView, State)| entry.0.as_request())
}

/// How often the log records that `hai` was discarded.
pub open spec fn discards_logged(history: Seq<(OperationView, State)>, hai: Hai) -> nat
    decreases history.len(),
{
    if history.len() == 0 {
        0
    } else {
        discards_logged(history.drop_last(), hai) + if history.last().0 == OperationView::Tehai(
            TehaiOperationView::Discard(hai),
        ) {
            1nat
        } else {
            0nat
        }
    }
}

impl GameView {
    /// The game after the operations `ops`, asked for one after the other.
    /// A refused operation leaves the game as it is.
    pub open spec fn run(self, ops: Seq<OperationView>) -> GameView
        decreases ops.len(),
    {
        if ops.len() == 0 {
            self
        } else {
            let before = self.run(ops.drop_last());
            match before.step(ops.last()) {
                Ok(next) => next,
                Err(_) => before,
            }
        }
    }

    /// The game after every entry of `log` was asked for again, in order,
    /// starting from this game. There is none if an entry meets another
    /// state than it records, or is refused.
    pub open spec fn replay(self, log: Seq<(OperationView, State)>) -> Option<GameView>
        decreases log.len(),
    {
        if log.len() == 0 {
            Some(self)
        } else {
            match self.replay(log.drop_last()) {
                Some(before) => if before.state == log.last().1 {
                    match before.step(log.last().0.as_request()) {
                        Ok(next) => Some(next),
                        Err(_) => None,
                    }
                } else {
                    None
                },
                None => None,
            }
        }
    }

    /// Copies of `hai` that the hand holds, concealed and exposed.
    pub open spec fn held(self, hai: Hai) -> nat {
        match self.tehai {
            Some(tehai) => tehai.count(hai),
            None => 0,
        }
    }

    /// Whether the game is the one that its log tells of: asking a new game,
    /// with a full wall for as many players, for what the log records leads
    /// to this game.
    pub open spec fn follows_its_log(self) -> bool {
        GameView::fresh(self.haiyama.player_number).replay(self.history) == Some(self)
    }

    /// Whether the hand has the size that the state names: fourteen tiles
    /// when it is full, thirteen when it is a tile short or waits for the
    /// replacement tile of a kan.
    pub open spec fn hand_fits_state(self) -> bool {
        match self.state {
            State::WaitToInit => true,
            State::FullHai => self.tehai.unwrap().size() == 14,
            State::LackOneHai => self.tehai.unwrap().size() == 13,
            State::WaitForRinshanhai => self.tehai.unwrap().size() == 13,
        }
    }

    /// Whether every kan in the log says of which kind it is.
    pub open spec fn log_is_settled(self) -> bool {
        forall|i: int| 0 <= i < self.history.len() ==> (#[trigger] self.history[i]).0.is_settled()
    }

    /// Copies of `hai` in the wall, in the hand, and among the tiles that
    /// the log says were discarded.
    pub open spec fn tally(self, hai: Hai) -> nat {
        self.haiyama.count(hai) + self.held(hai) + discards_logged(self.history, hai)
    }
}

/// An accepted operation leaves a well-formed game well formed.
pub proof fn lemma_step_keeps_wf(game: GameView, op: OperationView)
    requires
        game.wf(),
    ensures
        game.step(op) matches Ok(next) ==> next.wf(),
{
}

/// Any number of operations leaves a well-formed game well formed.
pub proof fn lemma_run_keeps_wf(game: GameView, ops: Seq<OperationView>)
    requires
        game.wf(),
    ensures
        game.run(ops).wf(),
    decreases ops.len(),
{
    if ops.len() > 0 {
        lemma_run_keeps_wf(game, ops.drop_last());
        lemma_step_keeps_wf(game.run(ops.drop_last()), ops.last());
    }
}

/// An accepted operation forgets no discarded tile type, and adds exactly
/// one entry to the log: itself as it was asked for, but for a kan, which says
/// of which kind it was; and the state it met.
pub proof fn lemma_step_grows(game: GameView, op: OperationView)
    ensures
        game.step(op) matches Ok(next) ==> {
            &&& game.sutehai_type.subset_of(next.sutehai_type)
            &&& next.history.len() == game.history.len() + 1
            &&& next.history.drop_last() == game.history
            &&& next.history.last().1 == game.state
            &&& next.history.last().0.as_request() == op
            &&& next.history.last().0.is_settled()
        },
{
    if let Ok(next) = game.step(op) {
        assert(next.history.drop_last() =~= game.history);
        if let OperationView::Tehai(hand_op) = op {
            if let TehaiOperationView::Naku { kind: Naku::Kan(kan), bound_check } = hand_op {
                game.tehai.unwrap().lemma_kan(kan.kantsu(), kan.rinshanhai(), arbitrary());
            }
        }
    }
}

/// No kan stays in the log without its kind: a log in which every kan is
/// settled stays so, whatever is asked.
pub proof fn lemma_log_stays_settled(game: GameView, ops: Seq<OperationView>)
    requires
        game.log_is_settled(),
    ensures
        game.run(ops).log_is_settled(),
    decreases ops.len(),
{
    if ops.len() > 0 {
        let before = game.run(ops.drop_last());
        lemma_log_stays_settled(game, ops.drop_last());
        lemma_step_grows(before, ops.last());
        if let Ok(next) = before.step(ops.last()) {
            assert forall|i: int| 0 <= i < next.history.len() implies (
            #[trigger] next.history[i]).0.is_settled() by {
                if i < before.history.len() {
                    assert(next.history[i] == next.history.drop_last()[i]);
                }
            }
        }
    }
}

/// An accepted operation leaves the hand as large as the state it leads to
/// names.
pub proof fn lemma_step_keeps_hand_size(game: GameView, op: OperationView)
    requires
        game.wf(),
        game.hand_fits_state(),
    ensures
        game.step(op) matches Ok(next) ==> next.hand_fits_state(),
{
    if let OperationView::Tehai(hand_op) = op {
        if game.step(op) is Ok {
            let tehai = game.tehai.unwrap();
            let any: Hai = arbitrary();
            match hand_op {
                TehaiOperationView::Initialize(_) => {},
                TehaiOperationView::Add { hai, .. } => {
                    tehai.lemma_add(hai, any);
                },
                TehaiOperationView::Discard(hai) => {
                    tehai.lemma_discard(hai, any);
                },
                TehaiOperationView::Naku { kind, .. } => match kind {
                    Naku::Chii { juntsu, nakihai } => {
                        tehai.lemma_chii(juntsu, nakihai, any);
                    },
                    Naku::Pon(koutsu) => {
                        tehai.lemma_pon(koutsu, any);
                    },
                    Naku::Kan(kan) => {
                        tehai.lemma_kan(kan.kantsu(), kan.rinshanhai(), any);
                    },
                },
            }
        }
    }
}

/// Whatever is asked of a new game, the hand is as large as the state names.
pub proof fn lemma_hand_size(player_number: PlayerNumber, ops: Seq<OperationView>)
    ensures
        GameView::fresh(player_number).run(ops).hand_fits_state(),
    decreases ops.len(),
{
    if ops.len() > 0 {
        let start = GameView::fresh(player_number);
        lemma_hand_size(player_number, ops.drop_last());
        lemma_run_keeps_wf(start, ops.drop_last());
        lemma_step_keeps_hand_size(start.run(ops.drop_last()), ops.last());
    }
}

/// The set of discarded tile types never shrinks: after any number of
/// operations it holds every type it held before, and is no smaller.
pub proof fn lemma_discard_types_grow(game: GameView, ops: Seq<OperationView>)
    requires
        game.sutehai_type.finite(),
    ensures
        game.sutehai_type.subset_of(game.run(ops).sutehai_type),
        game.run(ops).sutehai_type.finite(),
        game.sutehai_type.len() <= game.run(ops).sutehai_type.len(),
    decreases ops.len(),
{
    if ops.len() > 0 {
        let before = game.run(ops.drop_last());
        lemma_discard_types_grow(game, ops.drop_last());
        lemma_step_grows(before, ops.last());
        vstd::set_lib::lemma_len_subset(before.sutehai_type, game.run(ops).sutehai_type);
    }
}

/// The log tells the whole story: asking again for what the log of a game
/// records, in order and from the game as it was before anything was asked,
/// gives the very same game, log included.
pub proof fn lemma_history_fidelity(start: GameView, ops: Seq<OperationView>)
    requires
        start.history.len() == 0,
    ensures
        start.replay(start.run(ops).history) == Some(start.run(ops)),
    decreases ops.len(),
{
    if ops.len() == 0 {
        assert(start.history =~= Seq::empty());
    } else {
        let before = start.run(ops.drop_last());
        lemma_history_fidelity(start, ops.drop_last());
        lemma_step_grows(before, ops.last());
    }
}

/// Asking again for what a log records, where that can be done, is asking
/// for the requests of the log one after the other.
pub proof fn lemma_replay_is_run(start: GameView, log: Seq<(OperationView, State)>)
    ensures
        start.replay(log) matches Some(game) ==> game == start.run(requests(log)),
    decreases log.len(),
{
    if log.len() > 0 {
        lemma_replay_is_run(start, log.drop_last());
        assert(requests(log).drop_last() =~= requests(log.drop_last()));
    }
}

/// An accepted operation leaves a game that follows its log one that follows its log.
pub proof fn lemma_step_follows_its_log(game: GameView, op: OperationView)
    requires
        game.follows_its_log(),
    ensures
        game.step(op) matches Ok(next) ==> next.follows_its_log(),
{
    if let Ok(next) = game.step(op) {
        lemma_step_grows(game, op);
        match op {
            OperationView::Haiyama { kind, bound_check } => {
                let tiles = match kind {
                    HaiyamaOperationView::Add(tiles) => tiles,
                    HaiyamaOperationView::Discard(tiles) => tiles,
                };
                lemma_player_number_stays(game.haiyama, tiles, bound_check);
            },
            OperationView::Tehai(hand_op) => {
                lemma_player_number_stays(
                    game.haiyama,
                    hand_op.spent(game.state),
                    hand_op.strict(),
                );
            },
        }
    }
}

/// A kan asked for while the hand is a tile short is never accepted as a
/// concealed one. Where the wall gives the tiles that the kan spends and the
/// hand finds four concealed copies, the kan is refused as inconsistent;
/// where the wall refuses, its reason is given.
pub proof fn lemma_concealed_kan_refused_when_short(
    game: GameView,
    kantsu: Mentsu,
    rinshanhai: Option<Hai>,
    bound_check: bool,
)
    requires
        game.wf(),
        game.state == State::LackOneHai,
        kantsu is Kantsu,
        game.tehai.unwrap().kan(kantsu, rinshanhai) matches Ok((_, kan)) && kan is Ankan,
    ensures
        ({
            let request = TehaiOperationView::Naku {
                kind: Naku::Kan(Kan::Unknown { kantsu, rinshanhai }),
                bound_check,
            };
            game.step(OperationView::Tehai(request)) == match game.haiyama.discard_all(
                request.spent(State::LackOneHai),
                bound_check,
            ) {
                Ok(_) => Err::<GameView, Error>(Error::InternalInconsistency),
                Err(e) => Err::<GameView, Error>(e),
            }
        }),
{
}

/// An operation on the hand for which the wall holds every tile it spends
/// moves tiles and loses none: of each tile there are as many copies as
/// before in the wall, the hand and the logged discards together.
pub proof fn lemma_step_conserves(game: GameView, op: TehaiOperationView, hai: Hai)
    requires
        game.wf(),
        game.step(OperationView::Tehai(op)) is Ok,
        game.haiyama.discard_all(op.spent(game.state), true) is Ok,
    ensures
        game.step(OperationView::Tehai(op)).unwrap().tally(hai) == game.tally(hai),
{
    let next = game.step(OperationView::Tehai(op)).unwrap();
    let spent = op.spent(game.state);
    lemma_discard_all_count(game.haiyama, spent, op.strict(), hai);
    assert(next.history.drop_last() =~= game.history);
    assert(next.haiyama.count(hai) + count_in(spent, hai) == game.haiyama.count(hai));
    match op {
        TehaiOperationView::Initialize(tehai) => {
            assert(tehai.fuuro.len() == 0);
        },
        TehaiOperationView::Add { hai: drawn, .. } => {
            game.tehai.unwrap().lemma_add(drawn, hai);
            lemma_count_in_empty(hai);
            lemma_count_in_push(Seq::empty(), drawn, hai);
            assert(spent =~= Seq::<Hai>::empty().push(drawn));
        },
        TehaiOperationView::Discard(thrown) => {
            game.tehai.unwrap().lemma_discard(thrown, hai);
            lemma_count_in_empty(hai);
            assert(spent =~= Seq::<Hai>::empty());
        },
        TehaiOperationView::Naku { kind, .. } => match kind {
            Naku::Chii { juntsu, nakihai } => {
                game.tehai.unwrap().lemma_chii(juntsu, nakihai, hai);
                lemma_count_in_empty(hai);
                lemma_count_in_push(Seq::empty(), nakihai, hai);
                assert(spent =~= Seq::<Hai>::empty().push(nakihai));
            },
            Naku::Pon(koutsu) => {
                game.tehai.unwrap().lemma_pon(koutsu, hai);
                lemma_count_in_empty(hai);
                lemma_count_in_push(Seq::empty(), koutsu->Koutsu_0, hai);
                assert(spent =~= Seq::<Hai>::empty().push(koutsu->Koutsu_0));
            },
            Naku::Kan(kan) => {
                game.tehai.unwrap().lemma_kan(kan.kantsu(), kan.rinshanhai(), hai);
                let claimed = match kan.kantsu() {
                    Mentsu::Kantsu(called) => if game.state == State::LackOneHai {
                        seq![called]
                    } else {
                        seq![]
                    },
                    _ => seq![],
                };
                let replacement = match kan.rinshanhai() {
                    Some(drawn) => seq![drawn],
                    None => seq![],
                };
                lemma_count_in_concat(claimed, replacement, hai);
                lemma_count_in_empty(hai);
                if claimed.len() > 0 {
                    lemma_count_in_push(Seq::empty(), claimed[0], hai);
                    assert(claimed =~= Seq::<Hai>::empty().push(claimed[0]));
                } else {
                    assert(claimed =~= Seq::<Hai>::empty());
                }
                if replacement.len() > 0 {
                    lemma_count_in_push(Seq::empty(), replacement[0], hai);
                    assert(replacement =~= Seq::<Hai>::empty().push(replacement[0]));
                } else {
                    assert(replacement =~= Seq::<Hai>::empty());
                }
            },
        },
    }
}

/// Tiles are conserved: however many strict operations on the hand are asked
/// of a new game, accepted or not, each tile is there as often as the set
/// holds it, counting the wall, the hand and the logged discards.
pub proof fn lemma_conservation(player_number: PlayerNumber, ops: Seq<OperationView>, hai: Hai)
    requires
        forall|i: int| 0 <= i < ops.len() ==> (#[trigger] ops[i]).is_strict_hand_operation(),
    ensures
        GameView::fresh(player_number).run(ops).tally(hai) == supply(player_number, hai),
    decreases ops.len(),
{
    let start = GameView::fresh(player_number);
    if ops.len() == 0 {
    } else {
        let before = start.run(ops.drop_last());
        lemma_conservation(player_number, ops.drop_last(), hai);
        lemma_run_keeps_wf(start, ops.drop_last());
        let op = ops.last();
        assert(op.is_strict_hand_operation());
        if before.step(op) is Ok {
            lemma_step_conserves(before, op->Tehai_0, hai);
        }
    }
}

} // verus!
