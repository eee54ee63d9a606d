//! The round state machine of a match.
//!
//! A match has not started until its first round begins. From then on the
//! round counter goes up by one per round, until an evaluation of the scores
//! finds a pilot whose win count equals the target. That pilot survives: the
//! match is concluded, and nothing moves it out of that state again.

use crate::config::GameRules;
use crate::pilot::{Pilot, PilotView};
use vstd::prelude::*;
use vstd::string::*;

verus! {

/// Where a match stands.
#[derive(Clone, Debug, PartialEq, Eq)]
pub enum Phase {
    /// No round has begun.
    NotStarted,
    /// Round `round` is being played.
    RoundInProgress { round: u64 },
    /// The match is over and `winner` survived.
    Concluded { winner: String },
}

/// What a phase is, apart from how it is stored.
pub enum PhaseView {
    NotStarted,
    RoundInProgress { round: nat },
    Concluded { winner: Seq<char> },
}

impl View for Phase {
    type V = PhaseView;

    open spec fn view(&self) -> PhaseView {
        match *self {
            Phase::NotStarted => PhaseView::NotStarted,
            Phase::RoundInProgress { round } => PhaseView::RoundInProgress { round: round as nat },
            Phase::Concluded { winner } => PhaseView::Concluded { winner: winner@ },
        }
    }
}

/// What the state of a match is, apart from how it is stored.
pub struct GameStateView {
    /// The number of rounds begun so far.
    pub round: nat,
    /// The name of the surviving pilot, once there is one.
    pub survivor: Option<Seq<char>>,
}

/// The views of `pilots`, in the same order.
pub open spec fn views(pilots: Seq<Pilot>) -> Seq<PilotView> {
    pilots.map_values(|pilot: Pilot| pilot@)
}

/// Whether `pilots[i]` holds exactly `target` wins and no pilot before it
/// does.
pub open spec fn is_first_winner(pilots: Seq<PilotView>, target: nat, i: int) -> bool {
    &&& 0 <= i < pilots.len()
    &&& pilots[i].wins == target
    &&& forall|j: int| 0 <= j < i ==> (#[trigger] pilots[j]).wins != target
}

/// Whether some pilot holds exactly `target` wins.
pub open spec fn has_winner(pilots: Seq<PilotView>, target: nat) -> bool {
    exists|i: int| 0 <= i < pilots.len() && (#[trigger] pilots[i]).wins == target
}

/// The position of the first pilot, in the order of `pilots`, that holds
/// exactly `target` wins.
pub open spec fn first_winner(pilots: Seq<PilotView>, target: nat) -> Option<int>
    decreases pilots.len(),
{
    if pilots.len() == 0 {
        None
    } else {
        match first_winner(pilots.drop_last(), target) {
            Some(i) => Some(i),
            None => if pilots.last().wins == target {
                Some(pilots.len() - 1)
            } else {
                None
            },
        }
    }
}

impl GameStateView {
    /// The state of a match before its first round.
    pub open spec fn initial() -> GameStateView {
        GameStateView { round: 0, survivor: None }
    }

    /// Whether the match is over.
    pub open spec fn is_concluded(self) -> bool {
        self.survivor is Some
    }

    /// Where the match stands: concluded once there is a survivor, and
    /// before that in the round last begun, if any.
    pub open spec fn phase(self) -> PhaseView {
        match self.survivor {
            Some(winner) => PhaseView::Concluded { winner },
            None => if self.round == 0 {
                PhaseView::NotStarted
            } else {
                PhaseView::RoundInProgress { round: self.round }
            },
        }
    }

    /// The state after beginning the next round. A concluded match stays as
    /// it is.
    pub open spec fn advanced(self) -> GameStateView {
        if self.is_concluded() {
            self
        } else {
            GameStateView { round: self.round + 1, ..self }
        }
    }

    /// The state after checking the scores of `pilots` against `target`:
    /// the first pilot in order that holds exactly `target` wins survives.
    /// A concluded match keeps the survivor it has.
    pub open spec fn evaluated(self, pilots: Seq<PilotView>, target: nat) -> GameStateView {
        if self.is_concluded() {
            self
        } else {
            match first_winner(pilots, target) {
                Some(i) => GameStateView { survivor: Some(pilots[i].name), ..self },
                None => self,
            }
        }
    }
}

/// `first_winner` finds a pilot exactly when one holds the target, and the
/// one it finds is the earliest such pilot.
pub proof fn lemma_first_winner(pilots: Seq<PilotView>, target: nat)
    ensures
        first_winner(pilots, target) is Some <==> has_winner(pilots, target),
        first_winner(pilots, target) matches Some(i) ==> is_first_winner(pilots, target, i),
        forall|i: int|
            is_first_winner(pilots, target, i) ==> first_winner(pilots, target) == Some(i),
    decreases pilots.len(),
{
    if pilots.len() > 0 {
        let front = pilots.drop_last();
        lemma_first_winner(front, target);
        assert(forall|j: int| 0 <= j < front.len() ==> front[j] == pilots[j]);
        match first_winner(front, target) {
            Some(i) => {
                assert(pilots[i].wins == target);
                assert(is_first_winner(pilots, target, i));
                assert forall|k: int| is_first_winner(pilots, target, k) implies k == i by {
                    if k < i {
                        assert(front[k].wins == target);
                    } else if k > i {
                        assert(pilots[i].wins != target);
                    }
                }
            },
            None => {
                assert(forall|j: int| 0 <= j < front.len() ==> (#[trigger] front[j]).wins != target);
                if pilots.last().wins == target {
                    let last = pilots.len() - 1;
                    assert(pilots[last].wins == target);
                    assert(is_first_winner(pilots, target, last));
                    assert forall|k: int| is_first_winner(pilots, target, k) implies k == last by {
                        if k < last {
                            assert(front[k].wins == target);
                        }
                    }
                } else {
                    assert forall|k: int| 0 <= k < pilots.len() implies (#[trigger] pilots[k]).wins
                        != target by {
                        if k < front.len() {
                            assert(front[k].wins != target);
                        }
                    }
                }
            },
        }
    }
}

/// Evaluating the scores of a match that is not over concludes it exactly
/// when some pilot holds the target, and then the first such pilot in order
/// is the survivor. The survivor is written once: a concluded match keeps
/// the one it has. Neither step ever takes the round counter back.
pub proof fn lemma_evaluated(state: GameStateView, pilots: Seq<PilotView>, target: nat)
    ensures
        state.evaluated(pilots, target).round == state.round,
        state.is_concluded() ==> state.evaluated(pilots, target) == state,
        !state.is_concluded() ==> (state.evaluated(pilots, target).is_concluded() <==> has_winner(
            pilots,
            target,
        )),
        forall|i: int|
            !state.is_concluded() && is_first_winner(pilots, target, i) ==> state.evaluated(
                pilots,
                target,
            ).survivor == Some(pilots[i].name),
        state.advanced().survivor == state.survivor,
        state.advanced().round >= state.round,
{
    lemma_first_winner(pilots, target);
}

/// The state of a match: how many rounds have begun and who, if anyone, has
/// survived.
pub struct GameState {
    current_round: u64,
    surviving_pilot: Option<String>,
}

impl View for GameState {
    type V = GameStateView;

    closed spec fn view(&self) -> GameStateView {
        GameStateView {
            round: self.current_round as nat,
            survivor: match self.surviving_pilot {
                Some(name) => Some(name@),
                None => None,
            },
        }
    }
}

impl GameState {
    /// The state of a match before its first round.
    pub fn new() -> (state: GameState)
        ensures
            state@ == GameStateView::initial(),
    {
        GameState { current_round: 0, surviving_pilot: None }
    }

    /// The number of rounds begun so far.
    pub fn current_round(&self) -> (round: u64)
        ensures
            round == self@.round,
    {
        self.current_round
    }

    /// The name of the surviving pilot, once the match is concluded.
    pub fn surviving_pilot(&self) -> (survivor: Option<&str>)
        ensures
            survivor is Some <==> self@.is_concluded(),
            survivor matches Some(name) ==> self@.survivor == Some(name@),
    {
        match &self.surviving_pilot {
            Some(name) => Some(name.as_str()),
            None => None,
        }
    }

    /// Where the match stands.
    pub fn phase(&self) -> (phase: Phase)
        ensures
            phase@ == self@.phase(),
    {
        match &self.surviving_pilot {
            Some(winner) => Phase::Concluded { winner: winner.clone() },
            None => if self.current_round == 0 {
                Phase::NotStarted
            } else {
                Phase::RoundInProgress { round: self.current_round }
            },
        }
    }

    /// Whether the match is over. Once it is, the caller should stop
    /// playing rounds.
    pub fn is_concluded(&self) -> (concluded: bool)
        ensures
            concluded == self@.is_concluded(),
    {
        self.surviving_pilot.is_some()
    }

    /// Begins the next round and returns its number. A concluded match stays
    /// as it is, and `None` is returned.
    pub fn advance_round(&mut self) -> (begun: Option<u64>)
        requires
            !old(self)@.is_concluded() ==> old(self)@.round < u64::MAX,
        ensures
            final(self)@ == old(self)@.advanced(),
            begun is Some <==> !old(self)@.is_concluded(),
            begun matches Some(round) ==> round == old(self)@.round + 1,
    {
        if self.surviving_pilot.is_some() {
            None
        } else {
            self.current_round = self.current_round + 1;
            Some(self.current_round)
        }
    }

    /// Checks the scores: the first pilot of `pilots`, in order, whose win
    /// count equals the target of `rules` survives, and the match is
    /// concluded. Without such a pilot, or with the match concluded before,
    /// nothing changes. Returns whether the match is now concluded.
    pub fn evaluate_scores(&mut self, rules: &GameRules, pilots: &[Pilot]) -> (concluded: bool)
        ensures
            final(self)@ == old(self)@.evaluated(views(pilots@), rules.target()),
            concluded == final(self)@.is_concluded(),
            concluded <==> old(self)@.is_concluded() || has_winner(views(pilots@), rules.target()),
            final(self)@.round == old(self)@.round,
    {
        if self.surviving_pilot.is_some() {
            return true;
        }
        match find_first_winner(rules, pilots) {
            Some(i) => {
                proof {
                    assert(views(pilots@)[i as int] == pilots@[i as int]@);
                }
                self.surviving_pilot = Some(pilots[i].name().to_owned());
                true
            },
            None => false,
        }
    }
}

/// Finds the first pilot of `pilots`, in order, whose win count equals the
/// target of `rules`.
pub fn find_first_winner(rules: &GameRules, pilots: &[Pilot]) -> (found: Option<usize>)
    ensures
        found is Some <==> has_winner(views(pilots@), rules.target()),
        found matches Some(i) ==> is_first_winner(views(pilots@), rules.target(), i as int),
        match found {
            Some(i) => first_winner(views(pilots@), rules.target()) == Some(i as int),
            None => first_winner(views(pilots@), rules.target()) is None,
        },
{
    let ghost all = views(pilots@);
    let ghost target = rules.target();
    proof {
        lemma_first_winner(all, target);
    }
    let max_wins: u32 = rules.max_wins();
    let mut i: usize = 0;
    while i < pilots.len()
        invariant
            i <= pilots@.len(),
            all == views(pilots@),
            target == rules.target(),
            max_wins == target,
            forall|j: int| 0 <= j < i ==> (#[trigger] all[j]).wins != target,
        decreases pilots@.len() - i,
    {
        proof {
            assert(all[i as int] == pilots@[i as int]@);
        }
        if pilots[i].wins() == max_wins {
            proof {
                assert(is_first_winner(all, target, i as int));
                lemma_first_winner(all, target);
            }
            return Some(i);
        }
        i = i + 1;
    }
    proof {
        assert(!has_winner(all, target));
    }
    None
}

} // verus!
