//! A whole match, played tick by tick.
//!
//! One tick is one round: the round counter goes up, every pilot that has no
//! machine yet is composed, the scores are checked, and the summary is
//! written. Wins are credited between ticks by whoever resolves the fights.
//! Once a tick has concluded the match, further ticks do nothing.

use crate::config::GameRules;
use crate::pilot::{lemma_compose_preserves, Pilot, PilotView, BLUE_RAIN, NINEBREAKER};
use crate::report::{
    round_banner, spec_round_banner, spec_survivor_line, summaries, summary_lines, survivor_line,
};
use crate::round::{
    has_winner, is_first_winner, lemma_first_winner, views, GameState, GameStateView,
};
use vstd::prelude::*;
use vstd::string::*;

verus! {

/// The pilots of a standard match, in the order in which they are scored:
/// neither has a win or a machine yet.
pub open spec fn spec_standard_roster() -> Seq<PilotView> {
    seq![
        PilotView { name: BLUE_RAIN@, wins: 0, parts: Seq::empty() },
        PilotView { name: NINEBREAKER@, wins: 0, parts: Seq::empty() },
    ]
}

/// Every pilot of `pilots` after composition.
pub open spec fn compose_all(pilots: Seq<PilotView>) -> Seq<PilotView> {
    pilots.map_values(|pilot: PilotView| pilot.composed())
}

/// What can happen to a match: a round is played, or the pilot at a
/// position of the roster is credited with a win.
pub enum Event {
    Tick,
    Win { pilot: int },
}

/// The number of ticks among `events`.
pub open spec fn ticks_in(events: Seq<Event>) -> nat
    decreases events.len(),
{
    if events.len() == 0 {
        0
    } else {
        ticks_in(events.drop_last()) + if events.last() is Tick {
            1nat
        } else {
            0nat
        }
    }
}

/// What a match is, apart from how it is stored.
pub struct SimulationView {
    /// The number of wins that ends the match.
    pub target: nat,
    /// The round counter and the survivor, if any.
    pub state: GameStateView,
    /// The pilots in the order in which they are scored.
    pub pilots: Seq<PilotView>,
}

impl SimulationView {
    /// The match after one tick. A concluded match stays as it is.
    /// Otherwise the next round begins, every pilot is composed, and the
    /// scores are checked.
    pub open spec fn ticked(self) -> SimulationView {
        if self.state.is_concluded() {
            self
        } else {
            let pilots = compose_all(self.pilots);
            SimulationView {
                state: self.state.advanced().evaluated(pilots, self.target),
                pilots,
                ..self
            }
        }
    }

    /// The match after crediting the pilot at `index` with a win.
    pub open spec fn with_win(self, index: int) -> SimulationView
        recommends
            0 <= index < self.pilots.len(),
    {
        SimulationView { pilots: self.pilots.update(index, self.pilots[index].with_win()), ..self }
    }

    /// The match after an attempt to credit the pilot at `index` with a
    /// win: where there is no such pilot, or the pilot's counter is full,
    /// nothing changes.
    pub open spec fn credited(self, index: int) -> SimulationView {
        if 0 <= index < self.pilots.len() && self.pilots[index].wins < u32::MAX {
            self.with_win(index)
        } else {
            self
        }
    }

    /// The match after `event`.
    pub open spec fn after(self, event: Event) -> SimulationView {
        match event {
            Event::Tick => self.ticked(),
            Event::Win { pilot } => self.credited(pilot),
        }
    }

    /// The match after `events`, one after the other.
    pub open spec fn after_all(self, events: Seq<Event>) -> SimulationView
        decreases events.len(),
    {
        if events.len() == 0 {
            self
        } else {
            self.after_all(events.drop_last()).after(events.last())
        }
    }

    /// Whether no two pilots of the roster share a name.
    pub open spec fn names_unique(self) -> bool {
        forall|i: int, j: int|
            0 <= i < j < self.pilots.len() ==> (#[trigger] self.pilots[i]).name != (
            #[trigger] self.pilots[j]).name
    }

    /// What the tick that led to this state puts out: the banner of the
    /// round, the summary of each pilot and, if the match is over, the line
    /// that names the survivor.
    pub open spec fn output(self) -> Seq<Seq<char>> {
        seq![spec_round_banner(self.state.round)] + summaries(self.pilots) + match self.state.survivor {
            Some(name) => seq![spec_survivor_line(name)],
            None => Seq::empty(),
        }
    }
}

/// What one tick did.
pub struct TickReport {
    /// The number of the round that was played.
    pub round: u64,
    /// The lines put out, in order.
    pub lines: Vec<String>,
    /// Whether the tick concluded the match, so that the caller should stop.
    pub concluded: bool,
}

/// A match between the pilots of a roster under fixed rules.
pub struct Simulation {
    rules: GameRules,
    state: GameState,
    pilots: Vec<Pilot>,
}

impl View for Simulation {
    type V = SimulationView;

    closed spec fn view(&self) -> SimulationView {
        SimulationView { target: self.rules.target(), state: self.state@, pilots: views(self.pilots@) }
    }
}

/// The pilots of a standard match, in the order in which they are scored.
pub fn standard_roster() -> (pilots: Vec<Pilot>)
    ensures
        views(pilots@) == spec_standard_roster(),
{
    let mut pilots: Vec<Pilot> = Vec::new();
    pilots.push(Pilot::new(BLUE_RAIN));
    pilots.push(Pilot::new(NINEBREAKER));
    proof {
        assert(views(pilots@) =~= spec_standard_roster());
    }
    pilots
}

/// Composes every pilot of `pilots` that has no machine yet.
pub fn compose_roster(pilots: &mut Vec<Pilot>)
    ensures
        views(final(pilots)@) == compose_all(views(old(pilots)@)),
{
    let ghost before = views(pilots@);
    let mut i: usize = 0;
    while i < pilots.len()
        invariant
            i <= pilots@.len(),
            pilots@.len() == before.len(),
            forall|j: int| 0 <= j < i ==> (#[trigger] pilots@[j])@ == before[j].composed(),
            forall|j: int| i <= j < pilots@.len() ==> (#[trigger] pilots@[j])@ == before[j],
        decreases pilots@.len() - i,
    {
        pilots[i].compose();
        i = i + 1;
    }
    proof {
        assert(views(pilots@) =~= compose_all(before));
    }
}

/// The summaries of `pilots`, pilot after pilot.
pub fn roster_summary(pilots: &[Pilot]) -> (lines: Vec<String>)
    ensures
        lines.deep_view() == summaries(views(pilots@)),
{
    let mut lines: Vec<String> = Vec::new();
    let mut i: usize = 0;
    proof {
        assert(views(pilots@).take(0) =~= Seq::<PilotView>::empty());
        assert(lines.deep_view() =~= Seq::<Seq<char>>::empty());
    }
    while i < pilots.len()
        invariant
            i <= pilots@.len(),
            lines.deep_view() == summaries(views(pilots@).take(i as int)),
        decreases pilots@.len() - i,
    {
        let ghost so_far = lines.deep_view();
        let mut pair = summary_lines(&pilots[i]);
        let ghost pair_view = pair.deep_view();
        lines.append(&mut pair);
        proof {
            let all = views(pilots@);
            assert(all.take(i + 1).drop_last() =~= all.take(i as int));
            assert(all.take(i + 1).last() == pilots@[i as int]@);
            assert(lines.deep_view() =~= so_far + pair_view);
        }
        i = i + 1;
    }
    proof {
        assert(views(pilots@).take(i as int) =~= views(pilots@));
    }
    lines
}

impl Simulation {
    /// A match between the pilots of the standard roster that has not
    /// started yet.
    pub fn new(rules: GameRules) -> (simulation: Simulation)
        ensures
            simulation@ == (SimulationView {
                target: rules.target(),
                state: GameStateView::initial(),
                pilots: spec_standard_roster(),
            }),
    {
        Simulation { rules, state: GameState::new(), pilots: standard_roster() }
    }

    /// The rules the match is played under.
    pub fn rules(&self) -> (rules: &GameRules)
        ensures
            rules.target() == self@.target,
    {
        &self.rules
    }

    /// Where the match stands.
    pub fn state(&self) -> (state: &GameState)
        ensures
            state@ == self@.state,
    {
        &self.state
    }

    /// The pilots in the order in which they are scored.
    pub fn pilots(&self) -> (pilots: &[Pilot])
        ensures
            views(pilots@) == self@.pilots,
    {
        self.pilots.as_slice()
    }

    /// Credits the pilot at `index` with a win. Returns whether the win was
    /// recorded: it is not where there is no such pilot or the pilot's
    /// counter is full, and then nothing changes.
    pub fn record_win(&mut self, index: usize) -> (recorded: bool)
        ensures
            final(self)@ == old(self)@.credited(index as int),
            recorded == (index < old(self)@.pilots.len() && old(self)@.pilots[index as int].wins
                < u32::MAX),
    {
        if index >= self.pilots.len() {
            return false;
        }
        if self.pilots[index].wins() == u32::MAX {
            return false;
        }
        self.pilots[index].record_win();
        proof {
            assert(views(self.pilots@) =~= views(old(self).pilots@).update(
                index as int,
                views(old(self).pilots@)[index as int].with_win(),
            ));
        }
        true
    }

    /// Plays one round: begins it, composes every pilot that has no machine
    /// yet, checks the scores and writes the summary. Returns what was done,
    /// or `None` where the match was concluded before: then nothing happens.
    pub fn tick(&mut self) -> (report: Option<TickReport>)
        requires
            !old(self)@.state.is_concluded() ==> old(self)@.state.round < u64::MAX,
        ensures
            final(self)@ == old(self)@.ticked(),
            report is Some <==> !old(self)@.state.is_concluded(),
            report matches Some(done) ==> {
                &&& done.round == old(self)@.state.round + 1
                &&& done.lines.deep_view() == final(self)@.output()
                &&& done.concluded == final(self)@.state.is_concluded()
            },
    {
        let round: u64 = match self.state.advance_round() {
            Some(round) => round,
            None => {
                return None;
            },
        };
        let mut lines: Vec<String> = Vec::new();
        lines.push(round_banner(round));
        compose_roster(&mut self.pilots);
        let concluded = self.state.evaluate_scores(&self.rules, self.pilots.as_slice());
        let mut summary = roster_summary(self.pilots.as_slice());
        let ghost banner = lines.deep_view();
        let ghost summary_view = summary.deep_view();
        lines.append(&mut summary);
        proof {
            assert(lines.deep_view() =~= banner + summary_view);
            assert(banner =~= seq![spec_round_banner(round as nat)]);
        }
        match self.state.surviving_pilot() {
            Some(name) => {
                let ghost before = lines.deep_view();
                lines.push(survivor_line(name));
                proof {
                    assert(lines.deep_view() =~= before + seq![spec_survivor_line(name@)]);
                }
            },
            None => {
                proof {
                    assert(lines.deep_view() =~= lines.deep_view() + Seq::<Seq<char>>::empty());
                }
            },
        }
        Some(TickReport { round, lines, concluded })
    }
}

/// Composing the roster changes no pilot's name or wins, so it changes
/// neither whether there is a winner nor who comes first among them.
pub proof fn lemma_compose_all_keeps_scores(pilots: Seq<PilotView>, target: nat)
    ensures
        compose_all(pilots).len() == pilots.len(),
        forall|i: int|
            0 <= i < pilots.len() ==> (#[trigger] compose_all(pilots)[i]).name == pilots[i].name
                && compose_all(pilots)[i].wins == pilots[i].wins,
        has_winner(compose_all(pilots), target) <==> has_winner(pilots, target),
        forall|i: int|
            is_first_winner(compose_all(pilots), target, i) <==> is_first_winner(pilots, target, i),
{
    let composed = compose_all(pilots);
    assert forall|i: int| 0 <= i < pilots.len() implies (#[trigger] composed[i]).name
        == pilots[i].name && composed[i].wins == pilots[i].wins by {
        lemma_compose_preserves(pilots[i]);
    }
    if has_winner(pilots, target) {
        let i = choose|i: int| 0 <= i < pilots.len() && (#[trigger] pilots[i]).wins == target;
        assert(composed[i].wins == target);
    }
    if has_winner(composed, target) {
        let i = choose|i: int| 0 <= i < composed.len() && (#[trigger] composed[i]).wins == target;
        assert(pilots[i].wins == target);
    }
    assert forall|i: int| is_first_winner(composed, target, i) <==> is_first_winner(
        pilots,
        target,
        i,
    ) by {
        if is_first_winner(composed, target, i) {
            assert forall|j: int| 0 <= j < i implies (#[trigger] pilots[j]).wins != target by {
                assert(composed[j].wins != target);
            }
        }
        if is_first_winner(pilots, target, i) {
            assert forall|j: int| 0 <= j < i implies (#[trigger] composed[j]).wins != target by {
                assert(pilots[j].wins != target);
            }
        }
    }
}

/// The two pilots of the standard roster go by different names.
pub proof fn lemma_standard_roster_names_unique(target: nat, state: GameStateView)
    ensures
        (SimulationView { target, state, pilots: spec_standard_roster() }).names_unique(),
{
    reveal_strlit("Blue Rain");
    reveal_strlit("Ninebreaker");
    assert(BLUE_RAIN@.len() == 9);
    assert(NINEBREAKER@.len() == 11);
}

/// No event changes the rules, the size or order of the roster or a
/// pilot's name; none takes a win away; and none touches the parts of a
/// pilot that has its machine.
pub proof fn lemma_event_keeps_roster(simulation: SimulationView, event: Event)
    ensures
        simulation.after(event).target == simulation.target,
        simulation.after(event).pilots.len() == simulation.pilots.len(),
        forall|i: int|
            0 <= i < simulation.pilots.len() ==> {
                let before = simulation.pilots[i];
                let after = #[trigger] simulation.after(event).pilots[i];
                &&& after.name == before.name
                &&& after.wins >= before.wins
                &&& before.is_composed() ==> after.parts == before.parts
                &&& before.wf() ==> after.wf()
            },
        simulation.names_unique() ==> simulation.after(event).names_unique(),
{
    let next = simulation.after(event);
    assert forall|i: int| 0 <= i < simulation.pilots.len() implies {
        let before = simulation.pilots[i];
        let after = #[trigger] next.pilots[i];
        &&& after.name == before.name
        &&& after.wins >= before.wins
        &&& before.is_composed() ==> after.parts == before.parts
        &&& before.wf() ==> after.wf()
    } by {
        lemma_compose_preserves(simulation.pilots[i]);
    }
    if simulation.names_unique() {
        assert forall|i: int, j: int| 0 <= i < j < next.pilots.len() implies (
        #[trigger] next.pilots[i]).name != (#[trigger] next.pilots[j]).name by {
            assert(simulation.pilots[i].name != simulation.pilots[j].name);
        }
    }
}

/// Over any run of ticks and wins the roster stays what it was: the same
/// pilots in the same order under the same rules. Wins are only ever added,
/// and a machine, once assembled, is never changed.
pub proof fn lemma_run_keeps_roster(simulation: SimulationView, events: Seq<Event>)
    ensures
        simulation.after_all(events).target == simulation.target,
        simulation.after_all(events).pilots.len() == simulation.pilots.len(),
        forall|i: int|
            0 <= i < simulation.pilots.len() ==> {
                let before = simulation.pilots[i];
                let after = #[trigger] simulation.after_all(events).pilots[i];
                &&& after.name == before.name
                &&& after.wins >= before.wins
                &&& before.is_composed() ==> after.parts == before.parts
                &&& before.wf() ==> after.wf()
            },
        simulation.names_unique() ==> simulation.after_all(events).names_unique(),
    decreases events.len(),
{
    if events.len() > 0 {
        let middle = simulation.after_all(events.drop_last());
        lemma_run_keeps_roster(simulation, events.drop_last());
        lemma_event_keeps_roster(middle, events.last());
        assert forall|i: int| 0 <= i < simulation.pilots.len() implies {
            let before = simulation.pilots[i];
            let after = #[trigger] simulation.after_all(events).pilots[i];
            &&& after.name == before.name
            &&& after.wins >= before.wins
            &&& before.is_composed() ==> after.parts == before.parts
            &&& before.wf() ==> after.wf()
        } by {
            let between = middle.pilots[i];
            assert(between.name == simulation.pilots[i].name);
        }
    }
}

/// A tick of a match that is not over begins exactly one round. A tick of a
/// concluded match changes nothing at all.
pub proof fn lemma_tick_round(simulation: SimulationView)
    ensures
        !simulation.state.is_concluded() ==> simulation.ticked().state.round
            == simulation.state.round + 1,
        simulation.state.is_concluded() ==> simulation.ticked() == simulation,
        simulation.ticked().target == simulation.target,
        simulation.ticked().pilots.len() == simulation.pilots.len(),
{
}

/// A tick concludes a match exactly when some pilot holds exactly the
/// target number of wins: not before a pilot gets there, and at once when
/// one does.
pub proof fn lemma_tick_concludes(simulation: SimulationView)
    requires
        !simulation.state.is_concluded(),
    ensures
        simulation.ticked().state.is_concluded() <==> has_winner(
            simulation.pilots,
            simulation.target,
        ),
{
    lemma_compose_all_keeps_scores(simulation.pilots, simulation.target);
    lemma_first_winner(compose_all(simulation.pilots), simulation.target);
}

/// Where several pilots hold the target at the same tick, the one that
/// comes first in the roster is the survivor.
pub proof fn lemma_tick_survivor(simulation: SimulationView, first: int)
    requires
        !simulation.state.is_concluded(),
        is_first_winner(simulation.pilots, simulation.target, first),
    ensures
        simulation.ticked().state.survivor == Some(simulation.pilots[first].name),
{
    lemma_compose_all_keeps_scores(simulation.pilots, simulation.target);
    lemma_first_winner(compose_all(simulation.pilots), simulation.target);
}

/// Over any run of ticks and wins the round counter never goes down and
/// never moves by more than one per tick; as long as the match is not over
/// it has moved by exactly one per tick. A concluded match keeps its state
/// whatever follows.
pub proof fn lemma_rounds_count_ticks(simulation: SimulationView, events: Seq<Event>)
    ensures
        simulation.after_all(events).state.round >= simulation.state.round,
        simulation.after_all(events).state.round <= simulation.state.round + ticks_in(events),
        !simulation.after_all(events).state.is_concluded() ==> simulation.after_all(
            events,
        ).state.round == simulation.state.round + ticks_in(events),
        simulation.state.is_concluded() ==> simulation.after_all(events).state
            == simulation.state,
        simulation.after_all(events).state.is_concluded() || !simulation.state.is_concluded(),
    decreases events.len(),
{
    if events.len() > 0 {
        lemma_rounds_count_ticks(simulation, events.drop_last());
        lemma_tick_round(simulation.after_all(events.drop_last()));
    }
}

} // verus!
