//! Pilots and the machines they bring to a match.
//!
//! A pilot is known by name and carries a win count. A pilot enters the
//! match without a machine; [`Pilot::compose`] assembles it, once, from the
//! loadout on file under the pilot's name.

use crate::part::{is_machine, stat_total, sum_stat, Part, StatKind};
use vstd::prelude::*;
use vstd::string::*;

verus! {

/// The name of the first pilot of the standard roster.
pub const BLUE_RAIN: &'static str = "Blue Rain";

/// The name of the second pilot of the standard roster.
pub const NINEBREAKER: &'static str = "Ninebreaker";

/// The parts on file for the pilot called `name`, in assembly order, or
/// `None` where no loadout is on file under that name.
pub open spec fn spec_loadout(name: Seq<char>) -> Option<Seq<Part>> {
    if name == BLUE_RAIN@ {
        Some(
            seq![
                Part::Core { armor: 3000, weight: 1000 },
                Part::Head { armor: 500, weight: 500, accuracy: 1000 },
                Part::Arms { armor: 1000, weight: 1000 },
                Part::Legs { armor: 1500, weight: 1500, speed: 4500 },
                Part::Weapon { damage: 100, firerate: 100, accuracy: 1000, weight: 1000 },
            ],
        )
    } else if name == NINEBREAKER@ {
        Some(
            seq![
                Part::Core { armor: 5000, weight: 5000 },
                Part::Head { armor: 700, weight: 700, accuracy: 500 },
                Part::Arms { armor: 2000, weight: 2000 },
                Part::Legs { armor: 3500, weight: 3500, speed: 7500 },
                Part::Weapon { damage: 750, firerate: 17, accuracy: 1000, weight: 1000 },
            ],
        )
    } else {
        None
    }
}

/// Looks up the loadout on file for the pilot called `name`.
pub fn loadout(name: &str) -> (parts: Option<Vec<Part>>)
    ensures
        parts is Some <==> spec_loadout(name@) is Some,
        parts matches Some(p) ==> Some(p@) == spec_loadout(name@),
{
    let name = name.to_owned();
    if name == String::from_str(BLUE_RAIN) {
        let parts = vec![
            Part::Core { armor: 3000, weight: 1000 },
            Part::Head { armor: 500, weight: 500, accuracy: 1000 },
            Part::Arms { armor: 1000, weight: 1000 },
            Part::Legs { armor: 1500, weight: 1500, speed: 4500 },
            Part::Weapon { damage: 100, firerate: 100, accuracy: 1000, weight: 1000 },
        ];
        assert(Some(parts@) == spec_loadout(name@));
        Some(parts)
    } else if name == String::from_str(NINEBREAKER) {
        let parts = vec![
            Part::Core { armor: 5000, weight: 5000 },
            Part::Head { armor: 700, weight: 700, accuracy: 500 },
            Part::Arms { armor: 2000, weight: 2000 },
            Part::Legs { armor: 3500, weight: 3500, speed: 7500 },
            Part::Weapon { damage: 750, firerate: 17, accuracy: 1000, weight: 1000 },
        ];
        assert(Some(parts@) == spec_loadout(name@));
        Some(parts)
    } else {
        None
    }
}

/// Every loadout on file is a whole machine.
pub proof fn lemma_loadout_is_machine(name: Seq<char>)
    ensures
        spec_loadout(name) matches Some(parts) ==> is_machine(parts),
{
}

/// What a pilot is, apart from how it is stored.
pub struct PilotView {
    pub name: Seq<char>,
    pub wins: nat,
    pub parts: Seq<Part>,
}

impl PilotView {
    /// A pilot has either no parts yet or one whole machine, and a win count
    /// that fits the counter.
    pub open spec fn wf(self) -> bool {
        &&& self.wins <= u32::MAX
        &&& self.parts.len() == 0 || is_machine(self.parts)
    }

    /// Whether the pilot's machine has been assembled.
    pub open spec fn is_composed(self) -> bool {
        self.parts.len() > 0
    }

    /// The pilot after composition: a pilot without parts receives the
    /// loadout on file under its name, if there is one; any other pilot is
    /// left as it is.
    pub open spec fn composed(self) -> PilotView {
        if self.is_composed() {
            self
        } else {
            match spec_loadout(self.name) {
                Some(parts) => PilotView { parts, ..self },
                None => self,
            }
        }
    }

    /// The pilot after one more win.
    pub open spec fn with_win(self) -> PilotView {
        PilotView { wins: self.wins + 1, ..self }
    }

    /// The sum of `stat` over the pilot's parts.
    pub open spec fn total(self, stat: StatKind) -> nat {
        stat_total(self.parts, stat)
    }
}

/// A named competitor with a win count and, once composed, a machine.
pub struct Pilot {
    name: String,
    wins: u32,
    parts: Vec<Part>,
}

impl View for Pilot {
    type V = PilotView;

    closed spec fn view(&self) -> PilotView {
        PilotView { name: self.name@, wins: self.wins as nat, parts: self.parts@ }
    }
}

impl Pilot {
    #[verifier::type_invariant]
    closed spec fn inv(self) -> bool {
        self@.wf()
    }

    /// A pilot called `name` with no wins and no machine yet.
    pub fn new(name: &str) -> (pilot: Pilot)
        ensures
            pilot@ == (PilotView { name: name@, wins: 0, parts: Seq::empty() }),
            pilot@.wf(),
    {
        Pilot { name: name.to_owned(), wins: 0, parts: Vec::new() }
    }

    /// The name the pilot goes by.
    pub fn name(&self) -> (name: &str)
        ensures
            name@ == self@.name,
    {
        self.name.as_str()
    }

    /// The number of wins the pilot holds.
    pub fn wins(&self) -> (wins: u32)
        ensures
            wins == self@.wins,
    {
        self.wins
    }

    /// The pilot's parts in assembly order; empty until the pilot is
    /// composed.
    pub fn parts(&self) -> (parts: &[Part])
        ensures
            parts@ == self@.parts,
            self@.wf(),
    {
        proof {
            use_type_invariant(self);
        }
        self.parts.as_slice()
    }

    /// Whether the pilot's machine has been assembled.
    pub fn is_composed(&self) -> (composed: bool)
        ensures
            composed == self@.is_composed(),
    {
        self.parts.len() > 0
    }

    /// Assembles the pilot's machine from the loadout on file under the
    /// pilot's name. A pilot that already has parts, or for whom no loadout
    /// is on file, is left untouched. Returns whether parts were attached.
    pub fn compose(&mut self) -> (attached: bool)
        ensures
            final(self)@ == old(self)@.composed(),
            attached == (!old(self)@.is_composed() && spec_loadout(old(self)@.name) is Some),
            final(self)@.wf(),
    {
        proof {
            use_type_invariant(&*self);
            lemma_loadout_is_machine(self.name@);
        }
        if self.parts.len() > 0 {
            return false;
        }
        match loadout(self.name.as_str()) {
            Some(parts) => {
                self.parts = parts;
                true
            },
            None => false,
        }
    }

    /// Credits the pilot with one more win.
    pub fn record_win(&mut self)
        requires
            old(self)@.wins < u32::MAX,
        ensures
            final(self)@ == old(self)@.with_win(),
            final(self)@.wf(),
    {
        proof {
            use_type_invariant(&*self);
        }
        self.wins = self.wins + 1;
    }

    /// The sum of `stat` over the pilot's parts. Parts that do not carry the
    /// stat add nothing; a pilot without parts totals zero.
    pub fn total(&self, stat: StatKind) -> (total: u64)
        ensures
            total == self@.total(stat),
    {
        proof {
            use_type_invariant(self);
        }
        sum_stat(self.parts.as_slice(), stat)
    }

    /// The armor of the pilot's whole machine.
    pub fn total_armor(&self) -> (armor: u64)
        ensures
            armor == self@.total(StatKind::Armor),
    {
        self.total(StatKind::Armor)
    }
}

impl Clone for Pilot {
    fn clone(&self) -> (copy: Pilot)
        ensures
            copy@ == self@,
    {
        proof {
            use_type_invariant(self);
        }
        Pilot { name: self.name.clone(), wins: self.wins, parts: self.parts.clone() }
    }
}

/// Composing is idempotent: a second composition changes nothing, so a pilot
/// composed twice has exactly the parts of a pilot composed once.
pub proof fn lemma_compose_idempotent(pilot: PilotView)
    ensures
        pilot.composed().composed() == pilot.composed(),
        pilot.composed().composed().parts.len() == pilot.composed().parts.len(),
{
    lemma_loadout_is_machine(pilot.name);
}

/// Composing never takes a part away, never touches name or wins, and
/// leaves a composed pilot exactly as it was.
pub proof fn lemma_compose_preserves(pilot: PilotView)
    ensures
        pilot.composed().name == pilot.name,
        pilot.composed().wins == pilot.wins,
        pilot.is_composed() ==> pilot.composed() == pilot,
        pilot.wf() ==> pilot.composed().wf(),
{
    lemma_loadout_is_machine(pilot.name);
}

} // verus!
