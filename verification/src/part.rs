//! The statted components an Armored Core is assembled from.
//!
//! A part is one of five kinds, and its kind fixes which stats it carries.
//! Asking a part for a stat it does not carry is not an error: the answer is
//! `None`, and such a part adds nothing to a total.

use vstd::prelude::*;

verus! {

/// The scalar attributes a part can carry.
#[derive(Clone, Copy, Debug, PartialEq, Eq, Hash, Structural)]
pub enum StatKind {
    Armor,
    /// In kilos; affects how the machine moves.
    Weight,
    Damage,
    Firerate,
    Accuracy,
    Speed,
}

/// The five slots of a machine, in assembly order.
#[derive(Clone, Copy, Debug, PartialEq, Eq, Hash, Structural)]
pub enum PartKind {
    Core,
    Head,
    Arms,
    Legs,
    Weapon,
}

/// One physical component of a machine together with the stats it carries.
#[derive(Clone, Copy, Debug, PartialEq, Eq, Hash, Structural)]
pub enum Part {
    Core { armor: u32, weight: u32 },
    Head { armor: u32, weight: u32, accuracy: u32 },
    Arms { armor: u32, weight: u32 },
    Legs { armor: u32, weight: u32, speed: u32 },
    Weapon { damage: u32, firerate: u32, accuracy: u32, weight: u32 },
}

impl Part {
    /// Which slot this part fills.
    pub open spec fn spec_kind(&self) -> PartKind {
        match *self {
            Part::Core { .. } => PartKind::Core,
            Part::Head { .. } => PartKind::Head,
            Part::Arms { .. } => PartKind::Arms,
            Part::Legs { .. } => PartKind::Legs,
            Part::Weapon { .. } => PartKind::Weapon,
        }
    }

    /// The value of `stat` on this part, or `None` where the part does not
    /// carry that stat.
    pub open spec fn spec_stat(&self, stat: StatKind) -> Option<u32> {
        match (*self, stat) {
            (Part::Core { armor, .. }, StatKind::Armor) => Some(armor),
            (Part::Core { weight, .. }, StatKind::Weight) => Some(weight),
            (Part::Head { armor, .. }, StatKind::Armor) => Some(armor),
            (Part::Head { weight, .. }, StatKind::Weight) => Some(weight),
            (Part::Head { accuracy, .. }, StatKind::Accuracy) => Some(accuracy),
            (Part::Arms { armor, .. }, StatKind::Armor) => Some(armor),
            (Part::Arms { weight, .. }, StatKind::Weight) => Some(weight),
            (Part::Legs { armor, .. }, StatKind::Armor) => Some(armor),
            (Part::Legs { weight, .. }, StatKind::Weight) => Some(weight),
            (Part::Legs { speed, .. }, StatKind::Speed) => Some(speed),
            (Part::Weapon { damage, .. }, StatKind::Damage) => Some(damage),
            (Part::Weapon { firerate, .. }, StatKind::Firerate) => Some(firerate),
            (Part::Weapon { accuracy, .. }, StatKind::Accuracy) => Some(accuracy),
            (Part::Weapon { weight, .. }, StatKind::Weight) => Some(weight),
            _ => None,
        }
    }

    /// What this part adds to a total of `stat`: its value, or nothing where
    /// it does not carry the stat.
    pub open spec fn contribution(self, stat: StatKind) -> nat {
        match self.spec_stat(stat) {
            Some(value) => value as nat,
            None => 0,
        }
    }

    #[verifier::when_used_as_spec(spec_kind)]
    pub fn kind(&self) -> (kind: PartKind)
        ensures
            kind == self.spec_kind(),
    {
        match self {
            Part::Core { .. } => PartKind::Core,
            Part::Head { .. } => PartKind::Head,
            Part::Arms { .. } => PartKind::Arms,
            Part::Legs { .. } => PartKind::Legs,
            Part::Weapon { .. } => PartKind::Weapon,
        }
    }

    #[verifier::when_used_as_spec(spec_stat)]
    pub fn stat(&self, stat: StatKind) -> (value: Option<u32>)
        ensures
            value == self.spec_stat(stat),
    {
        match self {
            Part::Core { armor, weight } => match stat {
                StatKind::Armor => Some(*armor),
                StatKind::Weight => Some(*weight),
                _ => None,
            },
            Part::Head { armor, weight, accuracy } => match stat {
                StatKind::Armor => Some(*armor),
                StatKind::Weight => Some(*weight),
                StatKind::Accuracy => Some(*accuracy),
                _ => None,
            },
            Part::Arms { armor, weight } => match stat {
                StatKind::Armor => Some(*armor),
                StatKind::Weight => Some(*weight),
                _ => None,
            },
            Part::Legs { armor, weight, speed } => match stat {
                StatKind::Armor => Some(*armor),
                StatKind::Weight => Some(*weight),
                StatKind::Speed => Some(*speed),
                _ => None,
            },
            Part::Weapon { damage, firerate, accuracy, weight } => match stat {
                StatKind::Damage => Some(*damage),
                StatKind::Firerate => Some(*firerate),
                StatKind::Accuracy => Some(*accuracy),
                StatKind::Weight => Some(*weight),
                _ => None,
            },
        }
    }
}

/// The sum of what each part of `parts` contributes to `stat`.
pub open spec fn stat_total(parts: Seq<Part>, stat: StatKind) -> nat
    decreases parts.len(),
{
    if parts.len() == 0 {
        0
    } else {
        stat_total(parts.drop_last(), stat) + parts.last().contribution(stat)
    }
}

/// Whether `parts` is a whole machine: core, head, arms, legs and weapon, in
/// that order and nothing else.
pub open spec fn is_machine(parts: Seq<Part>) -> bool {
    &&& parts.len() == 5
    &&& parts[0] is Core
    &&& parts[1] is Head
    &&& parts[2] is Arms
    &&& parts[3] is Legs
    &&& parts[4] is Weapon
}

/// Sums what each part of `parts` contributes to `stat`.
pub fn sum_stat(parts: &[Part], stat: StatKind) -> (total: u64)
    requires
        parts@.len() <= u32::MAX,
    ensures
        total == stat_total(parts@, stat),
{
    let mut total: u64 = 0;
    let mut i: usize = 0;
    while i < parts.len()
        invariant
            i <= parts@.len() <= u32::MAX,
            total == stat_total(parts@.take(i as int), stat),
            total <= i * u32::MAX,
        decreases parts@.len() - i,
    {
        proof {
            assert(parts@.take(i + 1).drop_last() == parts@.take(i as int));
            assert(i * u32::MAX + u32::MAX == (i + 1) * u32::MAX) by (nonlinear_arith);
            assert((i + 1) * u32::MAX <= u32::MAX * u32::MAX) by (nonlinear_arith)
                requires
                    i + 1 <= u32::MAX,
            ;
        }
        if let Some(value) = parts[i].stat(stat) {
            total = total + value as u64;
        }
        i = i + 1;
    }
    proof {
        assert(parts@.take(i as int) == parts@);
    }
    total
}

} // verus!
