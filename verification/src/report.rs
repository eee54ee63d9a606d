//! The text a match puts out: the round banner, the summary of each pilot
//! and the line that names the survivor.

use crate::part::StatKind;
use crate::pilot::{Pilot, PilotView};
use vstd::prelude::*;
use vstd::string::*;

verus! {

/// The character for the decimal digit `d`.
pub open spec fn digit(d: nat) -> char
    recommends
        d < 10,
{
    if d == 0 {
        '0'
    } else if d == 1 {
        '1'
    } else if d == 2 {
        '2'
    } else if d == 3 {
        '3'
    } else if d == 4 {
        '4'
    } else if d == 5 {
        '5'
    } else if d == 6 {
        '6'
    } else if d == 7 {
        '7'
    } else if d == 8 {
        '8'
    } else {
        '9'
    }
}

/// `n` written in decimal, without sign or leading zeros.
pub open spec fn decimal(n: nat) -> Seq<char>
    decreases n,
{
    if n < 10 {
        seq![digit(n)]
    } else {
        decimal(n / 10).push(digit(n % 10))
    }
}

/// The line that opens round `round`.
pub open spec fn spec_round_banner(round: nat) -> Seq<char> {
    "Begin round "@ + decimal(round)
}

/// The line that names the survivor of a match.
pub open spec fn spec_survivor_line(name: Seq<char>) -> Seq<char> {
    name + " survived."@
}

impl PilotView {
    /// The first line of a pilot's summary: name and win count.
    pub open spec fn standing_line(self) -> Seq<char> {
        "Pilot "@ + self.name + " with "@ + decimal(self.wins) + " wins"@
    }

    /// The second line of a pilot's summary: the armor of all parts taken
    /// together.
    pub open spec fn armor_line(self) -> Seq<char> {
        "Armor: "@ + decimal(self.total(StatKind::Armor))
    }

    /// The two lines of a pilot's summary.
    pub open spec fn summary(self) -> Seq<Seq<char>> {
        seq![self.standing_line(), self.armor_line()]
    }
}

/// The summaries of `pilots`, pilot after pilot.
pub open spec fn summaries(pilots: Seq<PilotView>) -> Seq<Seq<char>>
    decreases pilots.len(),
{
    if pilots.len() == 0 {
        Seq::empty()
    } else {
        summaries(pilots.drop_last()) + pilots.last().summary()
    }
}

fn digit_text(d: u64) -> (text: &'static str)
    requires
        d < 10,
    ensures
        text@ == seq![digit(d as nat)],
{
    proof {
        reveal_strlit("0");
        reveal_strlit("1");
        reveal_strlit("2");
        reveal_strlit("3");
        reveal_strlit("4");
        reveal_strlit("5");
        reveal_strlit("6");
        reveal_strlit("7");
        reveal_strlit("8");
        reveal_strlit("9");
    }
    let text = if d == 0 {
        "0"
    } else if d == 1 {
        "1"
    } else if d == 2 {
        "2"
    } else if d == 3 {
        "3"
    } else if d == 4 {
        "4"
    } else if d == 5 {
        "5"
    } else if d == 6 {
        "6"
    } else if d == 7 {
        "7"
    } else if d == 8 {
        "8"
    } else {
        "9"
    };
    assert(text@ =~= seq![digit(d as nat)]);
    text
}

/// Appends `n`, written in decimal, to `text`.
pub fn append_decimal(text: &mut String, n: u64)
    ensures
        final(text)@ == old(text)@ + decimal(n as nat),
    decreases n,
{
    if n >= 10 {
        append_decimal(text, n / 10);
    }
    text.append(digit_text(n % 10));
    proof {
        if n >= 10 {
            assert(text@ =~= old(text)@ + decimal((n / 10) as nat).push(digit((n % 10) as nat)));
        }
    }
}

/// The line that opens round `round`: `Begin round 3`.
pub fn round_banner(round: u64) -> (line: String)
    ensures
        line@ == spec_round_banner(round as nat),
{
    let mut line = String::from_str("Begin round ");
    append_decimal(&mut line, round);
    line
}

/// The line that names the survivor of a match: `Blue Rain survived.`
pub fn survivor_line(name: &str) -> (line: String)
    ensures
        line@ == spec_survivor_line(name@),
{
    let mut line = name.to_owned();
    line.append(" survived.");
    line
}

/// The summary of one pilot: a line with name and win count, and a line with
/// the armor of all the pilot's parts taken together. Parts without armor
/// add nothing to it.
pub fn summary_lines(pilot: &Pilot) -> (lines: Vec<String>)
    ensures
        lines.deep_view() == pilot@.summary(),
{
    let mut standing = String::from_str("Pilot ");
    standing.append(pilot.name());
    standing.append(" with ");
    append_decimal(&mut standing, pilot.wins() as u64);
    standing.append(" wins");
    let mut armor = String::from_str("Armor: ");
    append_decimal(&mut armor, pilot.total_armor());
    let mut lines: Vec<String> = Vec::new();
    lines.push(standing);
    lines.push(armor);
    proof {
        assert(lines.deep_view() =~= pilot@.summary());
    }
    lines
}

} // verus!
