use vstd::prelude::*;

verus! {

/// How often a plan collects contributions and pays out.
#[derive(Clone, Copy, Debug, PartialEq, Eq, Structural)]
pub enum Frequency {
    Daily,
    Weekly,
    Monthly,
}

/// Number of cycles that one month holds at the given frequency.
pub open spec fn cycles_per_month(frequency: Frequency) -> nat {
    match frequency {
        Frequency::Daily => 30,
        Frequency::Weekly => 4,
        Frequency::Monthly => 1,
    }
}

/// The frequency that a literal names, if it names one.
pub open spec fn frequency_named(literal: Seq<char>) -> Option<Frequency> {
    if literal == "Daily"@ {
        Some(Frequency::Daily)
    } else if literal == "Weekly"@ {
        Some(Frequency::Weekly)
    } else if literal == "Monthly"@ {
        Some(Frequency::Monthly)
    } else {
        None
    }
}

/// Converts a frequency into its number of cycles per month.
pub fn plan_frequency_to_cycles(frequency: &Frequency) -> (cycles: u32)
    ensures
        cycles == cycles_per_month(*frequency),
{
    match frequency {
        Frequency::Daily => 30,
        Frequency::Weekly => 4,
        Frequency::Monthly => 1,
    }
}

/// Reads a frequency literal: `Daily`, `Weekly` or `Monthly`, spelled exactly so.
pub fn parse_frequency(literal: &String) -> (frequency: Option<Frequency>)
    ensures
        frequency == frequency_named(literal@),
{
    let daily = String::from_str("Daily");
    let weekly = String::from_str("Weekly");
    let monthly = String::from_str("Monthly");
    if *literal == daily {
        Some(Frequency::Daily)
    } else if *literal == weekly {
        Some(Frequency::Weekly)
    } else if *literal == monthly {
        Some(Frequency::Monthly)
    } else {
        None
    }
}

/// The literal that names a frequency; `parse_frequency` reads it back.
pub fn frequency_literal(frequency: Frequency) -> (literal: String)
    ensures
        frequency_named(literal@) == Some(frequency),
{
    proof {
        reveal_strlit("Daily");
        reveal_strlit("Weekly");
        reveal_strlit("Monthly");
        assert("Daily"@.len() != "Weekly"@.len());
        assert("Daily"@.len() != "Monthly"@.len());
        assert("Weekly"@.len() != "Monthly"@.len());
    }
    match frequency {
        Frequency::Daily => String::from_str("Daily"),
        Frequency::Weekly => String::from_str("Weekly"),
        Frequency::Monthly => String::from_str("Monthly"),
    }
}

} // verus!
