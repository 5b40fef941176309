//! Plain data of the planner: frequencies, cadences, classifications and the
//! YNAB connection settings.
use vstd::prelude::*;
use crate::text::{owned, str_eq};

verus! {

broadcast use vstd::string::group_string_axioms;

/// The category a transaction falls back to when it has none.
pub const DEFAULT_CATEGORY_NAME: &'static str = "Misc";

/// How often a bill or paycheck transfer repeats.
#[derive(Clone, Copy, Debug, PartialEq, Eq, Structural)]
pub enum Frequency {
    Biweekly,
    Semimonthly,
    Monthly,
    Quarterly,
    Yearly,
}

/// Cadence detected from a run of transactions.
#[derive(Clone, Copy, Debug, PartialEq, Eq, Structural)]
pub enum RecurringCadence {
    Weekly,
    Biweekly,
    Semimonthly,
    Monthly,
    Quarterly,
    Yearly,
    Irregular,
}

/// What an imported transaction is taken to be.
#[derive(Clone, Copy, Debug, PartialEq, Eq, Structural)]
pub enum TransactionClass {
    Recurring,
    Paycheck,
    Transfer,
    Misc,
}

/// Kind of event in a forecast.
#[derive(Clone, Copy, Debug, PartialEq, Eq, Structural)]
pub enum EventType {
    Transfer,
    Payment,
}

pub open spec fn spec_frequency_label(f: Frequency) -> Seq<char> {
    match f {
        Frequency::Biweekly => "Biweekly"@,
        Frequency::Semimonthly => "Twice monthly"@,
        Frequency::Monthly => "Monthly"@,
        Frequency::Quarterly => "Quarterly"@,
        Frequency::Yearly => "Yearly"@,
    }
}

pub open spec fn spec_frequency_value(f: Frequency) -> Seq<char> {
    match f {
        Frequency::Biweekly => "biweekly"@,
        Frequency::Semimonthly => "semimonthly"@,
        Frequency::Monthly => "monthly"@,
        Frequency::Quarterly => "quarterly"@,
        Frequency::Yearly => "yearly"@,
    }
}

/// The frequency named by a form value; anything unknown reads as monthly.
pub open spec fn spec_parse_frequency(value: Seq<char>) -> Frequency {
    if value == "biweekly"@ {
        Frequency::Biweekly
    } else if value == "semimonthly"@ {
        Frequency::Semimonthly
    } else if value == "quarterly"@ {
        Frequency::Quarterly
    } else if value == "yearly"@ {
        Frequency::Yearly
    } else {
        Frequency::Monthly
    }
}

/// The bill frequency a detected cadence becomes; weekly and irregular have none.
pub open spec fn spec_frequency_from_cadence(c: RecurringCadence) -> Option<Frequency> {
    match c {
        RecurringCadence::Biweekly => Some(Frequency::Biweekly),
        RecurringCadence::Semimonthly => Some(Frequency::Semimonthly),
        RecurringCadence::Monthly => Some(Frequency::Monthly),
        RecurringCadence::Quarterly => Some(Frequency::Quarterly),
        RecurringCadence::Yearly => Some(Frequency::Yearly),
        RecurringCadence::Weekly | RecurringCadence::Irregular => None,
    }
}

impl Frequency {
    /// Every frequency, in the order a picker lists them.
    pub const ALL: [Frequency; 5] = [
        Frequency::Biweekly,
        Frequency::Semimonthly,
        Frequency::Monthly,
        Frequency::Quarterly,
        Frequency::Yearly,
    ];

    /// English display name.
    pub fn label(self) -> (r: &'static str)
        ensures
            r@ == spec_frequency_label(self),
    {
        match self {
            Frequency::Biweekly => "Biweekly",
            Frequency::Semimonthly => "Twice monthly",
            Frequency::Monthly => "Monthly",
            Frequency::Quarterly => "Quarterly",
            Frequency::Yearly => "Yearly",
        }
    }
}

/// The value a frequency takes in a form control.
pub fn frequency_value(frequency: Frequency) -> (r: &'static str)
    ensures
        r@ == spec_frequency_value(frequency),
{
    match frequency {
        Frequency::Biweekly => "biweekly",
        Frequency::Semimonthly => "semimonthly",
        Frequency::Monthly => "monthly",
        Frequency::Quarterly => "quarterly",
        Frequency::Yearly => "yearly",
    }
}

/// Reads a form value back into a frequency.
pub fn parse_frequency(value: &str) -> (r: Frequency)
    ensures
        r == spec_parse_frequency(value@),
{
    if str_eq(value, "biweekly") {
        Frequency::Biweekly
    } else if str_eq(value, "semimonthly") {
        Frequency::Semimonthly
    } else if str_eq(value, "quarterly") {
        Frequency::Quarterly
    } else if str_eq(value, "yearly") {
        Frequency::Yearly
    } else {
        Frequency::Monthly
    }
}

/// Law: reading back the form value of a frequency gives the same frequency.
pub proof fn law_parse_frequency_reads_frequency_value(f: Frequency)
    ensures
        spec_parse_frequency(spec_frequency_value(f)) == f,
{
    reveal_strlit("biweekly");
    reveal_strlit("semimonthly");
    reveal_strlit("monthly");
    reveal_strlit("quarterly");
    reveal_strlit("yearly");
    assert("monthly"@[0] != "biweekly"@[0]);
    assert("monthly"@[0] != "semimonthly"@[0]);
    assert("monthly"@[0] != "quarterly"@[0]);
    assert("monthly"@[0] != "yearly"@[0]);
    assert("semimonthly"@[0] != "biweekly"@[0]);
    assert("quarterly"@[0] != "biweekly"@[0]);
    assert("quarterly"@[0] != "semimonthly"@[0]);
    assert("yearly"@[0] != "biweekly"@[0]);
    assert("yearly"@[0] != "semimonthly"@[0]);
    assert("yearly"@[0] != "quarterly"@[0]);
}

/// The bill frequency a detected cadence becomes.
pub fn frequency_from_cadence(cadence: RecurringCadence) -> (r: Option<Frequency>)
    ensures
        r == spec_frequency_from_cadence(cadence),
{
    match cadence {
        RecurringCadence::Biweekly => Some(Frequency::Biweekly),
        RecurringCadence::Semimonthly => Some(Frequency::Semimonthly),
        RecurringCadence::Monthly => Some(Frequency::Monthly),
        RecurringCadence::Quarterly => Some(Frequency::Quarterly),
        RecurringCadence::Yearly => Some(Frequency::Yearly),
        RecurringCadence::Weekly | RecurringCadence::Irregular => None,
    }
}

/// The default category name, owned.
pub fn default_category_name() -> (r: String)
    ensures
        r@ == DEFAULT_CATEGORY_NAME@,
{
    owned(DEFAULT_CATEGORY_NAME)
}

/// A YNAB budget or account offered for selection.
#[derive(Clone, Debug)]
pub struct YnabChoice {
    pub id: String,
    pub name: String,
}

/// The YNAB connection as the planner keeps it.
#[derive(Clone, Debug)]
pub struct YnabSettings {
    pub access_token: String,
    pub plan_id: Option<String>,
    pub account_id: Option<String>,
    pub account_name: String,
    pub available_plans: Vec<YnabChoice>,
    pub available_accounts: Vec<YnabChoice>,
    pub last_import_status: String,
    pub last_imported_at: Option<String>,
}

impl Default for YnabSettings {
    fn default() -> (r: Self)
        ensures
            r.access_token@.len() == 0,
            r.plan_id is None,
            r.account_id is None,
            r.account_name@ == "Desjardins Conjoint (LaSalle)"@,
            r.available_plans@.len() == 0,
            r.available_accounts@.len() == 0,
            r.last_import_status@ == "Not connected"@,
            r.last_imported_at is None,
    {
        YnabSettings {
            access_token: String::new(),
            plan_id: None,
            account_id: None,
            account_name: owned("Desjardins Conjoint (LaSalle)"),
            available_plans: Vec::new(),
            available_accounts: Vec::new(),
            last_import_status: owned("Not connected"),
            last_imported_at: None,
        }
    }
}

} // verus!
