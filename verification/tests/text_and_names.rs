use payflow_forecast::cookies::cookie_value;
use payflow_forecast::date::Date;
use payflow_forecast::i18n::{
    browser_language, cadence_label, frequency_label, group_sort_key, preference_from_code, relative_date_label, tr,
    Language, LanguagePreference, TutorialStep, ViewName,
};
use payflow_forecast::models::{
    default_category_name, frequency_value, parse_frequency, Frequency, RecurringCadence,
    YnabSettings, DEFAULT_CATEGORY_NAME,
};
use payflow_forecast::names::{
    account_matches, account_matches_for_ui, is_assignable_bill_name, is_unassigned_category_name,
    normalize_category_name, normalize_name_for_ui, normalize_recurring_key, recurring_key,
    to_lowercase, trim,
};
use payflow_forecast::money::money_text;
use payflow_forecast::models::YnabChoice;
use payflow_forecast::text::{chars_of, str_eq, string_of};
use payflow_forecast::ynab::{import_account, plan_search_order, select_account, select_plan};

fn day(year: i32, month: u32, day: u32) -> Date {
    Date { year, month, day }
}

#[test]
fn unknown_keys_show_in_english() {
    assert_eq!(tr(Language::English, "Dashboard"), "Dashboard");
    assert_eq!(tr(Language::French, "Dashboard"), "Tableau de bord");
    assert_eq!(tr(Language::French, "Unassigned"), "Non assigné");
    assert_eq!(tr(Language::French, "Txns"), "Txns");
    assert_eq!(tr(Language::French, "a key with no French text"), "a key with no French text");
}

#[test]
fn view_names_and_icons() {
    assert_eq!(ViewName::Dashboard.label(Language::English), "Dashboard");
    assert_eq!(ViewName::Dashboard.short_label(Language::French), "Accueil");
    assert_eq!(ViewName::Bills.label(Language::French), "Factures");
    assert_eq!(ViewName::Transactions.icon(), "⇄");
    assert_eq!(ViewName::Settings.short_label(Language::English), "Settings");
}

#[test]
fn tutorial_steps_walk_forward_and_back() {
    let mut step = TutorialStep::Welcome;
    assert_eq!(step.index(), 0);
    assert_eq!(step.view(), None);
    assert_eq!(step.title(), "Welcome to Payflow Forecast");
    for expected in 1..TutorialStep::COUNT {
        step = step.next();
        assert_eq!(step.index(), expected);
        assert_eq!(step.previous().next(), step);
    }
    assert!(step.is_last());
    assert_eq!(step, TutorialStep::ManualSetup);
    assert_eq!(step.next(), TutorialStep::ManualSetup);
    assert_eq!(step.view(), Some(ViewName::Bills));
    assert_eq!(TutorialStep::YnabImport.view(), Some(ViewName::Settings));
    assert_eq!(TutorialStep::Welcome.previous(), TutorialStep::Welcome);
    assert!(!TutorialStep::Welcome.is_last());
}

#[test]
fn language_preference_codes() {
    assert_eq!(preference_from_code(Some("en")), LanguagePreference::English);
    assert_eq!(preference_from_code(Some("fr")), LanguagePreference::French);
    assert_eq!(preference_from_code(Some("de")), LanguagePreference::Browser);
    assert_eq!(preference_from_code(None), LanguagePreference::Browser);
    assert_eq!(LanguagePreference::French.code(), "fr");
    assert_eq!(preference_from_code(Some(LanguagePreference::English.code())), LanguagePreference::English);
    assert_eq!(LanguagePreference::Browser.language(Language::French), Language::French);
    assert_eq!(LanguagePreference::English.language(Language::French), Language::English);
}

#[test]
fn frequency_and_cadence_labels() {
    assert_eq!(Frequency::Semimonthly.label(), "Twice monthly");
    assert_eq!(frequency_label(Frequency::Quarterly, Language::French), "Trimestriel");
    assert_eq!(frequency_label(Frequency::Biweekly, Language::English), "Biweekly");
    assert_eq!(cadence_label(RecurringCadence::Weekly, Language::French), "Hebdomadaire");
    assert_eq!(cadence_label(RecurringCadence::Irregular, Language::English), "Irregular");
    assert_eq!(Frequency::ALL.len(), 5);
}

#[test]
fn frequency_values_read_back() {
    for frequency in Frequency::ALL {
        assert_eq!(parse_frequency(frequency_value(frequency)), frequency);
    }
    assert_eq!(frequency_value(Frequency::Semimonthly), "semimonthly");
    assert_eq!(parse_frequency("fortnightly"), Frequency::Monthly);
}

#[test]
fn relative_dates_read_naturally() {
    let today = day(2026, 5, 3);
    assert_eq!(relative_date_label(today, today, Language::English), "Today");
    assert_eq!(relative_date_label(day(2026, 5, 4), today, Language::French), "Demain");
    assert_eq!(relative_date_label(day(2026, 5, 8), today, Language::English), "In 5 days");
    assert_eq!(relative_date_label(day(2026, 5, 8), today, Language::French), "Dans 5 jours");
    assert_eq!(relative_date_label(day(2026, 5, 13), today, Language::English), "Next week");
    assert_eq!(relative_date_label(day(2026, 5, 17), today, Language::English), "May 17, 2026");
    assert_eq!(relative_date_label(day(2026, 5, 1), today, Language::English), "May 1, 2026");
}

#[test]
fn group_sort_keys_put_unassigned_last() {
    assert_eq!(group_sort_key("Unassigned", Language::English), (1, String::new()));
    assert_eq!(group_sort_key("Non assigné", Language::French), (1, String::new()));
    assert_eq!(group_sort_key("Hydro", Language::English), (0, "hydro".to_string()));
    assert_eq!(group_sort_key("Unassigned", Language::French), (0, "unassigned".to_string()));
}

#[test]
fn names_trim_and_normalize() {
    assert_eq!(trim("  Hydro \t\n"), "Hydro");
    assert_eq!(trim("\u{3000}Hydro\u{a0}"), "Hydro");
    assert_eq!(trim("   "), "");
    assert_eq!(normalize_category_name(" misc "), DEFAULT_CATEGORY_NAME);
    assert_eq!(normalize_category_name(" Internet "), "Internet");
    assert!(is_unassigned_category_name("UNCATEGORIZED"));
    assert!(is_unassigned_category_name(""));
    assert!(!is_unassigned_category_name("Utilities"));
    assert!(is_assignable_bill_name("Internet"));
    assert!(!is_assignable_bill_name(" Misc"));
    assert_eq!(normalize_name_for_ui("Hydro-Québec #2"), "hydroquébec2");
    assert_eq!(normalize_recurring_key("Royal Bank!"), "royalbank");
    assert_eq!(recurring_key("Utilities", "Hydro A"), "categoryutilities");
    assert_eq!(recurring_key("Misc", "Hydro A"), "payeehydroa");
    assert_eq!(to_lowercase("ÉCOLE Élan"), "école élan");
    assert_eq!(default_category_name(), "Misc");
}

#[test]
fn account_names_match_loosely() {
    assert!(account_matches("Chequing - Bills", "chequing bills"));
    assert!(account_matches_for_ui("My Chequing Account", "chequing"));
    assert!(account_matches("chq", "Main CHQ account"));
    assert!(!account_matches("Savings", "Chequing"));
}

#[test]
fn text_helpers_round_trip() {
    assert!(str_eq("été", "été"));
    assert!(!str_eq("été", "ete"));
    assert_eq!(string_of(&chars_of("Québec")), "Québec");
}

#[test]
fn ynab_settings_default_to_empty() {
    let settings = YnabSettings::default();
    assert_eq!(settings.access_token, "");
    assert_eq!(settings.plan_id, None);
    assert_eq!(settings.account_id, None);
    assert_eq!(settings.account_name, "Desjardins Conjoint (LaSalle)");
    assert!(settings.available_plans.is_empty());
    assert!(settings.available_accounts.is_empty());
    assert_eq!(settings.last_import_status, "Not connected");
    assert_eq!(settings.last_imported_at, None);
}

fn round_cents(value: f64) -> f64 {
    (value * 100.0).round() / 100.0
}

fn parse_money(value: &str) -> Option<f64> {
    money_text(value)?.parse::<f64>().ok().map(round_cents)
}

#[test]
fn parses_money_with_cents_and_localized_separators() {
    assert_eq!(parse_money("1072.52"), Some(1072.52));
    assert_eq!(parse_money("1 072,52$"), Some(1072.52));
    assert_eq!(parse_money("1,072.52"), Some(1072.52));
    assert_eq!(parse_money("$1.072,52"), Some(1072.52));
}

#[test]
fn money_text_keeps_the_last_separator_as_decimal() {
    assert_eq!(money_text("  "), None);
    assert_eq!(money_text("$ 1_000"), Some("1000".to_string()));
    assert_eq!(money_text("12,5"), Some("12.5".to_string()));
    assert_eq!(money_text("1.234.567,89"), Some("1234567.89".to_string()));
    assert_eq!(money_text("1,234,567.89"), Some("1234567.89".to_string()));
    assert_eq!(money_text("\u{a0}-42\u{a0}"), Some("-42".to_string()));
    assert_eq!(money_text("abc"), Some("abc".to_string()));
}

fn choice(id: &str, name: &str) -> YnabChoice {
    YnabChoice {
        id: id.to_string(),
        name: name.to_string(),
    }
}

#[test]
fn ynab_budget_and_account_selection() {
    let plans = vec![choice("p1", "Personal"), choice("p2", "Household"), choice("p3", "Old")];
    assert_eq!(select_plan(&plans, Some("p2")), Some(1));
    assert_eq!(select_plan(&plans, Some("gone")), Some(0));
    assert_eq!(select_plan(&plans, None), Some(0));
    assert_eq!(select_plan(&Vec::new(), None), None);
    assert_eq!(plan_search_order(&plans, Some("p3")), vec![2, 0, 1]);
    assert_eq!(plan_search_order(&plans, None), vec![0, 1, 2]);

    let accounts = vec![
        choice("a1", "Savings"),
        choice("a2", "Desjardins Conjoint (LaSalle)"),
        choice("a3", "Chequing"),
    ];
    assert_eq!(select_account(&accounts, Some("a3"), "Desjardins Conjoint (LaSalle)"), Some(2));
    assert_eq!(select_account(&accounts, Some("zz"), "desjardins conjoint lasalle"), Some(1));
    assert_eq!(select_account(&accounts, None, "Brokerage"), None);
    assert_eq!(import_account(&accounts, Some("a3"), "Desjardins Conjoint (LaSalle)"), Some(1));
    assert_eq!(import_account(&accounts, Some("a1"), "nothing"), Some(0));
}

#[test]
fn cookies_are_read_by_name() {
    assert_eq!(cookie_value("payflow-language=FR; theme=dark", "payflow-language"), Some("fr".to_string()));
    assert_eq!(cookie_value("theme=dark;  payflow-language = en ", "payflow-language"), None);
    assert_eq!(cookie_value("theme=dark;payflow-language= En ", "payflow-language"), Some("en".to_string()));
    assert_eq!(cookie_value("a=1; a=2", "a"), Some("1".to_string()));
    assert_eq!(cookie_value("", "a"), None);
    assert_eq!(cookie_value("novalue; a=b=c", "a"), Some("b=c".to_string()));
}

#[test]
fn browser_tags_choose_the_language() {
    assert_eq!(browser_language(Some("fr-CA")), Language::French);
    assert_eq!(browser_language(Some("FR")), Language::French);
    assert_eq!(browser_language(Some("en-US")), Language::English);
    assert_eq!(browser_language(Some("f")), Language::English);
    assert_eq!(browser_language(None), Language::English);
}
