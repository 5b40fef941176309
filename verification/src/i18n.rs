//! English and French display text.
use vstd::prelude::*;
use crate::text::{str_eq, string_of, extend_chars, push_signed_padded};
use crate::date::{Date, days_between, spec_date_days, spec_date_label};
use crate::models::{Frequency, RecurringCadence};
use crate::text::signed_decimal;

verus! {

broadcast use vstd::string::group_string_axioms;

/// A display language.
#[derive(Clone, Copy, Debug, PartialEq, Eq, Structural)]
pub enum Language {
    English,
    French,
}

/// The language the user asked for; `Browser` follows the browser's own.
#[derive(Clone, Copy, Debug, PartialEq, Eq, Structural)]
pub enum LanguagePreference {
    Browser,
    English,
    French,
}

impl LanguagePreference {
    /// The language to show, given the language the browser reports.
    pub fn language(self, browser: Language) -> (r: Language)
        ensures
            r == match self {
                LanguagePreference::Browser => browser,
                LanguagePreference::English => Language::English,
                LanguagePreference::French => Language::French,
            },
    {
        match self {
            LanguagePreference::Browser => browser,
            LanguagePreference::English => Language::English,
            LanguagePreference::French => Language::French,
        }
    }

    /// The code stored in the language cookie.
    pub fn code(self) -> (r: &'static str)
        ensures
            r@ == match self {
                LanguagePreference::Browser => "browser"@,
                LanguagePreference::English => "en"@,
                LanguagePreference::French => "fr"@,
            },
    {
        match self {
            LanguagePreference::Browser => "browser",
            LanguagePreference::English => "en",
            LanguagePreference::French => "fr",
        }
    }
}

/// The preference a stored cookie value names; anything else follows the browser.
pub fn preference_from_code(code: Option<&str>) -> (r: LanguagePreference)
    ensures
        r == match code {
            Some(c) => if c@ == "en"@ {
                LanguagePreference::English
            } else if c@ == "fr"@ {
                LanguagePreference::French
            } else {
                LanguagePreference::Browser
            },
            None => LanguagePreference::Browser,
        },
{
    match code {
        Some(c) => {
            if str_eq(c, "en") {
                LanguagePreference::English
            } else if str_eq(c, "fr") {
                LanguagePreference::French
            } else {
                LanguagePreference::Browser
            }
        },
        None => LanguagePreference::Browser,
    }
}

/// The language a browser language tag asks for: French for tags that start
/// with "fr" in any case, English otherwise.
pub open spec fn spec_browser_language(tag: Option<Seq<char>>) -> Language {
    match tag {
        Some(t) => {
            let lower = crate::names::unicode_lowercase_str(t);
            if lower.len() >= 2 && lower[0] == 'f' && lower[1] == 'r' {
                Language::French
            } else {
                Language::English
            }
        },
        None => Language::English,
    }
}

/// The language to show for the browser's language tag.
pub fn browser_language(tag: Option<&str>) -> (r: Language)
    ensures
        r == spec_browser_language(
            match tag {
                Some(t) => Some(t@),
                None => None,
            },
        ),
{
    match tag {
        Some(t) => {
            let lower = crate::text::chars_of(crate::names::to_lowercase(t).as_str());
            if lower.len() >= 2 && lower[0] == 'f' && lower[1] == 'r' {
                Language::French
            } else {
                Language::English
            }
        },
        None => Language::English,
    }
}

/// French text for part 1 of the dictionary.
pub open spec fn french_part_1(key: Seq<char>) -> Option<Seq<char>> {
    if key == "Account"@ {
        Some("Compte"@)
    } else if key == "Account setup"@ {
        Some("Configuration du compte"@)
    } else if key == "Actual balance"@ {
        Some("Solde réel"@)
    } else if key == "Adaptive transfers keep the account near the required reserve instead of accumulating excess cash."@ {
        Some("Les virements adaptatifs gardent le compte près de la réserve requise au lieu d'accumuler trop d'argent."@)
    } else if key == "Add Bill"@ {
        Some("Ajouter une facture"@)
    } else if key == "Add a paycheck transfer to forecast"@ {
        Some("Ajoutez un virement de paie pour prévoir"@)
    } else if key == "Add Paycheck"@ {
        Some("Ajouter une paie"@)
    } else if key == "Add or review recurring incoming transfers for this account."@ {
        Some("Ajoutez ou révisez les virements entrants récurrents pour ce compte."@)
    } else if key == "Add paycheck amount"@ {
        Some("Ajouter le montant de la paie"@)
    } else if key == "Add Transaction"@ {
        Some("Ajouter une transaction"@)
    } else if key == "Amount"@ {
        Some("Montant"@)
    } else if key == "Annual increase"@ {
        Some("Augmentation annuelle"@)
    } else if key == "Asc"@ {
        Some("Asc"@)
    } else if key == "Back"@ {
        Some("Retour"@)
    } else if key == "Balance and activity"@ {
        Some("Solde et activité"@)
    } else if key == "Biweekly"@ {
        Some("Aux deux semaines"@)
    } else if key == "Bills"@ {
        Some("Factures"@)
    } else if key == "Bills and paycheck transfers"@ {
        Some("Factures et virements de paie"@)
    } else if key == "Bills / Paycheck Transfers"@ {
        Some("Factures / virements de paie"@)
    } else if key == "Browser default"@ {
        Some("Langue du navigateur"@)
    } else if key == "Browser default follows your browser language. Choosing a language saves that preference in a cookie."@ {
        Some("La langue du navigateur suit votre navigateur. Choisir une langue enregistre cette préférence dans un cookie."@)
    } else if key == "Budget"@ {
        Some("Budget"@)
    } else if key == "buffer floor"@ {
        Some("plancher du coussin"@)
    } else if key == "Clear"@ {
        Some("Effacer"@)
    } else if key == "Click to edit"@ {
        Some("Cliquer pour modifier"@)
    } else if key == "Click any value to edit it. Expand a row for schedule and increase details."@ {
        Some("Cliquez sur une valeur pour la modifier. Ouvrez une ligne pour voir l'échéancier et les détails d'augmentation."@)
    } else if key == "Add this site to your home screen."@ {
        Some("Ajoutez ce site à votre écran d'accueil."@)
    } else if key == "Add it to your home screen for a full-screen shortcut on this device."@ {
        Some("Ajoutez-le à votre écran d'accueil pour avoir un raccourci plein écran sur cet appareil."@)
    } else if key == "Add to Home Screen"@ {
        Some("Ajouter à l'écran d'accueil"@)
    } else if key == "Android: open the browser menu, then tap Install app or Add to Home screen."@ {
        Some("Android : ouvrez le menu du navigateur, puis touchez Installer l'appli ou Ajouter à l'écran d'accueil."@)
    } else if key == "Close"@ {
        Some("Fermer"@)
    } else if key == "Compare the latest increase against each bill's historical average."@ {
        Some("Comparez la dernière augmentation avec la moyenne historique de chaque facture."@)
    } else if key == "Collapse"@ {
        Some("Réduire"@)
    } else if key == "Collapse sidebar"@ {
        Some("Réduire le menu"@)
    } else if key == "Create Bill"@ {
        Some("Créer une facture"@)
    } else if key == "Dashboard"@ {
        Some("Tableau de bord"@)
    } else if key == "Data"@ {
        Some("Données"@)
    } else if key == "Date"@ {
        Some("Date"@)
    } else if key == "Delete"@ {
        Some("Supprimer"@)
    } else if key == "Desc"@ {
        Some("Desc"@)
    } else {
        None
    }
}

fn french_lookup_1(key: &str) -> (r: Option<&'static str>)
    ensures
        match r { Some(t) => french_part_1(key@) == Some(t@), None => french_part_1(key@) is None },
{
    if str_eq(key, "Account") {
        Some("Compte")
    } else if str_eq(key, "Account setup") {
        Some("Configuration du compte")
    } else if str_eq(key, "Actual balance") {
        Some("Solde réel")
    } else if str_eq(key, "Adaptive transfers keep the account near the required reserve instead of accumulating excess cash.") {
        Some("Les virements adaptatifs gardent le compte près de la réserve requise au lieu d'accumuler trop d'argent.")
    } else if str_eq(key, "Add Bill") {
        Some("Ajouter une facture")
    } else if str_eq(key, "Add a paycheck transfer to forecast") {
        Some("Ajoutez un virement de paie pour prévoir")
    } else if str_eq(key, "Add Paycheck") {
        Some("Ajouter une paie")
    } else if str_eq(key, "Add or review recurring incoming transfers for this account.") {
        Some("Ajoutez ou révisez les virements entrants récurrents pour ce compte.")
    } else if str_eq(key, "Add paycheck amount") {
        Some("Ajouter le montant de la paie")
    } else if str_eq(key, "Add Transaction") {
        Some("Ajouter une transaction")
    } else if str_eq(key, "Amount") {
        Some("Montant")
    } else if str_eq(key, "Annual increase") {
        Some("Augmentation annuelle")
    } else if str_eq(key, "Asc") {
        Some("Asc")
    } else if str_eq(key, "Back") {
        Some("Retour")
    } else if str_eq(key, "Balance and activity") {
        Some("Solde et activité")
    } else if str_eq(key, "Biweekly") {
        Some("Aux deux semaines")
    } else if str_eq(key, "Bills") {
        Some("Factures")
    } else if str_eq(key, "Bills and paycheck transfers") {
        Some("Factures et virements de paie")
    } else if str_eq(key, "Bills / Paycheck Transfers") {
        Some("Factures / virements de paie")
    } else if str_eq(key, "Browser default") {
        Some("Langue du navigateur")
    } else if str_eq(key, "Browser default follows your browser language. Choosing a language saves that preference in a cookie.") {
        Some("La langue du navigateur suit votre navigateur. Choisir une langue enregistre cette préférence dans un cookie.")
    } else if str_eq(key, "Budget") {
        Some("Budget")
    } else if str_eq(key, "buffer floor") {
        Some("plancher du coussin")
    } else if str_eq(key, "Clear") {
        Some("Effacer")
    } else if str_eq(key, "Click to edit") {
        Some("Cliquer pour modifier")
    } else if str_eq(key, "Click any value to edit it. Expand a row for schedule and increase details.") {
        Some("Cliquez sur une valeur pour la modifier. Ouvrez une ligne pour voir l'échéancier et les détails d'augmentation.")
    } else if str_eq(key, "Add this site to your home screen.") {
        Some("Ajoutez ce site à votre écran d'accueil.")
    } else if str_eq(key, "Add it to your home screen for a full-screen shortcut on this device.") {
        Some("Ajoutez-le à votre écran d'accueil pour avoir un raccourci plein écran sur cet appareil.")
    } else if str_eq(key, "Add to Home Screen") {
        Some("Ajouter à l'écran d'accueil")
    } else if str_eq(key, "Android: open the browser menu, then tap Install app or Add to Home screen.") {
        Some("Android : ouvrez le menu du navigateur, puis touchez Installer l'appli ou Ajouter à l'écran d'accueil.")
    } else if str_eq(key, "Close") {
        Some("Fermer")
    } else if str_eq(key, "Compare the latest increase against each bill's historical average.") {
        Some("Comparez la dernière augmentation avec la moyenne historique de chaque facture.")
    } else if str_eq(key, "Collapse") {
        Some("Réduire")
    } else if str_eq(key, "Collapse sidebar") {
        Some("Réduire le menu")
    } else if str_eq(key, "Create Bill") {
        Some("Créer une facture")
    } else if str_eq(key, "Dashboard") {
        Some("Tableau de bord")
    } else if str_eq(key, "Data") {
        Some("Données")
    } else if str_eq(key, "Date") {
        Some("Date")
    } else if str_eq(key, "Delete") {
        Some("Supprimer")
    } else if str_eq(key, "Desc") {
        Some("Desc")
    } else {
        None
    }
}

/// French text for part 2 of the dictionary.
pub open spec fn french_part_2(key: Seq<char>) -> Option<Seq<char>> {
    if key == "Display"@ {
        Some("Affichage"@)
    } else if key == "English"@ {
        Some("Anglais"@)
    } else if key == "Expand"@ {
        Some("Agrandir"@)
    } else if key == "Expand sidebar"@ {
        Some("Agrandir le menu"@)
    } else if key == "Expected increase"@ {
        Some("Augmentation prévue"@)
    } else if key == "Finish"@ {
        Some("Terminer"@)
    } else if key == "For yearly and quarterly bills, this month anchors the payment schedule. For monthly bills, it is when yearly increases begin in the projection."@ {
        Some("Pour les factures annuelles et trimestrielles, ce mois ancre l'échéancier. Pour les factures mensuelles, il indique quand les augmentations annuelles commencent dans la projection."@)
    } else if key == "Forecast"@ {
        Some("Prévision"@)
    } else if key == "Forecast controls"@ {
        Some("Paramètres de prévision"@)
    } else if key == "Forecast years"@ {
        Some("Années de prévision"@)
    } else if key == "forecast"@ {
        Some("prévu"@)
    } else if key == "Forget token"@ {
        Some("Oublier le jeton"@)
    } else if key == "Frequency"@ {
        Some("Fréquence"@)
    } else if key == "French"@ {
        Some("Français"@)
    } else if key == "Group"@ {
        Some("Grouper"@)
    } else if key == "Group transactions"@ {
        Some("Grouper les transactions"@)
    } else if key == "Hide advanced bill fields"@ {
        Some("Masquer les détails de la facture"@)
    } else if key == "Hide install button"@ {
        Some("Masquer le bouton d'installation"@)
    } else if key == "Hide the install button on this device if Payflow is already on your home screen."@ {
        Some("Masquez le bouton d'installation sur cet appareil si Payflow est déjà sur votre écran d'accueil."@)
    } else if key == "Hide paycheck transfer details"@ {
        Some("Masquer les détails du virement de paie"@)
    } else if key == "Hide transaction details"@ {
        Some("Masquer les détails de la transaction"@)
    } else if key == "Historical average"@ {
        Some("Moyenne historique"@)
    } else if key == "Home"@ {
        Some("Accueil"@)
    } else if key == "Import from YNAB"@ {
        Some("Importer depuis YNAB"@)
    } else if key == "Importing..."@ {
        Some("Importation..."@)
    } else if key == "Imported"@ {
        Some("Importées"@)
    } else if key == "imported"@ {
        Some("importées"@)
    } else if key == "Install app"@ {
        Some("Installer l'appli"@)
    } else if key == "Install button"@ {
        Some("Bouton d'installation"@)
    } else if key == "iPhone or iPad: open Safari, tap Share, then Add to Home Screen."@ {
        Some("iPhone ou iPad : ouvrez Safari, touchez Partager, puis Ajouter à l'écran d'accueil."@)
    } else if key == "Inflow"@ {
        Some("Entrées"@)
    } else if key == "Increase analysis"@ {
        Some("Analyse des augmentations"@)
    } else if key == "Irregular"@ {
        Some("Irrégulier"@)
    } else if key == "Latest change"@ {
        Some("Dernier changement"@)
    } else if key == "Language"@ {
        Some("Langue"@)
    } else if key == "left after transfer"@ {
        Some("restants après virement"@)
    } else if key == "Load Accounts"@ {
        Some("Charger les comptes"@)
    } else if key == "Loading..."@ {
        Some("Chargement..."@)
    } else if key == "Lowest projected balance"@ {
        Some("Solde projeté le plus bas"@)
    } else if key == "matched"@ {
        Some("associées"@)
    } else {
        None
    }
}

fn french_lookup_2(key: &str) -> (r: Option<&'static str>)
    ensures
        match r { Some(t) => french_part_2(key@) == Some(t@), None => french_part_2(key@) is None },
{
    if str_eq(key, "Display") {
        Some("Affichage")
    } else if str_eq(key, "English") {
        Some("Anglais")
    } else if str_eq(key, "Expand") {
        Some("Agrandir")
    } else if str_eq(key, "Expand sidebar") {
        Some("Agrandir le menu")
    } else if str_eq(key, "Expected increase") {
        Some("Augmentation prévue")
    } else if str_eq(key, "Finish") {
        Some("Terminer")
    } else if str_eq(key, "For yearly and quarterly bills, this month anchors the payment schedule. For monthly bills, it is when yearly increases begin in the projection.") {
        Some("Pour les factures annuelles et trimestrielles, ce mois ancre l'échéancier. Pour les factures mensuelles, il indique quand les augmentations annuelles commencent dans la projection.")
    } else if str_eq(key, "Forecast") {
        Some("Prévision")
    } else if str_eq(key, "Forecast controls") {
        Some("Paramètres de prévision")
    } else if str_eq(key, "Forecast years") {
        Some("Années de prévision")
    } else if str_eq(key, "forecast") {
        Some("prévu")
    } else if str_eq(key, "Forget token") {
        Some("Oublier le jeton")
    } else if str_eq(key, "Frequency") {
        Some("Fréquence")
    } else if str_eq(key, "French") {
        Some("Français")
    } else if str_eq(key, "Group") {
        Some("Grouper")
    } else if str_eq(key, "Group transactions") {
        Some("Grouper les transactions")
    } else if str_eq(key, "Hide advanced bill fields") {
        Some("Masquer les détails de la facture")
    } else if str_eq(key, "Hide install button") {
        Some("Masquer le bouton d'installation")
    } else if str_eq(key, "Hide the install button on this device if Payflow is already on your home screen.") {
        Some("Masquez le bouton d'installation sur cet appareil si Payflow est déjà sur votre écran d'accueil.")
    } else if str_eq(key, "Hide paycheck transfer details") {
        Some("Masquer les détails du virement de paie")
    } else if str_eq(key, "Hide transaction details") {
        Some("Masquer les détails de la transaction")
    } else if str_eq(key, "Historical average") {
        Some("Moyenne historique")
    } else if str_eq(key, "Home") {
        Some("Accueil")
    } else if str_eq(key, "Import from YNAB") {
        Some("Importer depuis YNAB")
    } else if str_eq(key, "Importing...") {
        Some("Importation...")
    } else if str_eq(key, "Imported") {
        Some("Importées")
    } else if str_eq(key, "imported") {
        Some("importées")
    } else if str_eq(key, "Install app") {
        Some("Installer l'appli")
    } else if str_eq(key, "Install button") {
        Some("Bouton d'installation")
    } else if str_eq(key, "iPhone or iPad: open Safari, tap Share, then Add to Home Screen.") {
        Some("iPhone ou iPad : ouvrez Safari, touchez Partager, puis Ajouter à l'écran d'accueil.")
    } else if str_eq(key, "Inflow") {
        Some("Entrées")
    } else if str_eq(key, "Increase analysis") {
        Some("Analyse des augmentations")
    } else if str_eq(key, "Irregular") {
        Some("Irrégulier")
    } else if str_eq(key, "Latest change") {
        Some("Dernier changement")
    } else if str_eq(key, "Language") {
        Some("Langue")
    } else if str_eq(key, "left after transfer") {
        Some("restants après virement")
    } else if str_eq(key, "Load Accounts") {
        Some("Charger les comptes")
    } else if str_eq(key, "Loading...") {
        Some("Chargement...")
    } else if str_eq(key, "Lowest projected balance") {
        Some("Solde projeté le plus bas")
    } else if str_eq(key, "matched") {
        Some("associées")
    } else {
        None
    }
}

/// French text for part 3 of the dictionary.
pub open spec fn french_part_3(key: Seq<char>) -> Option<Seq<char>> {
    if key == "Memo"@ {
        Some("Mémo"@)
    } else if key == "Minimum cash buffer"@ {
        Some("Coussin minimal"@)
    } else if key == "Monthly"@ {
        Some("Mensuel"@)
    } else if key == "Name"@ {
        Some("Nom"@)
    } else if key == "Never imported"@ {
        Some("Jamais importé"@)
    } else if key == "Next"@ {
        Some("Suivant"@)
    } else if key == "Next date"@ {
        Some("Prochaine date"@)
    } else if key == "Next due date"@ {
        Some("Prochaine échéance"@)
    } else if key == "Next paycheck"@ {
        Some("Prochaine paie"@)
    } else if key == "Next week"@ {
        Some("La semaine prochaine"@)
    } else if key == "No bill"@ {
        Some("Aucune facture"@)
    } else if key == "No imported transactions in the past year"@ {
        Some("Aucune transaction importée dans la dernière année"@)
    } else if key == "No paycheck transfers yet."@ {
        Some("Aucun virement de paie pour l'instant."@)
    } else if key == "No recurring paycheck transfers detected yet."@ {
        Some("Aucun virement de paie récurrent détecté pour l'instant."@)
    } else if key == "No transactions"@ {
        Some("Aucune transaction"@)
    } else if key == "Non-recurring"@ {
        Some("Non récurrent"@)
    } else if key == "Non-Recurring"@ {
        Some("Non récurrent"@)
    } else if key == "None"@ {
        Some("Aucun"@)
    } else if key == "of"@ {
        Some("sur"@)
    } else if key == "on"@ {
        Some("le"@)
    } else if key == "Outflow"@ {
        Some("Sorties"@)
    } else if key == "Open Payflow Forecast from your device home screen like a regular app."@ {
        Some("Ouvrez Payflow Forecast depuis l'écran d'accueil de votre appareil comme une appli normale."@)
    } else if key == "Past 12 months"@ {
        Some("12 derniers mois"@)
    } else if key == "Paycheck amount"@ {
        Some("Montant de la paie"@)
    } else if key == "Paycheck pressure"@ {
        Some("Pression sur la paie"@)
    } else if key == "Paycheck rules"@ {
        Some("Règles de paie"@)
    } else if key == "Payee"@ {
        Some("Bénéficiaire"@)
    } else if key == "Payflow needs at least one paycheck transfer before it can estimate funding dates, recommended transfers, and projected balances."@ {
        Some("Payflow a besoin d'au moins un virement de paie avant d'estimer les dates de financement, les virements recommandés et les soldes projetés."@)
    } else if key == "Paycheck Transfer"@ {
        Some("Virement de paie"@)
    } else if key == "Paycheck Transfers"@ {
        Some("Virements de paie"@)
    } else if key == "Personal access token"@ {
        Some("Jeton d'accès personnel"@)
    } else if key == "Pinned last"@ {
        Some("Épinglé à la fin"@)
    } else if key == "points"@ {
        Some("points"@)
    } else if key == "Previous"@ {
        Some("Précédent"@)
    } else if key == "Projected balance"@ {
        Some("Solde projeté"@)
    } else if key == "Quarterly"@ {
        Some("Trimestriel"@)
    } else if key == "Recurring"@ {
        Some("Récurrent"@)
    } else if key == "Recurring account planner"@ {
        Some("Planificateur de compte récurrent"@)
    } else if key == "Recurring incoming transfers detected from transactions."@ {
        Some("Virements entrants récurrents détectés à partir des transactions."@)
    } else if key == "Recurring payments"@ {
        Some("Paiements récurrents"@)
    } else {
        None
    }
}

fn french_lookup_3(key: &str) -> (r: Option<&'static str>)
    ensures
        match r { Some(t) => french_part_3(key@) == Some(t@), None => french_part_3(key@) is None },
{
    if str_eq(key, "Memo") {
        Some("Mémo")
    } else if str_eq(key, "Minimum cash buffer") {
        Some("Coussin minimal")
    } else if str_eq(key, "Monthly") {
        Some("Mensuel")
    } else if str_eq(key, "Name") {
        Some("Nom")
    } else if str_eq(key, "Never imported") {
        Some("Jamais importé")
    } else if str_eq(key, "Next") {
        Some("Suivant")
    } else if str_eq(key, "Next date") {
        Some("Prochaine date")
    } else if str_eq(key, "Next due date") {
        Some("Prochaine échéance")
    } else if str_eq(key, "Next paycheck") {
        Some("Prochaine paie")
    } else if str_eq(key, "Next week") {
        Some("La semaine prochaine")
    } else if str_eq(key, "No bill") {
        Some("Aucune facture")
    } else if str_eq(key, "No imported transactions in the past year") {
        Some("Aucune transaction importée dans la dernière année")
    } else if str_eq(key, "No paycheck transfers yet.") {
        Some("Aucun virement de paie pour l'instant.")
    } else if str_eq(key, "No recurring paycheck transfers detected yet.") {
        Some("Aucun virement de paie récurrent détecté pour l'instant.")
    } else if str_eq(key, "No transactions") {
        Some("Aucune transaction")
    } else if str_eq(key, "Non-recurring") {
        Some("Non récurrent")
    } else if str_eq(key, "Non-Recurring") {
        Some("Non récurrent")
    } else if str_eq(key, "None") {
        Some("Aucun")
    } else if str_eq(key, "of") {
        Some("sur")
    } else if str_eq(key, "on") {
        Some("le")
    } else if str_eq(key, "Outflow") {
        Some("Sorties")
    } else if str_eq(key, "Open Payflow Forecast from your device home screen like a regular app.") {
        Some("Ouvrez Payflow Forecast depuis l'écran d'accueil de votre appareil comme une appli normale.")
    } else if str_eq(key, "Past 12 months") {
        Some("12 derniers mois")
    } else if str_eq(key, "Paycheck amount") {
        Some("Montant de la paie")
    } else if str_eq(key, "Paycheck pressure") {
        Some("Pression sur la paie")
    } else if str_eq(key, "Paycheck rules") {
        Some("Règles de paie")
    } else if str_eq(key, "Payee") {
        Some("Bénéficiaire")
    } else if str_eq(key, "Payflow needs at least one paycheck transfer before it can estimate funding dates, recommended transfers, and projected balances.") {
        Some("Payflow a besoin d'au moins un virement de paie avant d'estimer les dates de financement, les virements recommandés et les soldes projetés.")
    } else if str_eq(key, "Paycheck Transfer") {
        Some("Virement de paie")
    } else if str_eq(key, "Paycheck Transfers") {
        Some("Virements de paie")
    } else if str_eq(key, "Personal access token") {
        Some("Jeton d'accès personnel")
    } else if str_eq(key, "Pinned last") {
        Some("Épinglé à la fin")
    } else if str_eq(key, "points") {
        Some("points")
    } else if str_eq(key, "Previous") {
        Some("Précédent")
    } else if str_eq(key, "Projected balance") {
        Some("Solde projeté")
    } else if str_eq(key, "Quarterly") {
        Some("Trimestriel")
    } else if str_eq(key, "Recurring") {
        Some("Récurrent")
    } else if str_eq(key, "Recurring account planner") {
        Some("Planificateur de compte récurrent")
    } else if str_eq(key, "Recurring incoming transfers detected from transactions.") {
        Some("Virements entrants récurrents détectés à partir des transactions.")
    } else if str_eq(key, "Recurring payments") {
        Some("Paiements récurrents")
    } else {
        None
    }
}

/// French text for part 4 of the dictionary.
pub open spec fn french_part_4(key: Seq<char>) -> Option<Seq<char>> {
    if key == "Reset the local planner, load demo data, or reopen the introduction."@ {
        Some("Réinitialisez le plan local, chargez des données démo ou rouvrez l'introduction."@)
    } else if key == "Safety margin"@ {
        Some("Marge de sécurité"@)
    } else if key == "Sample"@ {
        Some("Exemple"@)
    } else if key == "Schedule / increase month"@ {
        Some("Mois d'échéance / d'augmentation"@)
    } else if key == "Select account"@ {
        Some("Choisir un compte"@)
    } else if key == "Select budget"@ {
        Some("Choisir un budget"@)
    } else if key == "Settings"@ {
        Some("Paramètres"@)
    } else if key == "Short by"@ {
        Some("Manque de"@)
    } else if key == "Show tutorial"@ {
        Some("Afficher le tutoriel"@)
    } else if key == "Show advanced bill fields"@ {
        Some("Afficher les détails de la facture"@)
    } else if key == "Show install button"@ {
        Some("Afficher le bouton d'installation"@)
    } else if key == "Show paycheck transfer details"@ {
        Some("Afficher les détails du virement de paie"@)
    } else if key == "Show transaction details"@ {
        Some("Afficher les détails de la transaction"@)
    } else if key == "Skip introduction"@ {
        Some("Passer l'introduction"@)
    } else if key == "Start manually"@ {
        Some("Commencer manuellement"@)
    } else if key == "Start with YNAB"@ {
        Some("Commencer avec YNAB"@)
    } else if key == "Starting balance"@ {
        Some("Solde de départ"@)
    } else if key == "Step"@ {
        Some("Étape"@)
    } else if key == "Stored locally in this browser."@ {
        Some("Enregistré localement dans ce navigateur."@)
    } else if key == "% per transfer"@ {
        Some("% par virement"@)
    } else if key == " years"@ {
        Some(" ans"@)
    } else if key == "Token saved"@ {
        Some("Jeton enregistré"@)
    } else if key == "Today"@ {
        Some("Aujourd'hui"@)
    } else if key == "Tomorrow"@ {
        Some("Demain"@)
    } else if key == "to stay afloat"@ {
        Some("pour rester à flot"@)
    } else if key == "Transactions"@ {
        Some("Transactions"@)
    } else if key == "transactions"@ {
        Some("transactions"@)
    } else if key == "Transfers"@ {
        Some("Virements"@)
    } else if key == "Trends"@ {
        Some("Tendances"@)
    } else if key == "Txns"@ {
        Some("Txns"@)
    } else if key == "Twice monthly"@ {
        Some("Deux fois par mois"@)
    } else if key == "Twice monthly paycheck transfers are scheduled on the 15th and 30th."@ {
        Some("Les virements de paie deux fois par mois sont planifiés le 15 et le 30."@)
    } else if key == "Unassigned"@ {
        Some("Non assigné"@)
    } else if key == "Upcoming payments"@ {
        Some("Paiements à venir"@)
    } else if key == "Use Payflow like an app"@ {
        Some("Utiliser Payflow comme une appli"@)
    } else if key == "Use a personal access token to import the dedicated recurring-payment account."@ {
        Some("Utilisez un jeton d'accès personnel pour importer le compte dédié aux paiements récurrents."@)
    } else if key == "Used to warn when the recommended transfer would take too much of one paycheck."@ {
        Some("Utilisé pour avertir lorsque le virement recommandé prendrait trop d'une paie."@)
    } else if key == "YNAB import"@ {
        Some("Import YNAB"@)
    } else if key == "YNAB transaction summary"@ {
        Some("Sommaire des transactions YNAB"@)
    } else if key == "Very high transfer"@ {
        Some("Virement très élevé"@)
    } else {
        None
    }
}

fn french_lookup_4(key: &str) -> (r: Option<&'static str>)
    ensures
        match r { Some(t) => french_part_4(key@) == Some(t@), None => french_part_4(key@) is None },
{
    if str_eq(key, "Reset the local planner, load demo data, or reopen the introduction.") {
        Some("Réinitialisez le plan local, chargez des données démo ou rouvrez l'introduction.")
    } else if str_eq(key, "Safety margin") {
        Some("Marge de sécurité")
    } else if str_eq(key, "Sample") {
        Some("Exemple")
    } else if str_eq(key, "Schedule / increase month") {
        Some("Mois d'échéance / d'augmentation")
    } else if str_eq(key, "Select account") {
        Some("Choisir un compte")
    } else if str_eq(key, "Select budget") {
        Some("Choisir un budget")
    } else if str_eq(key, "Settings") {
        Some("Paramètres")
    } else if str_eq(key, "Short by") {
        Some("Manque de")
    } else if str_eq(key, "Show tutorial") {
        Some("Afficher le tutoriel")
    } else if str_eq(key, "Show advanced bill fields") {
        Some("Afficher les détails de la facture")
    } else if str_eq(key, "Show install button") {
        Some("Afficher le bouton d'installation")
    } else if str_eq(key, "Show paycheck transfer details") {
        Some("Afficher les détails du virement de paie")
    } else if str_eq(key, "Show transaction details") {
        Some("Afficher les détails de la transaction")
    } else if str_eq(key, "Skip introduction") {
        Some("Passer l'introduction")
    } else if str_eq(key, "Start manually") {
        Some("Commencer manuellement")
    } else if str_eq(key, "Start with YNAB") {
        Some("Commencer avec YNAB")
    } else if str_eq(key, "Starting balance") {
        Some("Solde de départ")
    } else if str_eq(key, "Step") {
        Some("Étape")
    } else if str_eq(key, "Stored locally in this browser.") {
        Some("Enregistré localement dans ce navigateur.")
    } else if str_eq(key, "% per transfer") {
        Some("% par virement")
    } else if str_eq(key, " years") {
        Some(" ans")
    } else if str_eq(key, "Token saved") {
        Some("Jeton enregistré")
    } else if str_eq(key, "Today") {
        Some("Aujourd'hui")
    } else if str_eq(key, "Tomorrow") {
        Some("Demain")
    } else if str_eq(key, "to stay afloat") {
        Some("pour rester à flot")
    } else if str_eq(key, "Transactions") {
        Some("Transactions")
    } else if str_eq(key, "transactions") {
        Some("transactions")
    } else if str_eq(key, "Transfers") {
        Some("Virements")
    } else if str_eq(key, "Trends") {
        Some("Tendances")
    } else if str_eq(key, "Txns") {
        Some("Txns")
    } else if str_eq(key, "Twice monthly") {
        Some("Deux fois par mois")
    } else if str_eq(key, "Twice monthly paycheck transfers are scheduled on the 15th and 30th.") {
        Some("Les virements de paie deux fois par mois sont planifiés le 15 et le 30.")
    } else if str_eq(key, "Unassigned") {
        Some("Non assigné")
    } else if str_eq(key, "Upcoming payments") {
        Some("Paiements à venir")
    } else if str_eq(key, "Use Payflow like an app") {
        Some("Utiliser Payflow comme une appli")
    } else if str_eq(key, "Use a personal access token to import the dedicated recurring-payment account.") {
        Some("Utilisez un jeton d'accès personnel pour importer le compte dédié aux paiements récurrents.")
    } else if str_eq(key, "Used to warn when the recommended transfer would take too much of one paycheck.") {
        Some("Utilisé pour avertir lorsque le virement recommandé prendrait trop d'une paie.")
    } else if str_eq(key, "YNAB import") {
        Some("Import YNAB")
    } else if str_eq(key, "YNAB transaction summary") {
        Some("Sommaire des transactions YNAB")
    } else if str_eq(key, "Very high transfer") {
        Some("Virement très élevé")
    } else {
        None
    }
}

/// French text for part 5 of the dictionary.
pub open spec fn french_part_5(key: Seq<char>) -> Option<Seq<char>> {
    if key == "Weekly"@ {
        Some("Hebdomadaire"@)
    } else if key == "Welcome to Payflow Forecast"@ {
        Some("Bienvenue dans Payflow Forecast"@)
    } else if key == "Yearly"@ {
        Some("Annuel"@)
    } else if key == "above"@ {
        Some("au-dessus de la"@)
    } else if key == "after payment"@ {
        Some("après paiement"@)
    } else if key == "average"@ {
        Some("moyenne"@)
    } else if key == "below"@ {
        Some("sous la"@)
    } else if key == "This short introduction explains the app and the two normal ways to start: import from YNAB, or enter bills and paycheck transfers manually."@ {
        Some("Cette courte introduction explique l'application et les deux façons de commencer : importer depuis YNAB, ou saisir les factures et virements de paie manuellement."@)
    } else if key == "Assign imported transactions to bills, leave them unassigned, mark them non-recurring, or create a bill from the dropdown."@ {
        Some("Assignez les transactions importées aux factures, laissez-les non assignées, marquez-les non récurrentes ou créez une facture depuis la liste."@)
    } else if key == "The dashboard shows whether the recurring-payment account can stay above your minimum cash buffer. The chart combines real history with the five-year forecast so low points stand out visually."@ {
        Some("Le tableau de bord montre si le compte de paiements récurrents peut rester au-dessus du coussin minimal. Le graphique combine l'historique réel avec la prévision sur cinq ans pour faire ressortir les creux."@)
    } else if key == "The Bills page is where recurring outflows and Paycheck Transfers live. Review the detected list after import, or create rows here when entering the plan yourself."@ {
        Some("La page Factures contient les sorties récurrentes et les virements de paie. Révisez la liste détectée après l'import, ou créez des lignes ici pour une saisie manuelle."@)
    } else if key == "The Transactions page lets you review imported activity, assign a transaction to a bill, mark it non-recurring, or create a bill from a transaction when the detector missed something."@ {
        Some("La page Transactions permet de réviser l'activité importée, d'assigner une transaction à une facture, de la marquer non récurrente, ou de créer une facture lorsqu'une détection manque quelque chose."@)
    } else if key == "Trends helps compare historical bill changes against the app forecast, especially when yearly renewals or price increases start to drift from expectation."@ {
        Some("Tendances aide à comparer les changements historiques des factures avec la prévision, surtout lorsque les renouvellements annuels ou les hausses s'écartent des attentes."@)
    } else if key == "Settings controls the starting balance, minimum buffer, safety margin, paycheck amount, data reset, and YNAB connection."@ {
        Some("Les paramètres contrôlent le solde de départ, le coussin minimal, la marge de sécurité, le montant de la paie, les données et la connexion YNAB."@)
    } else if key == "To import from YNAB, paste your personal access token in Settings, load accounts, choose the budget and target account, then import. After import, review Bills and Transactions."@ {
        Some("Pour importer depuis YNAB, collez votre jeton dans Paramètres, chargez les comptes, choisissez le budget et le compte cible, puis importez. Ensuite, révisez Factures et Transactions."@)
    } else if key == "To start without YNAB, open Bills, add recurring bills and Paycheck Transfers, then confirm Settings. The dashboard will forecast from those entries."@ {
        Some("Pour commencer sans YNAB, ouvrez Factures, ajoutez les factures récurrentes et les virements de paie, puis confirmez les Paramètres. Le tableau de bord prévoira à partir de ces entrées."@)
    } else if key == "Existing users"@ {
        Some("Utilisateurs existants"@)
    } else if key == "What to watch"@ {
        Some("À surveiller"@)
    } else if key == "Most important review"@ {
        Some("Révision la plus importante"@)
    } else if key == "Correction flow"@ {
        Some("Flux de correction"@)
    } else if key == "Use later"@ {
        Some("À utiliser plus tard"@)
    } else if key == "Do this early"@ {
        Some("À faire tôt"@)
    } else if key == "Recommended path"@ {
        Some("Parcours recommandé"@)
    } else if key == "No import needed"@ {
        Some("Aucun import requis"@)
    } else if key == "Use Skip introduction if you already know the app. You can reopen this tutorial from Settings."@ {
        Some("Utilisez Passer l'introduction si vous connaissez déjà l'application. Vous pourrez rouvrir ce tutoriel dans Paramètres."@)
    } else if key == "Lowest projected balance and recommended transfer are the key numbers."@ {
        Some("Le solde projeté le plus bas et le virement recommandé sont les chiffres clés."@)
    } else if key == "Every recurring payment should have a clean bill row with amount, next due date, and frequency."@ {
        Some("Chaque paiement récurrent devrait avoir une ligne de facture claire avec montant, prochaine échéance et fréquence."@)
    } else if key == "The Bills dropdown is the source of truth for whether a transaction belongs to a recurring bill."@ {
        Some("La liste déroulante Factures est la référence pour savoir si une transaction appartient à une facture récurrente."@)
    } else if key == "This becomes more useful once you have imported or entered enough history."@ {
        Some("Cela devient plus utile après avoir importé ou saisi assez d'historique."@)
    } else if key == "Set the starting balance and minimum buffer before trusting the forecast."@ {
        Some("Réglez le solde de départ et le coussin minimal avant de vous fier à la prévision."@)
    } else if key == "The token stays in this browser's local storage. Review the imported bills before relying on the forecast."@ {
        Some("Le jeton reste dans le stockage local de ce navigateur. Révisez les factures importées avant de vous fier à la prévision."@)
    } else if key == "Manual setup is enough for forecasting, but you will not get transaction history until you import."@ {
        Some("La configuration manuelle suffit pour prévoir, mais l'historique des transactions exige un import."@)
    } else {
        None
    }
}

fn french_lookup_5(key: &str) -> (r: Option<&'static str>)
    ensures
        match r { Some(t) => french_part_5(key@) == Some(t@), None => french_part_5(key@) is None },
{
    if str_eq(key, "Weekly") {
        Some("Hebdomadaire")
    } else if str_eq(key, "Welcome to Payflow Forecast") {
        Some("Bienvenue dans Payflow Forecast")
    } else if str_eq(key, "Yearly") {
        Some("Annuel")
    } else if str_eq(key, "above") {
        Some("au-dessus de la")
    } else if str_eq(key, "after payment") {
        Some("après paiement")
    } else if str_eq(key, "average") {
        Some("moyenne")
    } else if str_eq(key, "below") {
        Some("sous la")
    } else if str_eq(key, "This short introduction explains the app and the two normal ways to start: import from YNAB, or enter bills and paycheck transfers manually.") {
        Some("Cette courte introduction explique l'application et les deux façons de commencer : importer depuis YNAB, ou saisir les factures et virements de paie manuellement.")
    } else if str_eq(key, "Assign imported transactions to bills, leave them unassigned, mark them non-recurring, or create a bill from the dropdown.") {
        Some("Assignez les transactions importées aux factures, laissez-les non assignées, marquez-les non récurrentes ou créez une facture depuis la liste.")
    } else if str_eq(key, "The dashboard shows whether the recurring-payment account can stay above your minimum cash buffer. The chart combines real history with the five-year forecast so low points stand out visually.") {
        Some("Le tableau de bord montre si le compte de paiements récurrents peut rester au-dessus du coussin minimal. Le graphique combine l'historique réel avec la prévision sur cinq ans pour faire ressortir les creux.")
    } else if str_eq(key, "The Bills page is where recurring outflows and Paycheck Transfers live. Review the detected list after import, or create rows here when entering the plan yourself.") {
        Some("La page Factures contient les sorties récurrentes et les virements de paie. Révisez la liste détectée après l'import, ou créez des lignes ici pour une saisie manuelle.")
    } else if str_eq(key, "The Transactions page lets you review imported activity, assign a transaction to a bill, mark it non-recurring, or create a bill from a transaction when the detector missed something.") {
        Some("La page Transactions permet de réviser l'activité importée, d'assigner une transaction à une facture, de la marquer non récurrente, ou de créer une facture lorsqu'une détection manque quelque chose.")
    } else if str_eq(key, "Trends helps compare historical bill changes against the app forecast, especially when yearly renewals or price increases start to drift from expectation.") {
        Some("Tendances aide à comparer les changements historiques des factures avec la prévision, surtout lorsque les renouvellements annuels ou les hausses s'écartent des attentes.")
    } else if str_eq(key, "Settings controls the starting balance, minimum buffer, safety margin, paycheck amount, data reset, and YNAB connection.") {
        Some("Les paramètres contrôlent le solde de départ, le coussin minimal, la marge de sécurité, le montant de la paie, les données et la connexion YNAB.")
    } else if str_eq(key, "To import from YNAB, paste your personal access token in Settings, load accounts, choose the budget and target account, then import. After import, review Bills and Transactions.") {
        Some("Pour importer depuis YNAB, collez votre jeton dans Paramètres, chargez les comptes, choisissez le budget et le compte cible, puis importez. Ensuite, révisez Factures et Transactions.")
    } else if str_eq(key, "To start without YNAB, open Bills, add recurring bills and Paycheck Transfers, then confirm Settings. The dashboard will forecast from those entries.") {
        Some("Pour commencer sans YNAB, ouvrez Factures, ajoutez les factures récurrentes et les virements de paie, puis confirmez les Paramètres. Le tableau de bord prévoira à partir de ces entrées.")
    } else if str_eq(key, "Existing users") {
        Some("Utilisateurs existants")
    } else if str_eq(key, "What to watch") {
        Some("À surveiller")
    } else if str_eq(key, "Most important review") {
        Some("Révision la plus importante")
    } else if str_eq(key, "Correction flow") {
        Some("Flux de correction")
    } else if str_eq(key, "Use later") {
        Some("À utiliser plus tard")
    } else if str_eq(key, "Do this early") {
        Some("À faire tôt")
    } else if str_eq(key, "Recommended path") {
        Some("Parcours recommandé")
    } else if str_eq(key, "No import needed") {
        Some("Aucun import requis")
    } else if str_eq(key, "Use Skip introduction if you already know the app. You can reopen this tutorial from Settings.") {
        Some("Utilisez Passer l'introduction si vous connaissez déjà l'application. Vous pourrez rouvrir ce tutoriel dans Paramètres.")
    } else if str_eq(key, "Lowest projected balance and recommended transfer are the key numbers.") {
        Some("Le solde projeté le plus bas et le virement recommandé sont les chiffres clés.")
    } else if str_eq(key, "Every recurring payment should have a clean bill row with amount, next due date, and frequency.") {
        Some("Chaque paiement récurrent devrait avoir une ligne de facture claire avec montant, prochaine échéance et fréquence.")
    } else if str_eq(key, "The Bills dropdown is the source of truth for whether a transaction belongs to a recurring bill.") {
        Some("La liste déroulante Factures est la référence pour savoir si une transaction appartient à une facture récurrente.")
    } else if str_eq(key, "This becomes more useful once you have imported or entered enough history.") {
        Some("Cela devient plus utile après avoir importé ou saisi assez d'historique.")
    } else if str_eq(key, "Set the starting balance and minimum buffer before trusting the forecast.") {
        Some("Réglez le solde de départ et le coussin minimal avant de vous fier à la prévision.")
    } else if str_eq(key, "The token stays in this browser's local storage. Review the imported bills before relying on the forecast.") {
        Some("Le jeton reste dans le stockage local de ce navigateur. Révisez les factures importées avant de vous fier à la prévision.")
    } else if str_eq(key, "Manual setup is enough for forecasting, but you will not get transaction history until you import.") {
        Some("La configuration manuelle suffit pour prévoir, mais l'historique des transactions exige un import.")
    } else {
        None
    }
}

/// The French text of an English key, when the dictionary has one.
pub open spec fn french_text(key: Seq<char>) -> Option<Seq<char>> {
    if french_part_1(key) is Some {
        french_part_1(key)
    } else if french_part_2(key) is Some {
        french_part_2(key)
    } else if french_part_3(key) is Some {
        french_part_3(key)
    } else if french_part_4(key) is Some {
        french_part_4(key)
    } else if french_part_5(key) is Some {
        french_part_5(key)
    } else {
        None
    }
}

/// The text shown for `key` in `language`: the key itself in English; in French
/// the dictionary's text, or the key when the dictionary has none.
pub open spec fn spec_tr(language: Language, key: Seq<char>) -> Seq<char> {
    if language == Language::English {
        key
    } else {
        match french_text(key) {
            Some(t) => t,
            None => key,
        }
    }
}

/// The text shown for an English key in `language`.
pub fn tr(language: Language, key: &'static str) -> (r: &'static str)
    ensures
        r@ == spec_tr(language, key@),
{
    if language == Language::English {
        return key;
    }
    if let Some(t) = french_lookup_1(key) {
        return t;
    }
    if let Some(t) = french_lookup_2(key) {
        return t;
    }
    if let Some(t) = french_lookup_3(key) {
        return t;
    }
    if let Some(t) = french_lookup_4(key) {
        return t;
    }
    if let Some(t) = french_lookup_5(key) {
        return t;
    }
    key
}

/// The pages of the planner.
#[derive(Clone, Copy, Debug, PartialEq, Eq, Structural)]
pub enum ViewName {
    Dashboard,
    Bills,
    Transactions,
    Trends,
    Settings,
}

pub open spec fn spec_view_key(view: ViewName) -> Seq<char> {
    match view {
        ViewName::Dashboard => "Dashboard"@,
        ViewName::Bills => "Bills"@,
        ViewName::Transactions => "Transactions"@,
        ViewName::Trends => "Trends"@,
        ViewName::Settings => "Settings"@,
    }
}

pub open spec fn spec_view_short_key(view: ViewName) -> Seq<char> {
    match view {
        ViewName::Dashboard => "Home"@,
        ViewName::Bills => "Bills"@,
        ViewName::Transactions => "Txns"@,
        ViewName::Trends => "Trends"@,
        ViewName::Settings => "Settings"@,
    }
}

impl ViewName {
    /// The page title in `language`.
    pub fn label(self, language: Language) -> (r: &'static str)
        ensures
            r@ == spec_tr(language, spec_view_key(self)),
    {
        tr(
            language,
            match self {
                ViewName::Dashboard => "Dashboard",
                ViewName::Bills => "Bills",
                ViewName::Transactions => "Transactions",
                ViewName::Trends => "Trends",
                ViewName::Settings => "Settings",
            },
        )
    }

    /// The navigation icon.
    pub fn icon(self) -> (r: &'static str)
        ensures
            r@ == match self {
                ViewName::Dashboard => "⌂"@,
                ViewName::Bills => "$"@,
                ViewName::Transactions => "⇄"@,
                ViewName::Trends => "↗"@,
                ViewName::Settings => "⚙"@,
            },
    {
        match self {
            ViewName::Dashboard => "⌂",
            ViewName::Bills => "$",
            ViewName::Transactions => "⇄",
            ViewName::Trends => "↗",
            ViewName::Settings => "⚙",
        }
    }

    /// The short title used in the mobile tab bar, in `language`.
    pub fn short_label(self, language: Language) -> (r: &'static str)
        ensures
            r@ == spec_tr(language, spec_view_short_key(self)),
    {
        tr(
            language,
            match self {
                ViewName::Dashboard => "Home",
                ViewName::Bills => "Bills",
                ViewName::Transactions => "Txns",
                ViewName::Trends => "Trends",
                ViewName::Settings => "Settings",
            },
        )
    }
}

/// The steps of the introduction tour, in order.
#[derive(Clone, Copy, Debug, PartialEq, Eq, Structural)]
pub enum TutorialStep {
    Welcome,
    Dashboard,
    Bills,
    Transactions,
    Trends,
    Settings,
    YnabImport,
    ManualSetup,
}

pub open spec fn spec_tutorial_index(step: TutorialStep) -> nat {
    match step {
        TutorialStep::Welcome => 0,
        TutorialStep::Dashboard => 1,
        TutorialStep::Bills => 2,
        TutorialStep::Transactions => 3,
        TutorialStep::Trends => 4,
        TutorialStep::Settings => 5,
        TutorialStep::YnabImport => 6,
        TutorialStep::ManualSetup => 7,
    }
}

/// The step at a position of the tour.
pub open spec fn tutorial_step_at(index: nat) -> TutorialStep {
    if index == 0 {
        TutorialStep::Welcome
    } else if index == 1 {
        TutorialStep::Dashboard
    } else if index == 2 {
        TutorialStep::Bills
    } else if index == 3 {
        TutorialStep::Transactions
    } else if index == 4 {
        TutorialStep::Trends
    } else if index == 5 {
        TutorialStep::Settings
    } else if index == 6 {
        TutorialStep::YnabImport
    } else {
        TutorialStep::ManualSetup
    }
}

/// The following step; the last step stays.
pub open spec fn spec_tutorial_next(step: TutorialStep) -> TutorialStep {
    tutorial_step_at(if spec_tutorial_index(step) < 7 {
        spec_tutorial_index(step) + 1
    } else {
        7
    })
}

/// The preceding step; the first step stays.
pub open spec fn spec_tutorial_previous(step: TutorialStep) -> TutorialStep {
    tutorial_step_at(if spec_tutorial_index(step) > 0 {
        (spec_tutorial_index(step) - 1) as nat
    } else {
        0
    })
}

pub open spec fn spec_tutorial_view(step: TutorialStep) -> Option<ViewName> {
    match step {
        TutorialStep::Welcome => None,
        TutorialStep::Dashboard => Some(ViewName::Dashboard),
        TutorialStep::Bills | TutorialStep::ManualSetup => Some(ViewName::Bills),
        TutorialStep::Transactions => Some(ViewName::Transactions),
        TutorialStep::Trends => Some(ViewName::Trends),
        TutorialStep::Settings | TutorialStep::YnabImport => Some(ViewName::Settings),
    }
}

impl TutorialStep {
    /// The number of steps.
    pub const COUNT: usize = 8;

    /// Position in the tour, from 0.
    pub fn index(self) -> (r: usize)
        ensures
            r == spec_tutorial_index(self),
            r < 8,
    {
        match self {
            TutorialStep::Welcome => 0,
            TutorialStep::Dashboard => 1,
            TutorialStep::Bills => 2,
            TutorialStep::Transactions => 3,
            TutorialStep::Trends => 4,
            TutorialStep::Settings => 5,
            TutorialStep::YnabImport => 6,
            TutorialStep::ManualSetup => 7,
        }
    }

    /// The following step; the last step stays.
    pub fn next(self) -> (r: TutorialStep)
        ensures
            r == spec_tutorial_next(self),
    {
        match self {
            TutorialStep::Welcome => TutorialStep::Dashboard,
            TutorialStep::Dashboard => TutorialStep::Bills,
            TutorialStep::Bills => TutorialStep::Transactions,
            TutorialStep::Transactions => TutorialStep::Trends,
            TutorialStep::Trends => TutorialStep::Settings,
            TutorialStep::Settings => TutorialStep::YnabImport,
            TutorialStep::YnabImport => TutorialStep::ManualSetup,
            TutorialStep::ManualSetup => TutorialStep::ManualSetup,
        }
    }

    /// The preceding step; the first step stays.
    pub fn previous(self) -> (r: TutorialStep)
        ensures
            r == spec_tutorial_previous(self),
    {
        match self {
            TutorialStep::Welcome => TutorialStep::Welcome,
            TutorialStep::Dashboard => TutorialStep::Welcome,
            TutorialStep::Bills => TutorialStep::Dashboard,
            TutorialStep::Transactions => TutorialStep::Bills,
            TutorialStep::Trends => TutorialStep::Transactions,
            TutorialStep::Settings => TutorialStep::Trends,
            TutorialStep::YnabImport => TutorialStep::Settings,
            TutorialStep::ManualSetup => TutorialStep::YnabImport,
        }
    }

    /// Whether this is the last step.
    pub fn is_last(self) -> (r: bool)
        ensures
            r == (self == TutorialStep::ManualSetup),
    {
        self == TutorialStep::ManualSetup
    }

    /// The page a step shows, if any.
    pub fn view(self) -> (r: Option<ViewName>)
        ensures
            r == spec_tutorial_view(self),
    {
        match self {
            TutorialStep::Welcome => None,
            TutorialStep::Dashboard => Some(ViewName::Dashboard),
            TutorialStep::Bills | TutorialStep::ManualSetup => Some(ViewName::Bills),
            TutorialStep::Transactions => Some(ViewName::Transactions),
            TutorialStep::Trends => Some(ViewName::Trends),
            TutorialStep::Settings | TutorialStep::YnabImport => Some(ViewName::Settings),
        }
    }

    pub fn title(self) -> (r: &'static str)
        ensures
            r@ == spec_tutorial_title(self),
    {
        match self {
            TutorialStep::Welcome => "Welcome to Payflow Forecast",
            TutorialStep::Dashboard => "Dashboard",
            TutorialStep::Bills => "Bills",
            TutorialStep::Transactions => "Transactions",
            TutorialStep::Trends => "Trends",
            TutorialStep::Settings => "Settings",
            TutorialStep::YnabImport => "Start with YNAB",
            TutorialStep::ManualSetup => "Start manually",
        }
    }

    pub fn body(self) -> (r: &'static str)
        ensures
            r@ == spec_tutorial_body(self),
    {
        match self {
            TutorialStep::Welcome => "This short introduction explains the app and the two normal ways to start: import from YNAB, or enter bills and paycheck transfers manually.",
            TutorialStep::Dashboard => "The dashboard shows whether the recurring-payment account can stay above your minimum cash buffer. The chart combines real history with the five-year forecast so low points stand out visually.",
            TutorialStep::Bills => "The Bills page is where recurring outflows and Paycheck Transfers live. Review the detected list after import, or create rows here when entering the plan yourself.",
            TutorialStep::Transactions => "The Transactions page lets you review imported activity, assign a transaction to a bill, mark it non-recurring, or create a bill from a transaction when the detector missed something.",
            TutorialStep::Trends => "Trends helps compare historical bill changes against the app forecast, especially when yearly renewals or price increases start to drift from expectation.",
            TutorialStep::Settings => "Settings controls the starting balance, minimum buffer, safety margin, paycheck amount, data reset, and YNAB connection.",
            TutorialStep::YnabImport => "To import from YNAB, paste your personal access token in Settings, load accounts, choose the budget and target account, then import. After import, review Bills and Transactions.",
            TutorialStep::ManualSetup => "To start without YNAB, open Bills, add recurring bills and Paycheck Transfers, then confirm Settings. The dashboard will forecast from those entries.",
        }
    }

    pub fn callout_title(self) -> (r: &'static str)
        ensures
            r@ == spec_tutorial_callout_title(self),
    {
        match self {
            TutorialStep::Welcome => "Existing users",
            TutorialStep::Dashboard => "What to watch",
            TutorialStep::Bills => "Most important review",
            TutorialStep::Transactions => "Correction flow",
            TutorialStep::Trends => "Use later",
            TutorialStep::Settings => "Do this early",
            TutorialStep::YnabImport => "Recommended path",
            TutorialStep::ManualSetup => "No import needed",
        }
    }

    pub fn callout_body(self) -> (r: &'static str)
        ensures
            r@ == spec_tutorial_callout_body(self),
    {
        match self {
            TutorialStep::Welcome => "Use Skip introduction if you already know the app. You can reopen this tutorial from Settings.",
            TutorialStep::Dashboard => "Lowest projected balance and recommended transfer are the key numbers.",
            TutorialStep::Bills => "Every recurring payment should have a clean bill row with amount, next due date, and frequency.",
            TutorialStep::Transactions => "The Bills dropdown is the source of truth for whether a transaction belongs to a recurring bill.",
            TutorialStep::Trends => "This becomes more useful once you have imported or entered enough history.",
            TutorialStep::Settings => "Set the starting balance and minimum buffer before trusting the forecast.",
            TutorialStep::YnabImport => "The token stays in this browser's local storage. Review the imported bills before relying on the forecast.",
            TutorialStep::ManualSetup => "Manual setup is enough for forecasting, but you will not get transaction history until you import.",
        }
    }

}

/// Law: stepping back undoes stepping forward, except from the last step;
/// stepping forward undoes stepping back, except from the first; each step
/// forward moves one position on, up to the last.
pub proof fn law_tutorial_previous_undoes_next(step: TutorialStep)
    ensures
        step != TutorialStep::ManualSetup ==> spec_tutorial_previous(spec_tutorial_next(step)) == step,
        step != TutorialStep::Welcome ==> spec_tutorial_next(spec_tutorial_previous(step)) == step,
        spec_tutorial_index(spec_tutorial_next(step)) == if spec_tutorial_index(step) < 7 {
            spec_tutorial_index(step) + 1
        } else {
            7
        },
{
}

pub open spec fn spec_tutorial_title(step: TutorialStep) -> Seq<char> {
    match step {
        TutorialStep::Welcome => "Welcome to Payflow Forecast"@,
        TutorialStep::Dashboard => "Dashboard"@,
        TutorialStep::Bills => "Bills"@,
        TutorialStep::Transactions => "Transactions"@,
        TutorialStep::Trends => "Trends"@,
        TutorialStep::Settings => "Settings"@,
        TutorialStep::YnabImport => "Start with YNAB"@,
        TutorialStep::ManualSetup => "Start manually"@,
    }
}

pub open spec fn spec_tutorial_body(step: TutorialStep) -> Seq<char> {
    match step {
        TutorialStep::Welcome => "This short introduction explains the app and the two normal ways to start: import from YNAB, or enter bills and paycheck transfers manually."@,
        TutorialStep::Dashboard => "The dashboard shows whether the recurring-payment account can stay above your minimum cash buffer. The chart combines real history with the five-year forecast so low points stand out visually."@,
        TutorialStep::Bills => "The Bills page is where recurring outflows and Paycheck Transfers live. Review the detected list after import, or create rows here when entering the plan yourself."@,
        TutorialStep::Transactions => "The Transactions page lets you review imported activity, assign a transaction to a bill, mark it non-recurring, or create a bill from a transaction when the detector missed something."@,
        TutorialStep::Trends => "Trends helps compare historical bill changes against the app forecast, especially when yearly renewals or price increases start to drift from expectation."@,
        TutorialStep::Settings => "Settings controls the starting balance, minimum buffer, safety margin, paycheck amount, data reset, and YNAB connection."@,
        TutorialStep::YnabImport => "To import from YNAB, paste your personal access token in Settings, load accounts, choose the budget and target account, then import. After import, review Bills and Transactions."@,
        TutorialStep::ManualSetup => "To start without YNAB, open Bills, add recurring bills and Paycheck Transfers, then confirm Settings. The dashboard will forecast from those entries."@,
    }
}

pub open spec fn spec_tutorial_callout_title(step: TutorialStep) -> Seq<char> {
    match step {
        TutorialStep::Welcome => "Existing users"@,
        TutorialStep::Dashboard => "What to watch"@,
        TutorialStep::Bills => "Most important review"@,
        TutorialStep::Transactions => "Correction flow"@,
        TutorialStep::Trends => "Use later"@,
        TutorialStep::Settings => "Do this early"@,
        TutorialStep::YnabImport => "Recommended path"@,
        TutorialStep::ManualSetup => "No import needed"@,
    }
}

pub open spec fn spec_tutorial_callout_body(step: TutorialStep) -> Seq<char> {
    match step {
        TutorialStep::Welcome => "Use Skip introduction if you already know the app. You can reopen this tutorial from Settings."@,
        TutorialStep::Dashboard => "Lowest projected balance and recommended transfer are the key numbers."@,
        TutorialStep::Bills => "Every recurring payment should have a clean bill row with amount, next due date, and frequency."@,
        TutorialStep::Transactions => "The Bills dropdown is the source of truth for whether a transaction belongs to a recurring bill."@,
        TutorialStep::Trends => "This becomes more useful once you have imported or entered enough history."@,
        TutorialStep::Settings => "Set the starting balance and minimum buffer before trusting the forecast."@,
        TutorialStep::YnabImport => "The token stays in this browser's local storage. Review the imported bills before relying on the forecast."@,
        TutorialStep::ManualSetup => "Manual setup is enough for forecasting, but you will not get transaction history until you import."@,
    }
}

pub open spec fn spec_cadence_key(cadence: RecurringCadence) -> Seq<char> {
    match cadence {
        RecurringCadence::Weekly => "Weekly"@,
        RecurringCadence::Biweekly => "Biweekly"@,
        RecurringCadence::Semimonthly => "Twice monthly"@,
        RecurringCadence::Monthly => "Monthly"@,
        RecurringCadence::Quarterly => "Quarterly"@,
        RecurringCadence::Yearly => "Yearly"@,
        RecurringCadence::Irregular => "Irregular"@,
    }
}

/// The display name of a detected cadence in `language`.
pub fn cadence_label(cadence: RecurringCadence, language: Language) -> (r: &'static str)
    ensures
        r@ == spec_tr(language, spec_cadence_key(cadence)),
{
    tr(
        language,
        match cadence {
            RecurringCadence::Weekly => "Weekly",
            RecurringCadence::Biweekly => "Biweekly",
            RecurringCadence::Semimonthly => "Twice monthly",
            RecurringCadence::Monthly => "Monthly",
            RecurringCadence::Quarterly => "Quarterly",
            RecurringCadence::Yearly => "Yearly",
            RecurringCadence::Irregular => "Irregular",
        },
    )
}

/// The display name of a bill frequency in `language`.
pub fn frequency_label(frequency: Frequency, language: Language) -> (r: &'static str)
    ensures
        r@ == spec_tr(language, crate::models::spec_frequency_label(frequency)),
{
    tr(language, frequency.label())
}

/// How a date reads relative to today: "Today", "Tomorrow", "In N days" for two
/// to six days ahead, "Next week" for seven to thirteen, else the date itself.
pub open spec fn spec_relative_date_label(date: Date, today: Date, language: Language) -> Seq<
    char,
> {
    let delta = spec_date_days(date) - spec_date_days(today);
    if delta == 0 {
        spec_tr(language, "Today"@)
    } else if delta == 1 {
        spec_tr(language, "Tomorrow"@)
    } else if 2 <= delta <= 6 {
        if language == Language::French {
            "Dans "@ + signed_decimal(delta) + " jours"@
        } else {
            "In "@ + signed_decimal(delta) + " days"@
        }
    } else if 7 <= delta <= 13 {
        spec_tr(language, "Next week"@)
    } else {
        spec_date_label(date)
    }
}

pub fn relative_date_label(date: Date, today: Date, language: Language) -> (r: String)
    ensures
        r@ == spec_relative_date_label(date, today, language),
{
    let delta = days_between(today, date);
    if delta == 0 {
        crate::text::owned(tr(language, "Today"))
    } else if delta == 1 {
        crate::text::owned(tr(language, "Tomorrow"))
    } else if 2 <= delta && delta <= 6 {
        let mut v: Vec<char> = Vec::new();
        if language == Language::French {
            extend_chars(&mut v, "Dans ");
            push_signed_padded(&mut v, delta, 0);
            extend_chars(&mut v, " jours");
        } else {
            extend_chars(&mut v, "In ");
            push_signed_padded(&mut v, delta, 0);
            extend_chars(&mut v, " days");
        }
        string_of(&v)
    } else if 7 <= delta && delta <= 13 {
        crate::text::owned(tr(language, "Next week"))
    } else {
        date.label()
    }
}


/// The sort key of a transaction group: "Unassigned" last, the others by their
/// lowercased name.
pub open spec fn spec_group_sort_key(name: Seq<char>, language: Language) -> (u8, Seq<char>) {
    if name == spec_tr(language, "Unassigned"@) {
        (1, Seq::empty())
    } else {
        (0, crate::names::unicode_lowercase_str(name))
    }
}

pub fn group_sort_key(name: &str, language: Language) -> (r: (u8, String))
    ensures
        (r.0, r.1@) == spec_group_sort_key(name@, language),
{
    if str_eq(name, tr(language, "Unassigned")) {
        (1, String::new())
    } else {
        (0, crate::names::to_lowercase(name))
    }
}

} // verus!
