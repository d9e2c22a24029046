//! What `leviathan.ui.dialog` decides about a dialog request before the
//! host shows it: required text fields, button styles and default button
//! ids, and the targets its `ui:overlay` checks name.

use vstd::prelude::*;
use crate::clock::{decimal_string, dec_digits};
use crate::text::{chars_eq_str, lower_seq, str_concat, string_of, to_ascii_lower, trim, trim_str, cat3};
use crate::ui_contrib::ContributionCheck;

verus! {

/// The refusal for a required text that is blank.
pub open spec fn blank_message(label: Seq<char>) -> Seq<char> {
    label + " must not be empty"@
}

/// A required text field: kept as given unless it is blank (empty once
/// trimmed), which is refused naming `label`.
pub fn non_empty_text(value: String, label: &str) -> (r: Result<String, String>)
    ensures
        match r {
            Ok(v) => trim(value@).len() > 0 && v@ == value@,
            Err(m) => trim(value@).len() == 0 && m@ == blank_message(label@),
        },
{
    let trimmed = trim_str(value.as_str());
    if trimmed.as_str().is_empty() {
        return Err(str_concat(label, " must not be empty"));
    }
    Ok(value)
}

/// A supported button style name.
pub open spec fn is_button_style(s: Seq<char>) -> bool {
    s == "red"@ || s == "green"@ || s == "blue"@ || s == "white"@
}

/// A button's style: the given name trimmed and lower-cased when it is
/// red, green, blue or white; otherwise refused.
pub fn button_style(raw: &str) -> (r: Result<String, String>)
    ensures
        match r {
            Ok(s) => is_button_style(lower_seq(trim(raw@))) && s@ == lower_seq(trim(raw@)),
            Err(m) => !is_button_style(lower_seq(trim(raw@))) && m@ == "dialog button style `"@ + lower_seq(
                trim(raw@),
            ) + "` is not supported; expected red, green, blue, or white"@,
        },
{
    let trimmed = trim_str(raw);
    let lower = to_ascii_lower(trimmed.as_str());
    let name = string_of(&lower);
    if chars_eq_str(&lower, "red") || chars_eq_str(&lower, "green") || chars_eq_str(&lower, "blue")
        || chars_eq_str(&lower, "white") {
        Ok(name)
    } else {
        Err(cat3("dialog button style `", name.as_str(), "` is not supported; expected red, green, blue, or white"))
    }
}

/// The id of the button at `index` (from 0): the given id unless it is
/// blank, `button_<index + 1>` when none is given.
pub fn button_id(given: Option<String>, index: usize) -> (r: Result<String, String>)
    requires
        index < u64::MAX,
    ensures
        match given {
            Some(id) => match r {
                Ok(v) => trim(id@).len() > 0 && v@ == id@,
                Err(m) => trim(id@).len() == 0 && m@ == blank_message("dialog button id"@),
            },
            None => r is Ok && r->Ok_0@ == "button_"@ + dec_digits((index + 1) as nat),
        },
{
    match given {
        Some(id) => non_empty_text(id, "dialog button id"),
        None => Ok(str_concat("button_", decimal_string(index as u64 + 1).as_str())),
    }
}

/// The check for opening dialog `dialog_id`.
pub fn dialog_check(dialog_id: &str) -> (r: ContributionCheck)
    ensures
        r.capability@ == "ui:overlay"@,
        r.target@ == "dialog:"@ + dialog_id@,
{
    ContributionCheck { capability: crate::text::str_to_string("ui:overlay"), target: str_concat("dialog:", dialog_id) }
}

/// The check for focusing control `control_id` of dialog `dialog_id`.
pub fn dialog_control_check(dialog_id: &str, control_id: &str) -> (r: ContributionCheck)
    ensures
        r.capability@ == "ui:overlay"@,
        r.target@ == "dialog:"@ + dialog_id@ + ":control:"@ + control_id@,
{
    let mut target = cat3("dialog:", dialog_id, ":control:");
    target.append(control_id);
    ContributionCheck { capability: crate::text::str_to_string("ui:overlay"), target }
}

/// The check for pressing button `button_id` of dialog `dialog_id`.
pub fn dialog_button_check(dialog_id: &str, button_id: &str) -> (r: ContributionCheck)
    ensures
        r.capability@ == "ui:overlay"@,
        r.target@ == "dialog:"@ + dialog_id@ + ":button:"@ + button_id@,
{
    let mut target = cat3("dialog:", dialog_id, ":button:");
    target.append(button_id);
    ContributionCheck { capability: crate::text::str_to_string("ui:overlay"), target }
}

} // verus!
