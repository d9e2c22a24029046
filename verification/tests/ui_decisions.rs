use leviathan_plugins::dialog::{
    button_id, button_style, dialog_button_check, dialog_check, dialog_control_check, non_empty_text,
};
use leviathan_plugins::naming::check_replace_container;
use leviathan_plugins::ui_contrib::{chrome_dependencies, chrome_plan, overlay_plan};

fn names(v: &[&str]) -> Vec<String> {
    v.iter().map(|s| s.to_string()).collect()
}

#[test]
fn chrome_plan_checks_point_then_id() {
    let points = names(&["toolbar", "status_bar"]);
    assert_eq!(
        chrome_plan("nope", &points, "x", None).err(),
        Some("unknown chrome point: nope".to_string())
    );
    assert_eq!(
        chrome_plan("toolbar", &points, "", None).err(),
        Some("chrome contribution `id` must be a non-empty string".to_string())
    );
    let plan = chrome_plan("toolbar", &points, "clock", None).ok().unwrap();
    assert_eq!(plan.check.capability, "ui:chrome:toolbar");
    assert_eq!(plan.check.target, "chrome:toolbar:clock");
    assert_eq!(plan.priority, 0);
    assert_eq!(chrome_plan("toolbar", &points, "clock", Some(7)).ok().unwrap().priority, 7);
}

#[test]
fn chrome_dependencies_default_dedupe_and_refuse_unknown() {
    let known = names(&["repository.head", "repository.status"]);
    let default = names(&["repository.head"]);
    assert_eq!(chrome_dependencies(&None, &known, &default).unwrap(), default);
    let given = Some(names(&["repository.status", "repository.head", "repository.status"]));
    assert_eq!(
        chrome_dependencies(&given, &known, &default).unwrap(),
        names(&["repository.status", "repository.head"])
    );
    let bad = Some(names(&["repository.head", "weather"]));
    assert_eq!(
        chrome_dependencies(&bad, &known, &default),
        Err("unknown chrome dependency `weather`".to_string())
    );
}

#[test]
fn overlay_plan_defaults() {
    let plan = overlay_plan("palette", None, None);
    assert_eq!(plan.check.capability, "ui:overlay");
    assert_eq!(plan.check.target, "overlay:palette");
    assert_eq!(plan.handle, "overlay:palette");
    assert!(plan.dismissible);
    assert_eq!(plan.priority, 0);
    let plan = overlay_plan("palette", Some(false), Some(3));
    assert!(!plan.dismissible);
    assert_eq!(plan.priority, 3);
}

#[test]
fn dialog_texts_styles_and_button_ids() {
    assert_eq!(non_empty_text("  ".to_string(), "dialog.text"), Err("dialog.text must not be empty".to_string()));
    assert_eq!(non_empty_text(" hi ".to_string(), "dialog.text"), Ok(" hi ".to_string()));
    assert_eq!(button_style(" Red "), Ok("red".to_string()));
    assert_eq!(
        button_style("Purple"),
        Err("dialog button style `purple` is not supported; expected red, green, blue, or white".to_string())
    );
    assert_eq!(button_id(None, 0), Ok("button_1".to_string()));
    assert_eq!(button_id(Some("ok".to_string()), 4), Ok("ok".to_string()));
    assert_eq!(button_id(Some(" ".to_string()), 4), Err("dialog button id must not be empty".to_string()));
}

#[test]
fn dialog_checks_name_their_targets() {
    assert_eq!(dialog_check("confirm").target, "dialog:confirm");
    assert_eq!(dialog_control_check("confirm", "name").target, "dialog:confirm:control:name");
    let press = dialog_button_check("confirm", "ok");
    assert_eq!(press.capability, "ui:overlay");
    assert_eq!(press.target, "dialog:confirm:button:ok");
}

#[test]
fn replace_slot_keeps_the_container() {
    assert_eq!(check_replace_container("repository", "toolbar", "toolbar"), Ok(()));
    assert_eq!(
        check_replace_container("repository", "diff.toolbar", "toolbar"),
        Err("repository.replace_slot: spec container 'diff.toolbar' != target 'toolbar'".to_string())
    );
}
