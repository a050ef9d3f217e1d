use runcher::actions::ActionsUI;
use runcher::panel::{ParamValue, build_panel};
use runcher::script::{ParamType, Parameter, Preset, SQLScript};
use runcher::settings::{SettingValue, Settings};

fn key(s: &str) -> String {
    s.to_string()
}

fn text_at(settings: &Settings, k: &str) -> Option<String> {
    match settings.get(&key(k)) {
        Some(SettingValue::Text(t)) => Some(t),
        _ => None,
    }
}

fn flag_at(settings: &Settings, k: &str) -> Option<bool> {
    match settings.get(&key(k)) {
        Some(SettingValue::Bool(b)) => Some(b),
        _ => None,
    }
}

fn remove_fog() -> SQLScript {
    SQLScript::new(
        "remove_fog",
        "Remove Fog",
        vec![Parameter::new("strict", "Strict", ParamType::Bool, "false")],
        false,
    )
}

fn balance() -> SQLScript {
    SQLScript::new(
        "balance",
        "Balance",
        vec![Parameter::new("factor", "Factor", ParamType::Float, "1.0")],
        false,
    )
}

#[test]
fn remove_fog_starts_unchecked_and_editable() {
    let mut settings = Settings::new();
    let mut panel = build_panel("wh3", &remove_fog(), &[], &mut settings);
    assert!(!panel.toggle_checked);
    assert_eq!(panel.param_values, vec![ParamValue::Bool(false)]);
    assert!(panel.has_preset_selector);
    assert!(!panel.preset_selector_shown);
    panel.toggle(true, &mut settings);
    assert!(panel.toggle_checked);
    assert!(panel.params_enabled);
    assert!(panel.preset_selector_enabled);
    assert_eq!(flag_at(&settings, "script_to_execute_wh3_remove_fog"), Some(true));
}

#[test]
fn balance_restores_hard_preset() {
    let mut settings = Settings::new();
    settings.set(&key("script_to_execute_wh3_balance_preset"), SettingValue::Text(key("hard")));
    let presets = vec![Preset::new("easy"), Preset::new("hard")];
    let panel = build_panel("wh3", &balance(), &presets, &mut settings);
    assert_eq!(panel.preset_entries, vec![key("No Preset"), key("easy"), key("hard")]);
    assert_eq!(panel.preset_index, 2);
    assert!(panel.preset_selector_shown);
    assert!(!panel.params_enabled);
    assert_eq!(panel.param_values, vec![ParamValue::FloatDefault]);
    assert_eq!(text_at(&settings, "script_to_execute_wh3_balance_preset"), Some(key("hard")));
}

#[test]
fn script_without_parameters_has_no_selector() {
    let mut settings = Settings::new();
    let script = SQLScript::new("plain", "Plain", vec![], false);
    let panel = build_panel("wh3", &script, &[Preset::new("easy")], &mut settings);
    assert!(!panel.has_preset_selector);
    assert!(!panel.presets_available);
    assert!(panel.preset_entries.is_empty());
    assert!(panel.param_values.is_empty());
    assert!(panel.params_enabled);
}

#[test]
fn unknown_stored_preset_is_cleared() {
    let mut settings = Settings::new();
    settings.set(&key("script_to_execute_wh3_balance_preset"), SettingValue::Text(key("medium")));
    let presets = vec![Preset::new("easy"), Preset::new("hard")];
    let panel = build_panel("wh3", &balance(), &presets, &mut settings);
    assert_eq!(panel.preset_index, 0);
    assert!(panel.params_enabled);
    assert_eq!(text_at(&settings, "script_to_execute_wh3_balance_preset"), Some(key("")));
}

#[test]
fn selecting_presets_switches_parameter_controls() {
    let mut settings = Settings::new();
    let presets = vec![Preset::new("easy"), Preset::new("hard")];
    let mut panel = build_panel("wh3", &balance(), &presets, &mut settings);
    assert!(panel.params_enabled);
    panel.select_preset(1, &mut settings);
    assert!(!panel.params_enabled);
    assert_eq!(text_at(&settings, "script_to_execute_wh3_balance_preset"), Some(key("easy")));
    panel.toggle(true, &mut settings);
    assert!(!panel.params_enabled);
    panel.select_preset(0, &mut settings);
    assert!(panel.params_enabled);
    assert_eq!(text_at(&settings, "script_to_execute_wh3_balance_preset"), Some(key("")));
    panel.toggle(false, &mut settings);
    assert!(panel.params_enabled);
    assert!(!panel.preset_selector_enabled);
    assert_eq!(flag_at(&settings, "script_to_execute_wh3_balance"), Some(false));
}

#[test]
fn automatic_script_is_hidden_and_checked() {
    let mut settings = Settings::new();
    settings.set(&key("script_to_execute_wh3_auto"), SettingValue::Bool(false));
    let script = SQLScript::new(
        "auto",
        "Auto",
        vec![Parameter::new("level", "Level", ParamType::Integer, "3")],
        true,
    );
    let panel = build_panel("wh3", &script, &[], &mut settings);
    assert!(panel.hidden);
    assert!(panel.toggle_checked);
    assert_eq!(flag_at(&settings, "script_to_execute_wh3_auto"), Some(true));
    assert_eq!(panel.param_values, vec![ParamValue::Integer(3)]);
}

#[test]
fn persisted_toggle_is_restored() {
    let mut settings = Settings::new();
    settings.set(&key("script_to_execute_wh3_remove_fog"), SettingValue::Bool(true));
    let panel = build_panel("wh3", &remove_fog(), &[], &mut settings);
    assert!(panel.toggle_checked);
    assert!(!panel.hidden);
}

#[test]
fn parameter_values_round_trip_for_each_type() {
    let script = SQLScript::new(
        "mix",
        "Mix",
        vec![
            Parameter::new("on", "On", ParamType::Bool, "false"),
            Parameter::new("count", "Count", ParamType::Integer, "1"),
            Parameter::new("rate", "Rate", ParamType::Float, "0.5"),
        ],
        false,
    );
    let mut settings = Settings::new();
    let mut panel = build_panel("wh3", &script, &[], &mut settings);
    assert_eq!(
        panel.param_values,
        vec![ParamValue::Bool(false), ParamValue::Integer(1), ParamValue::FloatDefault]
    );
    panel.set_param_value(0, ParamValue::Bool(true), &mut settings);
    panel.set_param_value(1, ParamValue::Integer(-42), &mut settings);
    panel.set_param_value(2, ParamValue::Float(2.5f32.to_bits()), &mut settings);
    let rebuilt = build_panel("wh3", &script, &[], &mut settings);
    assert_eq!(
        rebuilt.param_values,
        vec![ParamValue::Bool(true), ParamValue::Integer(-42), ParamValue::Float(2.5f32.to_bits())]
    );
}

#[test]
fn stored_value_of_another_type_falls_back_to_default() {
    let mut settings = Settings::new();
    settings.set(&key("script_to_execute_wh3_remove_fog_strict"), SettingValue::Int(1));
    let script = SQLScript::new(
        "remove_fog",
        "Remove Fog",
        vec![Parameter::new("strict", "Strict", ParamType::Bool, "true")],
        false,
    );
    let panel = build_panel("wh3", &script, &[], &mut settings);
    assert_eq!(panel.param_values, vec![ParamValue::Bool(true)]);
}

#[test]
fn actions_ui_collects_scripts() {
    let mut settings = Settings::new();
    let mut ui = ActionsUI::new();
    let first = ui.new_launch_script_option("wh3", remove_fog(), &[], &mut settings);
    let second = ui.new_launch_script_option("wh3", balance(), &[Preset::new("easy")], &mut settings);
    assert_eq!(first, 0);
    assert_eq!(second, 1);
    assert_eq!(ui.scripts_to_execute.len(), 2);
    assert_eq!(ui.scripts_to_execute[1].0.key, key("balance"));
    assert!(ui.scripts_to_execute[1].1.presets_available);
}
