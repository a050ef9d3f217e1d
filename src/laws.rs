use vstd::prelude::*;
use crate::panel::{
    ParamValue, ScriptPanel, param_init, param_key, params_editable, preset_key, setting_of,
    stored_text, value_after_clear, value_fits,
};
use crate::script::Parameter;
use crate::settings::Settings;

verus! {

/// Enablement rule: wherever a panel's stored preset choice agrees with its
/// selector (as construction and every reaction leave it), working out the
/// parameter controls' enablement from the store, as a toggle does, gives
/// "not (presets available and a preset selected)", for each of the four
/// combinations.
pub proof fn enablement_from_store_follows_rule(panel: ScriptPanel, settings: Settings)
    requires
        panel.consistent(settings),
    ensures
        (!panel.presets_available || stored_text(
            settings.value_at(preset_key(panel.game_key@, panel.script_key@)),
        ).len() == 0) == params_editable(panel.presets_available, panel.preset_selected()),
        panel.params_enabled == params_editable(panel.presets_available, panel.preset_selected()),
{
}

/// Round trip: once the user has set a parameter to `value` and it was stored,
/// a panel built again from that store starts the parameter's control at `value`,
/// for parameters of each type, whatever became of the preset choice.
pub proof fn param_value_round_trip(
    game: Seq<char>,
    script: Seq<char>,
    p: Parameter,
    value: ParamValue,
    settings: Settings,
    cleared: bool,
)
    requires
        value_fits(p.param_type, value),
        p.key@ != "preset"@,
        settings.value_at(param_key(game, script, p.key@)) == Some(setting_of(value)),
    ensures
        param_init(
            p,
            value_after_clear(settings, param_key(game, script, p.key@), cleared, preset_key(game, script)),
        ) == value,
{
    crate::panel::lemma_keys_distinct(game, script, p.key@);
}

} // verus!
