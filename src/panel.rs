use vstd::prelude::*;
use vstd::string::StringExecFns;
use crate::parse::{bool_default, int_default, parse_bool_default, parse_int_default};
use crate::script::{ParamType, Parameter, Preset, SQLScript};
use crate::settings::{SettingValue, SettingView, Settings};

verus! {

/// The value a parameter control shows.
#[derive(Clone, Copy, Debug, PartialEq, Eq, Structural)]
pub enum ParamValue {
    Bool(bool),
    Integer(i32),
    /// A decimal value, as its IEEE-754 single-precision bit pattern.
    Float(u32),
    /// A decimal control that starts from its parameter's default text, read as a
    /// decimal number by the toolkit (zero where the text is no number).
    FloatDefault,
}

/// The setting that records whether a script runs at launch.
pub open spec fn enabled_key(game: Seq<char>, script: Seq<char>) -> Seq<char> {
    "script_to_execute_"@ + game + "_"@ + script
}

/// The setting that records a script's chosen preset.
pub open spec fn preset_key(game: Seq<char>, script: Seq<char>) -> Seq<char> {
    enabled_key(game, script) + "_preset"@
}

/// The setting that records one parameter's value.
pub open spec fn param_key(game: Seq<char>, script: Seq<char>, param: Seq<char>) -> Seq<char> {
    enabled_key(game, script) + "_"@ + param
}

/// The selector entry that stands for "no preset".
pub open spec fn no_preset_text() -> Seq<char> {
    "No Preset"@
}

/// The text a setting holds; empty where it holds none.
pub open spec fn stored_text(v: Option<SettingView>) -> Seq<char> {
    match v {
        Some(SettingView::Text(s)) => s,
        _ => Seq::empty(),
    }
}

/// The flag a setting holds; `false` where it holds none.
pub open spec fn stored_flag(v: Option<SettingView>) -> bool {
    match v {
        Some(SettingView::Bool(b)) => b,
        _ => false,
    }
}

/// The first entry at or after `from` that reads `text`; the first entry where none does.
pub open spec fn entry_index(entries: Seq<Seq<char>>, text: Seq<char>, from: int) -> int
    decreases entries.len() - from,
{
    if from < 0 || from >= entries.len() {
        0
    } else if entries[from] == text {
        from
    } else {
        entry_index(entries, text, from + 1)
    }
}

/// The entry a selector shows once the stored preset choice is applied to it.
pub open spec fn selected_index(entries: Seq<Seq<char>>, stored: Seq<char>) -> int {
    if stored.len() > 0 {
        entry_index(entries, stored, 0)
    } else {
        0
    }
}

/// The preset selector's entries: "No Preset", then each preset's name in order.
pub open spec fn selector_entries(presets: Seq<Preset>) -> Seq<Seq<char>> {
    seq![no_preset_text()] + presets.map_values(|p: Preset| p.name@)
}

/// The value a parameter control starts from: the stored value where one of the
/// parameter's type is stored, else the default text read per type.
pub open spec fn param_init(p: Parameter, stored: Option<SettingView>) -> ParamValue {
    match p.param_type {
        ParamType::Bool => match stored {
            Some(SettingView::Bool(b)) => ParamValue::Bool(b),
            _ => ParamValue::Bool(bool_default(p.default_value@)),
        },
        ParamType::Integer => match stored {
            Some(SettingView::Int(i)) => ParamValue::Integer(i),
            _ => ParamValue::Integer(int_default(p.default_value@) as i32),
        },
        ParamType::Float => match stored {
            Some(SettingView::Float(f)) => ParamValue::Float(f),
            _ => ParamValue::FloatDefault,
        },
    }
}

/// A value that a control of type `t` can be set to by the user.
pub open spec fn value_fits(t: ParamType, v: ParamValue) -> bool {
    match v {
        ParamValue::Bool(_) => t == ParamType::Bool,
        ParamValue::Integer(_) => t == ParamType::Integer,
        ParamValue::Float(_) => t == ParamType::Float,
        ParamValue::FloatDefault => false,
    }
}

/// The setting that records a value set by the user.
pub open spec fn setting_of(v: ParamValue) -> SettingView {
    match v {
        ParamValue::Bool(b) => SettingView::Bool(b),
        ParamValue::Integer(i) => SettingView::Int(i),
        ParamValue::Float(f) => SettingView::Float(f),
        ParamValue::FloatDefault => SettingView::Float(0),
    }
}

/// The parameter controls may be edited unless presets are offered and one is chosen.
pub open spec fn params_editable(presets_available: bool, preset_selected: bool) -> bool {
    !(presets_available && preset_selected)
}

/// The state of one script's option panel.
#[derive(Debug)]
pub struct ScriptPanel {
    pub game_key: String,
    pub script_key: String,
    /// The keys of the script's parameters, in declaration order.
    pub param_keys: Vec<String>,
    pub param_types: Vec<ParamType>,
    /// A preset selector exists: the script has parameters.
    pub has_preset_selector: bool,
    /// The selector is shown: it exists and presets were supplied.
    pub preset_selector_shown: bool,
    pub presets_available: bool,
    pub preset_entries: Vec<String>,
    pub preset_index: usize,
    pub preset_selector_enabled: bool,
    pub params_enabled: bool,
    pub param_values: Vec<ParamValue>,
    /// The master toggle: the script runs at launch.
    pub toggle_checked: bool,
    /// Every element of the panel is hidden.
    pub hidden: bool,
}

impl ScriptPanel {
    pub open spec fn entries_view(&self) -> Seq<Seq<char>> {
        self.preset_entries@.map_values(|s: String| s@)
    }

    pub open spec fn wf(&self) -> bool {
        &&& self.param_types@.len() == self.param_keys@.len()
        &&& self.param_values@.len() == self.param_keys@.len()
        &&& self.has_preset_selector == (self.preset_entries@.len() > 0)
        &&& self.presets_available ==> self.has_preset_selector
        &&& (self.has_preset_selector ==> self.preset_index < self.preset_entries@.len())
        &&& (!self.has_preset_selector ==> self.preset_index == 0)
    }

    /// A preset other than "No Preset" is chosen.
    pub open spec fn preset_selected(&self) -> bool {
        self.preset_index != 0
    }

    /// The parameter controls' enablement follows the rule, and the stored preset
    /// choice agrees with the selector.
    pub open spec fn consistent(&self, settings: Settings) -> bool {
        &&& self.params_enabled == params_editable(self.presets_available, self.preset_selected())
        &&& self.presets_available ==> (stored_text(
            settings.value_at(preset_key(self.game_key@, self.script_key@)),
        ).len() > 0 <==> self.preset_selected())
    }
}

fn enabled_setting_key(game: &str, script: &str) -> (r: String)
    ensures
        r@ == enabled_key(game@, script@),
{
    let mut k = "script_to_execute_".to_owned();
    k.append(game);
    k.append("_");
    k.append(script);
    k
}

fn preset_setting_key(game: &str, script: &str) -> (r: String)
    ensures
        r@ == preset_key(game@, script@),
{
    let mut k = enabled_setting_key(game, script);
    k.append("_preset");
    k
}

fn param_setting_key(game: &str, script: &str, param: &str) -> (r: String)
    ensures
        r@ == param_key(game@, script@, param@),
{
    let mut k = enabled_setting_key(game, script);
    k.append("_");
    k.append(param);
    k
}

pub(crate) proof fn lemma_keys_distinct(game: Seq<char>, script: Seq<char>, param: Seq<char>)
    ensures
        enabled_key(game, script) != preset_key(game, script),
        enabled_key(game, script) != param_key(game, script, param),
        param != "preset"@ ==> param_key(game, script, param) != preset_key(game, script),
{
    reveal_strlit("_preset");
    reveal_strlit("_");
    reveal_strlit("preset");
    let e = enabled_key(game, script);
    assert(preset_key(game, script).len() == e.len() + 7);
    assert(param_key(game, script, param).len() == e.len() + 1 + param.len());
    if param_key(game, script, param) == preset_key(game, script) {
        let a = param_key(game, script, param);
        let b = preset_key(game, script);
        assert(a.subrange(e.len() as int + 1, a.len() as int) =~= param);
        assert(b.subrange(e.len() as int + 1, b.len() as int) =~= "preset"@);
    }
}

/// The index of the first entry that reads `text`, or `0` where none does.
fn find_entry(entries: &Vec<String>, text: &String) -> (r: usize)
    ensures
        r as int == entry_index(entries@.map_values(|s: String| s@), text@, 0),
        entries@.len() > 0 ==> r < entries@.len(),
{
    let ghost ev = entries@.map_values(|s: String| s@);
    let mut i: usize = 0;
    while i < entries.len()
        invariant
            i <= entries@.len(),
            ev == entries@.map_values(|s: String| s@),
            entry_index(ev, text@, 0) == entry_index(ev, text@, i as int),
        decreases entries@.len() - i,
    {
        assert(ev[i as int] == entries@[i as int]@);
        if entries[i].eq(text) {
            return i;
        }
        i = i + 1;
    }
    0
}

/// The starting value of one parameter control.
fn init_value(p: &Parameter, stored: Option<SettingValue>) -> (r: ParamValue)
    ensures
        r == param_init(*p, match stored {
            Some(v) => Some(v@),
            None => None,
        }),
{
    match p.param_type {
        ParamType::Bool => match stored {
            Some(SettingValue::Bool(b)) => ParamValue::Bool(b),
            _ => ParamValue::Bool(parse_bool_default(p.default_value.as_str())),
        },
        ParamType::Integer => match stored {
            Some(SettingValue::Int(i)) => ParamValue::Integer(i),
            _ => ParamValue::Integer(parse_int_default(p.default_value.as_str())),
        },
        ParamType::Float => match stored {
            Some(SettingValue::Float(f)) => ParamValue::Float(f),
            _ => ParamValue::FloatDefault,
        },
    }
}

/// The value the store holds under `key` once the preset choice has been cleared,
/// where `cleared`, at `cleared_key`.
pub open spec fn value_after_clear(
    settings: Settings,
    key: Seq<char>,
    cleared: bool,
    cleared_key: Seq<char>,
) -> Option<SettingView> {
    if cleared && key == cleared_key {
        Some(SettingView::Text(Seq::empty()))
    } else {
        settings.value_at(key)
    }
}

/// `r` is the panel built for `script` of the game `game`, offering `presets`, from
/// the store `before`, which it leaves as `after`.
pub open spec fn built_panel(
    r: ScriptPanel,
    game: Seq<char>,
    script: SQLScript,
    presets: Seq<Preset>,
    before: Settings,
    after: Settings,
) -> bool {
    &&& r.wf()
    &&& r.consistent(after)
    &&& r.game_key@ == game
    &&& r.script_key@ == script.key@
    &&& r.param_keys@.map_values(|k: String| k@) == script.parameters@.map_values(|p: Parameter| p.key@)
    &&& r.param_types@ == script.parameters@.map_values(|p: Parameter| p.param_type)
    // A selector exists exactly when the script has parameters, and is shown
    // exactly when presets are offered too.
    &&& r.has_preset_selector == (script.parameters@.len() > 0)
    &&& r.presets_available == (script.parameters@.len() > 0 && presets.len() > 0)
    &&& r.preset_selector_shown == r.presets_available
    &&& (r.has_preset_selector ==> r.entries_view() == selector_entries(presets))
    &&& (r.preset_index == (if r.presets_available {
            selected_index(
                selector_entries(presets),
                stored_text(before.value_at(preset_key(game, script.key@))),
            )
        } else {
            0
        })
    )
    &&& r.params_enabled == params_editable(r.presets_available, r.preset_selected())
    &&& (forall|i: int|
            0 <= i < script.parameters@.len() ==> r.param_values@[i] == param_init(
                script.parameters@[i],
                value_after_clear(
                    before,
                    param_key(game, script.key@, script.parameters@[i].key@),
                    r.presets_available && !r.preset_selected(),
                    preset_key(game, script.key@),
                ),
            )
    )
    &&& (r.toggle_checked == (stored_flag(before.value_at(enabled_key(game, script.key@)))
            || script.automatic)
    )
    &&& r.preset_selector_enabled == r.toggle_checked
    &&& r.hidden == script.automatic
    &&& (forall|k: Seq<char>|
            #[trigger] after.value_at(k) == if k == enabled_key(game, script.key@)
                && r.toggle_checked {
                Some(SettingView::Bool(true))
            } else {
                value_after_clear(
                    before,
                    k,
                    r.presets_available && !r.preset_selected(),
                    preset_key(game, script.key@),
                )
            }
    )
}

/// Builds the option panel of `script` for the game `game_key`, offering `presets`,
/// from what `settings` holds.
///
/// The selector's stored choice is cleared when it names no preset, and a panel
/// whose toggle starts checked records that it is enabled.
pub fn build_panel(game_key: &str, script: &SQLScript, presets: &[Preset], settings: &mut Settings) -> (r: ScriptPanel)
    requires
        old(settings).wf(),
    ensures
        final(settings).wf(),
        built_panel(r, game_key@, *script, presets@, *old(settings), *final(settings)),
        script.parameters@.len() == 0 ==> !r.has_preset_selector && r.param_values@.len() == 0,
        script.parameters@.len() > 0 && presets@.len() == 0 ==> r.has_preset_selector
            && !r.preset_selector_shown && r.params_enabled,
        script.automatic ==> r.hidden && r.toggle_checked,
{
    let ghost s0 = *settings;
    let key_enabled = enabled_setting_key(game_key, script.key.as_str());
    let key_preset = preset_setting_key(game_key, script.key.as_str());
    proof {
        lemma_keys_distinct(game_key@, script.key@, Seq::empty());
    }
    let n_params = script.parameters.len();
    let has_selector = n_params > 0;
    let available = has_selector && presets.len() > 0;
    let mut entries: Vec<String> = Vec::new();
    let mut index: usize = 0;
    let ghost wanted = selector_entries(presets@);
    if has_selector {
        entries.push("No Preset".to_owned());
        let mut j: usize = 0;
        while j < presets.len()
            invariant
                j <= presets@.len(),
                wanted == selector_entries(presets@),
                entries@.len() == j + 1,
                forall|q: int| 0 <= q <= j ==> #[trigger] entries@[q]@ == wanted[q],
            decreases presets@.len() - j,
        {
            entries.push(presets[j].name.clone());
            j = j + 1;
        }
        assert(entries@.map_values(|s: String| s@) =~= wanted);
        if available {
            let stored = settings.get(&key_preset);
            match stored {
                Some(SettingValue::Text(t)) => {
                    if !t.as_str().is_empty() {
                        index = find_entry(&entries, &t);
                    }
                },
                _ => {},
            }
            if index == 0 {
                settings.set(&key_preset, SettingValue::Text(String::new()));
            }
        }
    }
    let ghost s1 = *settings;
    let ghost cleared = available && index == 0;
    assert(forall|k: Seq<char>| #[trigger] s1.value_at(k) == value_after_clear(s0, k, cleared, key_preset@));
    let mut keys: Vec<String> = Vec::new();
    let mut types: Vec<ParamType> = Vec::new();
    let mut values: Vec<ParamValue> = Vec::new();
    let mut i: usize = 0;
    while i < n_params
        invariant
            i <= n_params,
            n_params == script.parameters@.len(),
            *settings == s1,
            s1.wf(),
            keys@.len() == i,
            types@.len() == i,
            values@.len() == i,
            forall|q: int| 0 <= q < i ==> #[trigger] keys@[q]@ == script.parameters@[q].key@,
            forall|q: int| 0 <= q < i ==> #[trigger] types@[q] == script.parameters@[q].param_type,
            forall|q: int|
                0 <= q < i ==> #[trigger] values@[q] == param_init(
                    script.parameters@[q],
                    value_after_clear(
                        s0,
                        param_key(game_key@, script.key@, script.parameters@[q].key@),
                        cleared,
                        key_preset@,
                    ),
                ),
            forall|k: Seq<char>| #[trigger] s1.value_at(k) == value_after_clear(s0, k, cleared, key_preset@),
        decreases n_params - i,
    {
        let p = &script.parameters[i];
        let k = param_setting_key(game_key, script.key.as_str(), p.key.as_str());
        let stored = settings.get(&k);
        let v = init_value(p, stored);
        keys.push(p.key.clone());
        types.push(p.param_type);
        values.push(v);
        i = i + 1;
    }
    proof {
        assert(keys@.map_values(|k: String| k@) =~= script.parameters@.map_values(|p: Parameter| p.key@));
        assert(types@ =~= script.parameters@.map_values(|p: Parameter| p.param_type));
    }
    let persisted = match settings.get(&key_enabled) {
        Some(SettingValue::Bool(b)) => b,
        _ => false,
    };
    let checked = persisted || script.automatic;
    if checked {
        settings.set(&key_enabled, SettingValue::Bool(true));
    }
    let selected = index != 0;
    ScriptPanel {
        game_key: game_key.to_owned(),
        script_key: script.key.clone(),
        param_keys: keys,
        param_types: types,
        has_preset_selector: has_selector,
        preset_selector_shown: available,
        presets_available: available,
        preset_entries: entries,
        preset_index: index,
        preset_selector_enabled: checked,
        params_enabled: !(available && selected),
        param_values: values,
        toggle_checked: checked,
        hidden: script.automatic,
    }
}

impl ScriptPanel {
    /// The user switches the master toggle to `state`: the preset selector follows
    /// it, the parameter controls' enablement is worked out anew from the stored
    /// preset choice, and the toggle's state is stored.
    pub fn toggle(&mut self, state: bool, settings: &mut Settings)
        requires
            old(self).wf(),
            old(settings).wf(),
        ensures
            final(settings).wf(),
            final(self).wf(),
            final(self).toggle_checked == state,
            final(self).preset_selector_enabled == state,
            final(self).params_enabled == (!old(self).presets_available || stored_text(
                old(settings).value_at(preset_key(old(self).game_key@, old(self).script_key@)),
            ).len() == 0),
            forall|k: Seq<char>|
                #[trigger] final(settings).value_at(k) == if k == enabled_key(
                    old(self).game_key@,
                    old(self).script_key@,
                ) {
                    Some(SettingView::Bool(state))
                } else {
                    old(settings).value_at(k)
                },
            final(self).game_key == old(self).game_key,
            final(self).script_key == old(self).script_key,
            final(self).param_keys == old(self).param_keys,
            final(self).param_types == old(self).param_types,
            final(self).param_values == old(self).param_values,
            final(self).has_preset_selector == old(self).has_preset_selector,
            final(self).preset_selector_shown == old(self).preset_selector_shown,
            final(self).presets_available == old(self).presets_available,
            final(self).preset_entries == old(self).preset_entries,
            final(self).preset_index == old(self).preset_index,
            final(self).hidden == old(self).hidden,
            old(self).consistent(*old(settings)) ==> final(self).consistent(*final(settings)),
    {
        proof {
            lemma_keys_distinct(self.game_key@, self.script_key@, Seq::empty());
        }
        self.preset_selector_enabled = state;
        let key_preset = preset_setting_key(self.game_key.as_str(), self.script_key.as_str());
        let no_choice = match settings.get(&key_preset) {
            Some(SettingValue::Text(t)) => t.as_str().is_empty(),
            _ => true,
        };
        self.params_enabled = !self.presets_available || no_choice;
        let key_enabled = enabled_setting_key(self.game_key.as_str(), self.script_key.as_str());
        settings.set(&key_enabled, SettingValue::Bool(state));
        self.toggle_checked = state;
    }

    /// The user picks entry `index` of the preset selector: the parameter controls
    /// may be edited exactly when it is "No Preset", and the choice is stored (the
    /// preset's name, or empty text for "No Preset").
    pub fn select_preset(&mut self, index: usize, settings: &mut Settings)
        requires
            old(self).wf(),
            old(settings).wf(),
            old(self).presets_available,
            index < old(self).preset_entries@.len(),
        ensures
            final(settings).wf(),
            final(self).wf(),
            final(self).preset_index == index,
            final(self).params_enabled == (index == 0),
            forall|k: Seq<char>|
                #[trigger] final(settings).value_at(k) == if k == preset_key(
                    old(self).game_key@,
                    old(self).script_key@,
                ) {
                    Some(
                        SettingView::Text(
                            if index == 0 {
                                Seq::empty()
                            } else {
                                old(self).entries_view()[index as int]
                            },
                        ),
                    )
                } else {
                    old(settings).value_at(k)
                },
            final(self).game_key == old(self).game_key,
            final(self).script_key == old(self).script_key,
            final(self).param_keys == old(self).param_keys,
            final(self).param_types == old(self).param_types,
            final(self).param_values == old(self).param_values,
            final(self).has_preset_selector == old(self).has_preset_selector,
            final(self).preset_selector_shown == old(self).preset_selector_shown,
            final(self).presets_available == old(self).presets_available,
            final(self).preset_entries == old(self).preset_entries,
            final(self).preset_selector_enabled == old(self).preset_selector_enabled,
            final(self).toggle_checked == old(self).toggle_checked,
            final(self).hidden == old(self).hidden,
            index == 0 || old(self).entries_view()[index as int].len() > 0 ==> final(self).consistent(
                *final(settings),
            ),
    {
        self.params_enabled = index == 0;
        let text = if index == 0 {
            String::new()
        } else {
            self.preset_entries[index].clone()
        };
        let key_preset = preset_setting_key(self.game_key.as_str(), self.script_key.as_str());
        settings.set(&key_preset, SettingValue::Text(text));
        self.preset_index = index;
    }

    /// The user sets parameter `param` to `value`; the value is stored at once.
    pub fn set_param_value(&mut self, param: usize, value: ParamValue, settings: &mut Settings)
        requires
            old(self).wf(),
            old(settings).wf(),
            param < old(self).param_keys@.len(),
            value_fits(old(self).param_types@[param as int], value),
        ensures
            final(settings).wf(),
            final(self).wf(),
            final(self).param_values@ == old(self).param_values@.update(param as int, value),
            forall|k: Seq<char>|
                #[trigger] final(settings).value_at(k) == if k == param_key(
                    old(self).game_key@,
                    old(self).script_key@,
                    old(self).param_keys@[param as int]@,
                ) {
                    Some(setting_of(value))
                } else {
                    old(settings).value_at(k)
                },
            final(self).game_key == old(self).game_key,
            final(self).script_key == old(self).script_key,
            final(self).param_keys == old(self).param_keys,
            final(self).param_types == old(self).param_types,
            final(self).has_preset_selector == old(self).has_preset_selector,
            final(self).preset_selector_shown == old(self).preset_selector_shown,
            final(self).presets_available == old(self).presets_available,
            final(self).preset_entries == old(self).preset_entries,
            final(self).preset_index == old(self).preset_index,
            final(self).preset_selector_enabled == old(self).preset_selector_enabled,
            final(self).params_enabled == old(self).params_enabled,
            final(self).toggle_checked == old(self).toggle_checked,
            final(self).hidden == old(self).hidden,
            old(self).consistent(*old(settings)) && old(self).param_keys@[param as int]@ != "preset"@
                ==> final(self).consistent(*final(settings)),
    {
        let key = param_setting_key(
            self.game_key.as_str(),
            self.script_key.as_str(),
            self.param_keys[param].as_str(),
        );
        proof {
            lemma_keys_distinct(self.game_key@, self.script_key@, self.param_keys@[param as int]@);
        }
        let stored = match value {
            ParamValue::Bool(b) => SettingValue::Bool(b),
            ParamValue::Integer(i) => SettingValue::Int(i),
            ParamValue::Float(f) => SettingValue::Float(f),
            ParamValue::FloatDefault => SettingValue::Float(0),
        };
        settings.set(&key, stored);
        self.param_values.set(param, value);
    }
}

} // verus!
