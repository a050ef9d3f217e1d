use vstd::prelude::*;
use crate::panel::{ScriptPanel, build_panel, built_panel};
use crate::script::{Preset, SQLScript};
use crate::settings::Settings;

verus! {

/// The launch scripts of the actions toolbar: each script with its option panel.
#[derive(Debug)]
pub struct ActionsUI {
    pub scripts_to_execute: Vec<(SQLScript, ScriptPanel)>,
}

impl ActionsUI {
    /// A toolbar with no launch scripts yet.
    pub fn new() -> (r: ActionsUI)
        ensures
            r.scripts_to_execute@.len() == 0,
    {
        ActionsUI { scripts_to_execute: Vec::new() }
    }

    /// Builds the option panel of `script` for the game `game_key`, offering
    /// `presets`, and appends the script with its panel to the scripts to execute.
    /// Returns where the pair stands.
    pub fn new_launch_script_option(
        &mut self,
        game_key: &str,
        script: SQLScript,
        presets: &[Preset],
        settings: &mut Settings,
    ) -> (r: usize)
        requires
            old(settings).wf(),
        ensures
            final(settings).wf(),
            r == old(self).scripts_to_execute@.len(),
            final(self).scripts_to_execute@.len() == old(self).scripts_to_execute@.len() + 1,
            forall|i: int|
                0 <= i < r ==> #[trigger] final(self).scripts_to_execute@[i]
                    == old(self).scripts_to_execute@[i],
            final(self).scripts_to_execute@[r as int].0 == script,
            built_panel(
                final(self).scripts_to_execute@[r as int].1,
                game_key@,
                script,
                presets@,
                *old(settings),
                *final(settings),
            ),
    {
        let panel = build_panel(game_key, &script, presets, settings);
        let r = self.scripts_to_execute.len();
        self.scripts_to_execute.push((script, panel));
        r
    }
}

} // verus!
