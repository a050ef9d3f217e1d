use vstd::prelude::*;

verus! {

/// How a script parameter's value is read and edited.
#[derive(Clone, Copy, Debug, PartialEq, Eq, Structural)]
pub enum ParamType {
    Bool,
    Integer,
    Float,
}

/// One parameter of a launch script.
#[derive(Debug)]
pub struct Parameter {
    /// Unique within its script; names the parameter's setting.
    pub key: String,
    pub name: String,
    pub param_type: ParamType,
    /// The starting value, written as text.
    pub default_value: String,
}

/// A named bundle of parameter values that can be picked instead of editing
/// the parameters one by one.
#[derive(Debug)]
pub struct Preset {
    pub name: String,
}

/// A script that may run before the game starts.
#[derive(Debug)]
pub struct SQLScript {
    pub key: String,
    pub name: String,
    pub parameters: Vec<Parameter>,
    /// An automatic script runs on every launch and cannot be switched off.
    pub automatic: bool,
}

impl Parameter {
    pub fn new(key: &str, name: &str, param_type: ParamType, default_value: &str) -> (r: Parameter)
        ensures
            r.key@ == key@,
            r.name@ == name@,
            r.param_type == param_type,
            r.default_value@ == default_value@,
    {
        Parameter {
            key: key.to_owned(),
            name: name.to_owned(),
            param_type,
            default_value: default_value.to_owned(),
        }
    }
}

impl Preset {
    pub fn new(name: &str) -> (r: Preset)
        ensures
            r.name@ == name@,
    {
        Preset { name: name.to_owned() }
    }
}

impl SQLScript {
    pub fn new(key: &str, name: &str, parameters: Vec<Parameter>, automatic: bool) -> (r: SQLScript)
        ensures
            r.key@ == key@,
            r.name@ == name@,
            r.parameters@ == parameters@,
            r.automatic == automatic,
    {
        SQLScript { key: key.to_owned(), name: name.to_owned(), parameters, automatic }
    }
}

} // verus!
