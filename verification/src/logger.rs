//! The logger module: the messages logged during a transaction, kept once
//! the transaction's logger node is gone.
use vstd::prelude::*;
use crate::substates::TypeInfoSubstate;
use crate::well_known::{logger_package, well_known_node, GLOBAL_PACKAGE_ENTITY};

verus! {

/// The level of a logged message.
#[derive(Clone, Copy, Debug, PartialEq, Eq, Structural)]
pub enum Level {
    Error,
    Warn,
    Info,
    Debug,
    Trace,
}

/// The messages logged, in order.
#[derive(Debug, Clone)]
pub struct LoggerModule(pub Vec<(Level, String)>);

impl Default for LoggerModule {
    fn default() -> (r: Self)
        ensures
            r.0@.len() == 0,
    {
        LoggerModule(Vec::new())
    }
}

impl LoggerModule {
    /// The type information of the logger node that a transaction
    /// creates: an instance, not global, of the logger blueprint.
    pub fn type_info() -> (r: TypeInfoSubstate)
        ensures
            r.package_address@ == well_known_node(GLOBAL_PACKAGE_ENTITY, 5),
            r.blueprint_name@ == "Logger"@,
            !r.global,
    {
        TypeInfoSubstate {
            package_address: logger_package(),
            blueprint_name: "Logger".to_owned(),
            global: false,
        }
    }
}

} // verus!
