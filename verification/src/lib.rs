//! A small declarative task runner: a playbook is an ordered list of tasks,
//! each a module guarded by a condition, run one after another against a
//! shared context until one of them fails.

pub mod ferro;
pub mod lazy;
pub mod modules;
pub mod text;
pub mod value;
pub mod when;
