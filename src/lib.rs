//! A governed plan executor: plan validation, capability routing, variable
//! substitution, budget accounting, tool policy, evidence admission, and the
//! post-execution policy verdict, all stated and proved with Verus.

pub mod json;
pub mod text;
pub mod number;
pub mod evidence;
pub mod evidence_json;
pub mod plan;
pub mod tools;
pub mod budget;
pub mod trace;
pub mod resolve;
pub mod table;
pub mod context;
pub mod memory;
pub mod scheduler;
pub mod ops;
pub mod policy;
pub mod registry;
pub mod api;
