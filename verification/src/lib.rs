//! The logic of the HoYoLAB helper: the task document and its saved scripts,
//! the calls into the Python task modules, the Python dependencies, the
//! start-up state and the updates, each with its contract proved by Verus.
use vstd::prelude::*;

pub mod deps;
pub mod json;
pub mod python;
pub mod startup;
pub mod store;
pub mod text;
pub mod updater;

pub use json::Json;
pub use python::{CheckinArgs, PromoCodeArgs, PyValue};
pub use startup::{get_checkin, get_promo_code, get_task_data, ModulePaths, SideTasks};
pub use store::TaskKind;

verus! {

} // verus!
