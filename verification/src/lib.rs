//! A personal task tracker: tasks with durations, due dates, priorities and a
//! status machine, kept in a deterministic display order.
//!
//! The core is the task lifecycle (start/stop time accounting), the merge
//! logic for sparse edits, the scheduler that orders a collection for
//! display, and the prefix locator. Every function here carries a contract
//! checked by Verus; the calls into outside crates (the clock, identifier
//! generation, date and case-folding text handling) stand behind the small
//! trusted boundary in [`trusted`].

pub mod cli;
pub mod create;
pub mod date;
pub mod display;
pub mod edit;
pub mod error;
pub mod locate;
pub mod schedule;
pub mod task;
pub mod text;
pub mod trusted;
pub mod util;

pub use cli::{Cli, Command};
pub use create::{add_task, create_task};
pub use date::Date;
pub use display::filter_out_completed_tasks;
pub use edit::{edit_task, update_status, update_task_in_list};
pub use error::Error;
pub use locate::get_task;
pub use schedule::schedule_tasks;
pub use task::{chunks_remaining, parse_priority};
pub use task::{Interval, Priority, Status, Task, TaskEditPayload};
pub use util::W;
