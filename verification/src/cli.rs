//! The command surface as plain data. Reading these values from the
//! process arguments is the shell's concern; the tracker only consumes
//! them.

use vstd::prelude::*;

verus! {

/// One invocation of the tracker.
#[derive(Debug)]
pub struct Cli {
    pub command: Command,
}

/// The operations a caller can ask for, with their raw textual inputs.
#[derive(Debug)]
pub enum Command {
    Create {
        name: String,
        time: u32,
        due_date: String,
        priority: Option<String>,
        chunk_size: Option<u32>,
    },
    List {
        all: bool,
    },
    Start {
        id: String,
    },
    Stop {
        id: String,
    },
    Complete {
        id: String,
    },
    Edit {
        id: String,
        name: Option<String>,
        time: Option<u32>,
        due_date: Option<String>,
        status: Option<String>,
        priority: Option<String>,
        chunk_size: Option<u32>,
    },
}

} // verus!
