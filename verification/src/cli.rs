//! The command vocabulary and argument shapes of the tool built on this
//! engine, as plain data. The presentation layer parses command lines into
//! these values; nothing here performs argument parsing itself.

use vstd::prelude::*;

verus! {

pub struct NewArgs {
    pub name: Option<String>,
}

pub struct SplitArgs {
    pub name: Option<String>,
}

pub struct DeleteArgs {
    pub names: Vec<String>,
}

pub struct SyncArgs {
    pub names: Vec<String>,
}

pub struct SaveArgs {
    pub message: Vec<String>,
}

pub struct LoadArgs {
    pub name: String,
}

pub struct StatusArgs {
    pub name: Option<String>,
}

pub struct DiffArgs {
    pub args: Vec<String>,
}

pub struct ConnectArgs {
    pub url: String,
}

pub struct RevertArgs {
    pub args: Vec<String>,
}

pub struct UnsaveArgs {
    pub args: Vec<String>,
}

/// One invocation of the tool.
pub enum Commands {
    Init,
    Connect(ConnectArgs),
    Disconnect,
    New(NewArgs),
    Save(SaveArgs),
    Load(LoadArgs),
    Status(StatusArgs),
    Diff(DiffArgs),
    List,
    Delete(DeleteArgs),
    Log,
    Merge,
    Sync(SyncArgs),
    Squash,
    Prune,
    Split(SplitArgs),
    Ui,
    Unsave(UnsaveArgs),
    Revert(RevertArgs),
}

pub struct Cli {
    pub command: Commands,
    pub verbose: bool,
}

} // verus!
