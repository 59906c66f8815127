//! Forwards events between the filesystem side and the interface side.
use vstd::prelude::*;

use crate::explorer::ExplorerCommand;
use crate::fs::{FsCommand, FsEvent};

verus! {

/// A request from the interface to change the current directory.
#[derive(Clone, Debug)]
pub struct DirectoryChangeRequest(pub String);

/// Sent once the current directory has changed.
#[derive(Clone, Copy, Debug, Default)]
pub struct CurrentDirectoryChanged;

/// What one pass of the bridge sends on.
#[derive(Debug)]
pub struct BridgeOutput {
    pub fs_commands: Vec<FsCommand>,
    pub directory_changed: bool,
    pub preview: Option<ExplorerCommand>,
}

pub open spec fn any_directory_changed(events: Seq<FsEvent>) -> bool {
    exists|i: int| 0 <= i < events.len() && events[i] is DirectoryChanged
}

/// The path of the last `NotADirectory` event, or none.
pub open spec fn last_not_a_directory(events: Seq<FsEvent>) -> Option<Seq<char>>
    decreases events.len(),
{
    if events.len() == 0 {
        None
    } else {
        match events.last() {
            FsEvent::NotADirectory(p) => Some(p@),
            _ => last_not_a_directory(events.drop_last()),
        }
    }
}

/// Whether any event says that the directory changed: then one
/// `CurrentDirectoryChanged` is sent.
pub fn forward_directory_changed(events: &Vec<FsEvent>) -> (r: bool)
    ensures
        r == any_directory_changed(events@),
{
    let mut i: usize = 0;
    while i < events.len()
        invariant
            i <= events@.len(),
            forall|j: int| 0 <= j < i ==> !(events@[j] is DirectoryChanged),
        decreases events@.len() - i,
    {
        if let FsEvent::DirectoryChanged(_) = &events[i] {
            return true;
        }
        i = i + 1;
    }
    false
}

/// The last path that turned out to be no directory is shown as preview.
pub fn forward_not_a_directory(events: &Vec<FsEvent>) -> (r: Option<ExplorerCommand>)
    ensures
        match last_not_a_directory(events@) {
            Some(p) => r matches Some(ExplorerCommand::SetPreview(Some(q))) && q@ == p,
            None => r is None,
        },
{
    let mut k: usize = events.len();
    assert(events@.subrange(0, k as int) =~= events@);
    while k > 0
        invariant
            k <= events@.len(),
            last_not_a_directory(events@) == last_not_a_directory(events@.subrange(0, k as int)),
        decreases k,
    {
        assert(events@.subrange(0, k as int).drop_last() =~= events@.subrange(0, k - 1));
        if let FsEvent::NotADirectory(p) = &events[k - 1] {
            return Some(ExplorerCommand::SetPreview(Some(p.clone())));
        }
        k = k - 1;
    }
    assert(events@.subrange(0, 0) =~= Seq::<FsEvent>::empty());
    None
}

pub open spec fn change_command_for(r: DirectoryChangeRequest, c: FsCommand) -> bool {
    match c {
        FsCommand::ChangeDirectory(p) => p@ == r.0@,
    }
}

/// Each request becomes a command to change the directory, in order.
pub fn forward_directory_change_request(requests: &Vec<DirectoryChangeRequest>) -> (r: Vec<FsCommand>)
    ensures
        r@.len() == requests@.len(),
        forall|i: int| 0 <= i < r@.len() ==> change_command_for(requests@[i], #[trigger] r@[i]),
{
    let mut out: Vec<FsCommand> = Vec::new();
    let mut i: usize = 0;
    while i < requests.len()
        invariant
            i <= requests@.len(),
            out@.len() == i,
            forall|j: int| 0 <= j < i ==> change_command_for(requests@[j], #[trigger] out@[j]),
        decreases requests@.len() - i,
    {
        out.push(FsCommand::ChangeDirectory(requests[i].0.clone()));
        i = i + 1;
    }
    out
}

/// One pass of the bridge over the events that arrived since the last.
pub fn bridge_plugin(events: &Vec<FsEvent>, requests: &Vec<DirectoryChangeRequest>) -> (r:
    BridgeOutput)
    ensures
        r.fs_commands@.len() == requests@.len(),
        forall|i: int|
            0 <= i < r.fs_commands@.len() ==> change_command_for(
                requests@[i],
                #[trigger] r.fs_commands@[i],
            ),
        r.directory_changed == any_directory_changed(events@),
        match last_not_a_directory(events@) {
            Some(p) => r.preview matches Some(ExplorerCommand::SetPreview(Some(q))) && q@ == p,
            None => r.preview is None,
        },
{
    BridgeOutput {
        fs_commands: forward_directory_change_request(requests),
        directory_changed: forward_directory_changed(events),
        preview: forward_not_a_directory(events),
    }
}

} // verus!
