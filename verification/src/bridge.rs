//! The event-delivery bridge between the server's request-handling flows
//! and the single-threaded UI loop. A flow never touches the window
//! directly: it describes its mutation as a command, the command is
//! scheduled, and the UI loop applies queued commands one at a time in
//! the order they were submitted. Applying a command is pure state
//! change, so it is safe whenever the loop gets around to it.

use vstd::prelude::*;
use crate::session::FileSender;
use crate::session::UploadOutcome;
use crate::upload::UploadError;

verus! {

/// One mutation a server-handling flow asks the UI loop to apply to the
/// session: a text note received from a peer, or the outcome of an
/// upload attempt.
#[derive(Debug, PartialEq)]
pub enum UiCommand {
    SetReceivedNote(String),
    SetUploadOutcome { filename: Option<String>, truncated: bool },
}

/// The session after one command: each command writes exactly the field
/// its sender owns and leaves everything else alone.
pub open spec fn spec_apply(s: FileSender, cmd: UiCommand) -> FileSender {
    match cmd {
        UiCommand::SetReceivedNote(t) => FileSender { upload_text: t, ..s },
        UiCommand::SetUploadOutcome { filename, truncated } => FileSender {
            last_upload: Some(UploadOutcome { filename, truncated }),
            ..s
        },
    }
}

/// The session after a whole queue of commands, applied front to back.
pub open spec fn spec_apply_all(s: FileSender, cmds: Seq<UiCommand>) -> FileSender
    decreases cmds.len(),
{
    if cmds.len() == 0 {
        s
    } else {
        spec_apply_all(spec_apply(s, cmds[0]), cmds.drop_first())
    }
}

/// Applies one scheduled command on the UI loop.
pub fn apply_command(fs: &mut FileSender, cmd: UiCommand)
    ensures
        *final(fs) == spec_apply(*old(fs), cmd),
{
    match cmd {
        UiCommand::SetReceivedNote(t) => {
            fs.set_upload_text(t);
        },
        UiCommand::SetUploadOutcome { filename, truncated } => {
            fs.set_last_upload(filename, truncated);
        },
    }
}

/// Drains a batch of scheduled commands in submission order, front
/// first, as the UI loop does between redraws.
pub fn drain_queue(fs: &mut FileSender, queue: Vec<UiCommand>)
    ensures
        *final(fs) == spec_apply_all(*old(fs), queue@),
{
    let ghost q0 = queue@;
    let mut queue = queue;
    while queue.len() > 0
        invariant
            spec_apply_all(*old(fs), q0) == spec_apply_all(*fs, queue@),
        decreases queue@.len(),
    {
        let ghost qpre = queue@;
        let cmd = queue.remove(0);
        proof {
            assert(queue@ =~= qpre.drop_first());
        }
        apply_command(fs, cmd);
    }
}

/// What the upload flow schedules for the window: the stored name on
/// success, a truncation marker when the size cap cut the body off, and
/// nothing at all when the body carried no file part.
pub fn upload_outcome_command(outcome: Result<String, UploadError>) -> (r: Option<UiCommand>)
    ensures
        outcome matches Ok(name) ==> r == Some(
            (UiCommand::SetUploadOutcome { filename: Some(name), truncated: false }),
        ),
        outcome == Err::<String, UploadError>(UploadError::TooLarge) ==> r == Some(
            (UiCommand::SetUploadOutcome { filename: None, truncated: true }),
        ),
        outcome == Err::<String, UploadError>(UploadError::Missing) ==> r is None,
{
    match outcome {
        Ok(name) => Some(UiCommand::SetUploadOutcome { filename: Some(name), truncated: false }),
        Err(UploadError::TooLarge) => Some(
            UiCommand::SetUploadOutcome { filename: None, truncated: true },
        ),
        Err(UploadError::Missing) => None,
    }
}

} // verus!
