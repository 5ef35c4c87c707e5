//! The background jobs' dealings with the outside: what a job asks to be done,
//! what it is told came of it, and what it reports.
use crate::location::{Location, LocationView};
use crate::message::{AppMsg, MsgView};
use crate::net::HttpStatus;
use crate::progress::Progress;
use crate::text::{join3, views};
use vstd::prelude::*;
use vstd::string::*;

verus! {

/// The kinds of packed files.
#[derive(Clone, Copy, PartialEq, Eq, Structural, Debug)]
pub enum Archive {
    SevenZip,
    Zip,
}

/// What an entry of a folder is.
#[derive(Debug)]
pub enum EntryKind {
    /// A folder of this name.
    Folder(String),
    File,
    Other,
    /// It is there, but what it is could not be read.
    Unreadable,
}

/// What an `EntryKind` tells.
#[verifier::ext_equal]
pub enum KindView {
    Folder(Seq<char>),
    File,
    Other,
    Unreadable,
}

impl View for EntryKind {
    type V = KindView;

    open spec fn view(&self) -> KindView {
        match *self {
            EntryKind::Folder(name) => KindView::Folder(name@),
            EntryKind::File => KindView::File,
            EntryKind::Other => KindView::Other,
            EntryKind::Unreadable => KindView::Unreadable,
        }
    }
}

/// What a job asks to be done next.
#[derive(Debug)]
pub enum JobAction {
    /// Delete a folder and what is in it.
    RemoveDir(Location),
    /// Delete a file.
    RemoveFile(Location),
    /// Make a folder, and those above it.
    CreateDir(Location),
    /// Find out where the running program is and what its file is called.
    LocateProgram,
    /// Write the updater's script into a file.
    WriteScript(Location),
    /// Ask for what is at an address.
    Connect(String),
    /// Make a file for what is to come.
    CreateFile(Location),
    /// Wait for a part of it.
    ReadChunk,
    /// Write the part, of so many bytes, into the file.
    WriteChunk(u64),
    /// Unpack a file into a folder.
    Unpack(Archive, Location, Location),
    /// List the entries of a folder.
    ListDir(Location),
    /// See whether something exists.
    CheckExists(Location),
    /// Move the first to the place of the second.
    Rename(Location, Location),
    /// The job has ended.
    Stop,
}

/// What a `JobAction` asks for.
#[verifier::ext_equal]
pub enum ActionView {
    RemoveDir(LocationView),
    RemoveFile(LocationView),
    CreateDir(LocationView),
    LocateProgram,
    WriteScript(LocationView),
    Connect(Seq<char>),
    CreateFile(LocationView),
    ReadChunk,
    WriteChunk(u64),
    Unpack(Archive, LocationView, LocationView),
    ListDir(LocationView),
    CheckExists(LocationView),
    Rename(LocationView, LocationView),
    Stop,
}

impl View for JobAction {
    type V = ActionView;

    open spec fn view(&self) -> ActionView {
        match *self {
            JobAction::RemoveDir(l) => ActionView::RemoveDir(l@),
            JobAction::RemoveFile(l) => ActionView::RemoveFile(l@),
            JobAction::CreateDir(l) => ActionView::CreateDir(l@),
            JobAction::LocateProgram => ActionView::LocateProgram,
            JobAction::WriteScript(l) => ActionView::WriteScript(l@),
            JobAction::Connect(url) => ActionView::Connect(url@),
            JobAction::CreateFile(l) => ActionView::CreateFile(l@),
            JobAction::ReadChunk => ActionView::ReadChunk,
            JobAction::WriteChunk(n) => ActionView::WriteChunk(n),
            JobAction::Unpack(a, from, into) => ActionView::Unpack(a, from@, into@),
            JobAction::ListDir(l) => ActionView::ListDir(l@),
            JobAction::CheckExists(l) => ActionView::CheckExists(l@),
            JobAction::Rename(from, to) => ActionView::Rename(from@, to@),
            JobAction::Stop => ActionView::Stop,
        }
    }
}

impl ActionView {
    /// Whether the action changes only what lies within `outer`.
    pub open spec fn writes_within(self, outer: LocationView) -> bool {
        match self {
            ActionView::RemoveDir(l) => l.within(outer),
            ActionView::RemoveFile(l) => l.within(outer),
            ActionView::CreateDir(l) => l.within(outer),
            ActionView::WriteScript(l) => l.within(outer),
            ActionView::CreateFile(l) => l.within(outer),
            ActionView::Unpack(_, _, into) => into.within(outer),
            ActionView::Rename(from, to) => from.within(outer) && to.within(outer),
            _ => true,
        }
    }

    /// Whether the action changes `place`, something in it, or a folder around it.
    pub open spec fn disturbs(self, place: LocationView) -> bool {
        match self {
            ActionView::RemoveDir(l) => l.overlaps(place),
            ActionView::RemoveFile(l) => l.overlaps(place),
            ActionView::CreateDir(l) => l.overlaps(place),
            ActionView::WriteScript(l) => l.overlaps(place),
            ActionView::CreateFile(l) => l.overlaps(place),
            ActionView::Unpack(_, _, into) => into.overlaps(place),
            ActionView::Rename(from, to) => from.overlaps(place) || to.overlaps(place),
            _ => false,
        }
    }
}

/// What came of the last action.
#[derive(Debug)]
pub enum JobEvent {
    /// It was done; what was asked for exists.
    Done,
    /// It failed, for this reason; what was asked for does not exist.
    Failed(String),
    /// The program was found: the name of its file.
    Program(String),
    /// The folder of the program was not found.
    NoProgramDir,
    /// The name of the program's file was not found.
    NoProgramName,
    /// The server answered, with this status.
    Answered(HttpStatus),
    /// A part of so many bytes came; 0 at the end.
    Received(u64),
    /// The part was written; so many bytes have been counted.
    Written(u64),
    /// The entries of the folder.
    Entries(Vec<EntryKind>),
}

/// What a `JobEvent` tells.
#[verifier::ext_equal]
pub enum EventView {
    Done,
    Failed(Seq<char>),
    Program(Seq<char>),
    NoProgramDir,
    NoProgramName,
    Answered(u16),
    Received(u64),
    Written(u64),
    Entries(Seq<KindView>),
}

impl View for JobEvent {
    type V = EventView;

    open spec fn view(&self) -> EventView {
        match *self {
            JobEvent::Done => EventView::Done,
            JobEvent::Failed(e) => EventView::Failed(e@),
            JobEvent::Program(n) => EventView::Program(n@),
            JobEvent::NoProgramDir => EventView::NoProgramDir,
            JobEvent::NoProgramName => EventView::NoProgramName,
            JobEvent::Answered(s) => EventView::Answered(s@),
            JobEvent::Received(n) => EventView::Received(n),
            JobEvent::Written(n) => EventView::Written(n),
            JobEvent::Entries(v) => EventView::Entries(views(v@)),
        }
    }
}

/// Which of the two jobs downloads.
#[derive(Clone, Copy, PartialEq, Eq, Structural, Debug)]
pub enum JobKind {
    AppUpdate,
    Install,
}

/// What a job reports.
#[derive(Debug)]
pub enum Report {
    /// A message for the launcher.
    Say(AppMsg),
    /// So much has been downloaded: of so much, where that is known.
    Transferred { job: JobKind, progress: Progress, label: String, done: u64, total: Option<u64> },
}

/// What a `Report` says.
#[verifier::ext_equal]
pub enum ReportView {
    Say(MsgView),
    Transferred {
        job: JobKind,
        progress: Progress,
        label: Seq<char>,
        done: u64,
        total: Option<u64>,
    },
}

impl View for Report {
    type V = ReportView;

    open spec fn view(&self) -> ReportView {
        match *self {
            Report::Say(m) => ReportView::Say(m@),
            Report::Transferred { job, progress, label, done, total } => ReportView::Transferred {
                job,
                progress,
                label: label@,
                done,
                total,
            },
        }
    }
}

impl ReportView {
    /// The message that carries the report, given the two amounts in megabytes
    /// as they are to be shown.
    pub open spec fn message(self, done_mb: Seq<char>, total_mb: Seq<char>) -> MsgView {
        match self {
            ReportView::Say(m) => m,
            ReportView::Transferred { job, progress, label, done, total } => {
                let text = if total is Some {
                    label + ": "@ + done_mb + " MB / "@ + total_mb + " MB"@
                } else {
                    label + ": "@ + done_mb + " MB"@
                };
                match job {
                    JobKind::AppUpdate => MsgView::AppUpdateProgress(progress, text),
                    JobKind::Install => MsgView::DownloadProgress(progress, text),
                }
            },
        }
    }
}

impl Report {
    /// The message that carries the report, given the two amounts in megabytes
    /// as they are to be shown.
    pub fn into_message(self, done_mb: &str, total_mb: &str) -> (r: AppMsg)
        ensures
            r@ == self@.message(done_mb@, total_mb@),
    {
        match self {
            Report::Say(m) => m,
            Report::Transferred { job, progress, label, done, total } => {
                let mut text: String = join3(label.as_str(), ": ", done_mb);
                if total.is_some() {
                    text.append(" MB / ");
                    text.append(total_mb);
                }
                text.append(" MB");
                match job {
                    JobKind::AppUpdate => AppMsg::AppUpdateProgress(progress, text),
                    JobKind::Install => AppMsg::DownloadProgress(progress, text),
                }
            },
        }
    }
}

/// A report reaches the launcher as it is. How much was downloaded is told to the
/// side of the launcher that waits for it, with the share, the label and the
/// amount, and with the whole where it is known.
pub proof fn law_reports_become_messages(
    msg: MsgView,
    progress: Progress,
    label: Seq<char>,
    done: u64,
    whole: u64,
    done_mb: Seq<char>,
    total_mb: Seq<char>,
)
    ensures
        ReportView::Say(msg).message(done_mb, total_mb) == msg,
        (ReportView::Transferred {
            job: JobKind::Install,
            progress,
            label,
            done,
            total: Some(whole),
        }).message(done_mb, total_mb) == MsgView::DownloadProgress(
            progress,
            label + ": "@ + done_mb + " MB / "@ + total_mb + " MB"@,
        ),
        (ReportView::Transferred {
            job: JobKind::AppUpdate,
            progress,
            label,
            done,
            total: Some(whole),
        }).message(done_mb, total_mb) == MsgView::AppUpdateProgress(
            progress,
            label + ": "@ + done_mb + " MB / "@ + total_mb + " MB"@,
        ),
        (ReportView::Transferred {
            job: JobKind::AppUpdate,
            progress,
            label,
            done,
            total: None,
        }).message(done_mb, total_mb) == MsgView::AppUpdateProgress(
            progress,
            label + ": "@ + done_mb + " MB"@,
        ),
        (ReportView::Transferred {
            job: JobKind::Install,
            progress,
            label,
            done,
            total: None,
        }).message(done_mb, total_mb) == MsgView::DownloadProgress(
            progress,
            label + ": "@ + done_mb + " MB"@,
        ),
{
}

} // verus!
