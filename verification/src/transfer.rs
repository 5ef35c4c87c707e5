//! Downloading a file.
use crate::job::{ActionView, EventView, JobAction, JobEvent, JobKind, Report, ReportView};
use crate::location::{Location, LocationView};
use crate::net::{status_text, success};
use crate::progress::Progress;
use crate::text::{join, views};
use vstd::prelude::*;

verus! {

/// How far a download has come: what is being done.
#[derive(Clone, Copy, PartialEq, Eq, Structural, Debug)]
pub enum TransferPhase {
    Connect,
    OpenFile,
    Read,
    Write(u64),
    Ended,
}

/// A download into a file, as a part of a larger task.
#[derive(Debug)]
pub struct Transfer {
    pub url: String,
    pub path: Location,
    /// The size that the file should have; 0 where it is not known.
    pub expected_size: u64,
    /// The share of the task, in percent, that is done before the download.
    pub start: u32,
    /// The share of the task, in percent, that is done after the download.
    pub end: u32,
    pub label: String,
    pub downloaded: u64,
    pub phase: TransferPhase,
}

/// What a `Transfer` holds.
#[verifier::ext_equal]
pub struct TransferView {
    pub url: Seq<char>,
    pub path: LocationView,
    pub expected_size: u64,
    pub start: u32,
    pub end: u32,
    pub label: Seq<char>,
    pub downloaded: int,
    pub phase: TransferPhase,
}

impl View for Transfer {
    type V = TransferView;

    open spec fn view(&self) -> TransferView {
        TransferView {
            url: self.url@,
            path: self.path@,
            expected_size: self.expected_size,
            start: self.start,
            end: self.end,
            label: self.label@,
            downloaded: self.downloaded as int,
            phase: self.phase,
        }
    }
}

/// What an event means to a download.
#[derive(Debug)]
pub enum TransferStep {
    /// It goes on; this is to be reported.
    Going(Vec<Report>),
    /// The file is complete.
    Complete,
    /// It has failed, for this reason.
    Failed(String),
}

/// What a `TransferStep` says.
#[verifier::ext_equal]
pub enum TransferStepView {
    Going(Seq<ReportView>),
    Complete,
    Failed(Seq<char>),
}

impl View for TransferStep {
    type V = TransferStepView;

    open spec fn view(&self) -> TransferStepView {
        match *self {
            TransferStep::Going(r) => TransferStepView::Going(views(r@)),
            TransferStep::Complete => TransferStepView::Complete,
            TransferStep::Failed(e) => TransferStepView::Failed(e@),
        }
    }
}

impl TransferView {
    /// What is to be done now.
    pub open spec fn pending(self) -> ActionView {
        match self.phase {
            TransferPhase::Connect => ActionView::Connect(self.url),
            TransferPhase::OpenFile => ActionView::CreateFile(self.path),
            TransferPhase::Read => ActionView::ReadChunk,
            TransferPhase::Write(n) => ActionView::WriteChunk(n),
            TransferPhase::Ended => ActionView::Stop,
        }
    }

    /// The download in another phase.
    pub open spec fn at(self, phase: TransferPhase) -> TransferView {
        TransferView { phase, ..self }
    }

    /// The download after its failure.
    pub open spec fn failed(self, reason: Seq<char>) -> (TransferView, TransferStepView) {
        (self.at(TransferPhase::Ended), TransferStepView::Failed(reason))
    }

    /// What is reported once so many bytes have been downloaded.
    pub open spec fn report(self, downloaded: u64) -> ReportView {
        ReportView::Transferred {
            job: JobKind::AppUpdate,
            progress: if self.expected_size == 0 {
                Progress::Between { start: self.start, end: self.end, done: 1, total: 2 }
            } else {
                Progress::Between {
                    start: self.start,
                    end: self.end,
                    done: downloaded,
                    total: self.expected_size,
                }
            },
            label: self.label,
            done: downloaded,
            total: if self.expected_size == 0 {
                None
            } else {
                Some(self.expected_size)
            },
        }
    }

    /// The download after an event, and what the event means to it. An event
    /// that does not tell what came of the pending action changes nothing.
    pub open spec fn next(self, event: EventView) -> (TransferView, TransferStepView) {
        let same = (self, TransferStepView::Going(seq![]));
        match self.phase {
            TransferPhase::Connect => match event {
                EventView::Answered(code) => if success(code) {
                    (self.at(TransferPhase::OpenFile), TransferStepView::Going(seq![]))
                } else {
                    self.failed("HTTP error: "@ + status_text(code))
                },
                EventView::Failed(e) => self.failed(e),
                _ => same,
            },
            TransferPhase::OpenFile => match event {
                EventView::Done => (
                    self.at(TransferPhase::Read),
                    TransferStepView::Going(seq![]),
                ),
                EventView::Failed(e) => self.failed("Could not create file: "@ + e),
                _ => same,
            },
            TransferPhase::Read => match event {
                EventView::Received(n) => if n > 0 {
                    (self.at(TransferPhase::Write(n)), TransferStepView::Going(seq![]))
                } else if self.expected_size > 0 && self.downloaded < self.expected_size {
                    self.failed("Download was interrupted before completion"@)
                } else {
                    (self.at(TransferPhase::Ended), TransferStepView::Complete)
                },
                EventView::Failed(e) => self.failed("Connection interrupted: "@ + e),
                _ => same,
            },
            TransferPhase::Write(n) => match event {
                EventView::Written(_) => (
                    TransferView {
                        downloaded: self.downloaded + n,
                        phase: TransferPhase::Read,
                        ..self
                    },
                    TransferStepView::Going(seq![self.report((self.downloaded + n) as u64)]),
                ),
                EventView::Failed(e) => self.failed("Write error: "@ + e),
                _ => same,
            },
            TransferPhase::Ended => same,
        }
    }

    /// The number of bytes downloaded can still be counted.
    pub open spec fn countable(self) -> bool {
        match self.phase {
            TransferPhase::Write(n) => self.downloaded + n <= u64::MAX,
            _ => true,
        }
    }
}

/// A download before its first action.
pub open spec fn transfer_begun(
    url: Seq<char>,
    path: LocationView,
    expected_size: u64,
    start: u32,
    end: u32,
    label: Seq<char>,
) -> TransferView {
    TransferView {
        url,
        path,
        expected_size,
        start,
        end,
        label,
        downloaded: 0,
        phase: TransferPhase::Connect,
    }
}

impl Transfer {
    /// A download of what is at `url` into the file `path`.
    pub fn new(
        url: String,
        path: Location,
        expected_size: u64,
        start: u32,
        end: u32,
        label: &str,
    ) -> (r: Transfer)
        ensures
            r@ == transfer_begun(url@, path@, expected_size, start, end, label@),
    {
        Transfer {
            url,
            path,
            expected_size,
            start,
            end,
            label: label.to_owned(),
            downloaded: 0,
            phase: TransferPhase::Connect,
        }
    }

    /// What is to be done now.
    pub fn action(&self) -> (r: JobAction)
        ensures
            r@ == self@.pending(),
    {
        match self.phase {
            TransferPhase::Connect => JobAction::Connect(self.url.clone()),
            TransferPhase::OpenFile => JobAction::CreateFile(self.path.clone()),
            TransferPhase::Read => JobAction::ReadChunk,
            TransferPhase::Write(n) => JobAction::WriteChunk(n),
            TransferPhase::Ended => JobAction::Stop,
        }
    }

    fn fail(&mut self, reason: String) -> (r: TransferStep)
        ensures
            final(self)@ == old(self)@.failed(reason@).0,
            r@ == old(self)@.failed(reason@).1,
    {
        self.phase = TransferPhase::Ended;
        TransferStep::Failed(reason)
    }

    /// Takes in what came of the pending action and tells what it means.
    pub fn step(&mut self, event: JobEvent) -> (r: TransferStep)
        requires
            old(self)@.countable(),
        ensures
            final(self)@ == old(self)@.next(event@).0,
            r@ == old(self)@.next(event@).1,
    {
        let mut reports: Vec<Report> = Vec::new();
        assert(views(reports@) == Seq::<ReportView>::empty());
        match self.phase {
            TransferPhase::Connect => match event {
                JobEvent::Answered(status) => {
                    if status.is_success() {
                        self.phase = TransferPhase::OpenFile;
                    } else {
                        let text: String = status.text();
                        return self.fail(join("HTTP error: ", text.as_str()));
                    }
                },
                JobEvent::Failed(e) => {
                    return self.fail(e);
                },
                _ => {},
            },
            TransferPhase::OpenFile => match event {
                JobEvent::Done => {
                    self.phase = TransferPhase::Read;
                },
                JobEvent::Failed(e) => {
                    return self.fail(join("Could not create file: ", e.as_str()));
                },
                _ => {},
            },
            TransferPhase::Read => match event {
                JobEvent::Received(n) => {
                    if n > 0 {
                        self.phase = TransferPhase::Write(n);
                    } else if self.expected_size > 0 && self.downloaded < self.expected_size {
                        return self.fail("Download was interrupted before completion".to_owned());
                    } else {
                        self.phase = TransferPhase::Ended;
                        return TransferStep::Complete;
                    }
                },
                JobEvent::Failed(e) => {
                    return self.fail(join("Connection interrupted: ", e.as_str()));
                },
                _ => {},
            },
            TransferPhase::Write(n) => match event {
                JobEvent::Written(_) => {
                    self.downloaded = self.downloaded + n;
                    self.phase = TransferPhase::Read;
                    let progress: Progress = if self.expected_size == 0 {
                        Progress::Between { start: self.start, end: self.end, done: 1, total: 2 }
                    } else {
                        Progress::Between {
                            start: self.start,
                            end: self.end,
                            done: self.downloaded,
                            total: self.expected_size,
                        }
                    };
                    let total: Option<u64> = if self.expected_size == 0 {
                        None
                    } else {
                        Some(self.expected_size)
                    };
                    reports.push(
                        Report::Transferred {
                            job: JobKind::AppUpdate,
                            progress,
                            label: self.label.clone(),
                            done: self.downloaded,
                            total,
                        },
                    );
                    assert(views(reports@) == seq![
                        old(self)@.report((old(self)@.downloaded + n) as u64),
                    ]);
                },
                JobEvent::Failed(e) => {
                    return self.fail(join("Write error: ", e.as_str()));
                },
                _ => {},
            },
            TransferPhase::Ended => {},
        }
        TransferStep::Going(reports)
    }
}

/// A download is complete only if it has the size that was expected, where one
/// was.
pub proof fn law_complete_download_is_whole(transfer: TransferView, event: EventView)
    requires
        transfer.next(event).1 is Complete,
    ensures
        transfer.expected_size == 0 || transfer.downloaded >= transfer.expected_size,
{
}

/// In the course of a download the count of bytes does not fall, and grows by
/// what was received when a part has been written.
pub proof fn law_download_count_grows(transfer: TransferView, event: EventView)
    ensures
        transfer.next(event).0.downloaded >= transfer.downloaded,
        transfer.phase matches TransferPhase::Write(n) ==> event is Written
            ==> transfer.next(event).0.downloaded == transfer.downloaded + n,
        !(transfer.phase is Write) ==> transfer.next(event).0.downloaded == transfer.downloaded,
{
}

/// A request that the server refuses ends the download with the server's status,
/// and nothing has been written.
pub proof fn law_refused_download_fails(transfer: TransferView, code: u16)
    requires
        transfer.phase == TransferPhase::Connect,
        !success(code),
    ensures
        transfer.next(EventView::Answered(code)).1 == TransferStepView::Failed(
            "HTTP error: "@ + status_text(code),
        ),
        transfer.next(EventView::Answered(code)).0.pending() is Stop,
{
}

/// Whether a download ends with this reason, and stays ended.
pub open spec fn fails_with(after: (TransferView, TransferStepView), reason: Seq<char>) -> bool {
    &&& after.1 == TransferStepView::Failed(reason)
    &&& after.0.pending() == ActionView::Stop
    &&& forall|event: EventView| #[trigger]
        after.0.next(event) == (after.0, TransferStepView::Going(seq![]))
}

/// A download begins with asking the address that it was given, of which an
/// answer from 200 to 299 is a success; then the file that it was given is made;
/// then parts are awaited. What goes wrong ends it with its reason.
pub proof fn law_download_begins(
    url: Seq<char>,
    path: LocationView,
    size: u64,
    start: u32,
    end: u32,
    label: Seq<char>,
    code: u16,
    e: Seq<char>,
)
    ensures
        ({
            let begun = transfer_begun(url, path, size, start, end, label);
            let going = TransferStepView::Going(seq![]);
            let (answered, meant) = begun.next(EventView::Answered(code));
            let (opened, then) = answered.next(EventView::Done);
            &&& begun.pending() == ActionView::Connect(url)
            &&& fails_with(begun.next(EventView::Failed(e)), e)
            &&& !(200 <= code && code <= 299) ==> fails_with(
                (answered, meant),
                "HTTP error: "@ + status_text(code),
            )
            &&& 200 <= code && code <= 299 ==> {
                &&& meant == going
                &&& answered.pending() == ActionView::CreateFile(path)
                &&& fails_with(answered.next(EventView::Failed(e)), "Could not create file: "@ + e)
                &&& then == going
                &&& opened.phase == TransferPhase::Read
                &&& opened.downloaded == 0
                &&& opened.expected_size == size
                &&& opened.path == path
                &&& opened.start == start && opened.end == end && opened.label == label
            }
        }),
{
}

/// What arrives is written as it arrived: the part of so many bytes, whatever
/// their number; it is added to what has been downloaded, which is told, with
/// the whole where it is known.
pub proof fn law_downloaded_parts_are_written_whole(
    t: TransferView,
    n: u64,
    told: u64,
    e: Seq<char>,
)
    requires
        t.phase == TransferPhase::Read,
        0 <= t.downloaded,
        t.downloaded + n <= u64::MAX,
        n > 0,
    ensures
        t.pending() == ActionView::ReadChunk,
        fails_with(t.next(EventView::Failed(e)), "Connection interrupted: "@ + e),
        ({
            let (got, meant) = t.next(EventView::Received(n));
            let (wrote, then) = got.next(EventView::Written(told));
            let sum = (t.downloaded + n) as u64;
            &&& meant == TransferStepView::Going(seq![])
            &&& got.pending() == ActionView::WriteChunk(n)
            &&& got.downloaded == t.downloaded
            &&& fails_with(got.next(EventView::Failed(e)), "Write error: "@ + e)
            &&& wrote == (TransferView { downloaded: t.downloaded + n, ..t })
            &&& (then matches TransferStepView::Going(reports) && reports.len() == 1 && (
            reports[0] matches ReportView::Transferred { job, progress, label, done, total } && job
                == JobKind::AppUpdate && label == t.label && done == sum && (t.expected_size == 0
                ==> total is None && progress == (Progress::Between {
                start: t.start,
                end: t.end,
                done: 1,
                total: 2,
            })) && (t.expected_size > 0 ==> total == Some(t.expected_size) && progress == (
            Progress::Between {
                start: t.start,
                end: t.end,
                done: sum,
                total: t.expected_size,
            }))))
        }),
{
}

/// The end of what comes: the file is complete if its size is not known or has
/// been reached, and else the download has failed.
pub proof fn law_download_ends(t: TransferView)
    requires
        t.phase == TransferPhase::Read,
    ensures
        t.expected_size == 0 || t.downloaded >= t.expected_size ==> t.next(EventView::Received(0)).1
            == TransferStepView::Complete && t.next(EventView::Received(0)).0.pending()
            == ActionView::Stop && t.next(EventView::Received(0)).0.path == t.path,
        t.expected_size > 0 && t.downloaded < t.expected_size ==> fails_with(
            t.next(EventView::Received(0)),
            "Download was interrupted before completion"@,
        ),
{
}

/// What does not tell what came of the pending action changes nothing.
pub proof fn law_download_ignores_what_it_did_not_ask(t: TransferView, event: EventView)
    ensures
        match t.pending() {
            ActionView::Connect(_) => !(event is Answered) && !(event is Failed),
            ActionView::ReadChunk => !(event is Received) && !(event is Failed),
            ActionView::WriteChunk(_) => !(event is Written) && !(event is Failed),
            ActionView::CreateFile(_) => !(event is Done) && !(event is Failed),
            _ => true,
        } ==> t.next(event) == (t, TransferStepView::Going(seq![])),
{
}

} // verus!
