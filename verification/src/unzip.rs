//! Unpacking a zip file, entry by entry.
use crate::text::{chars_of, join};
use vstd::prelude::*;

verus! {

/// What is being done.
#[derive(Clone, Copy, PartialEq, Eq, Structural, Debug)]
pub enum UnzipPhase {
    /// The file is opened.
    Open,
    /// An entry is looked up.
    Entry,
    /// The folder of an entry is made.
    MakeDir,
    /// The file of an entry is made, and the folder that it lies in.
    MakeFile,
    /// The content of an entry is copied into its file.
    Copy,
    /// Nothing more.
    Ended,
}

/// The unpacking of a zip file.
#[derive(Debug)]
pub struct Unzip {
    /// The number of entries, once the file is open.
    pub count: usize,
    /// The entry being unpacked.
    pub index: usize,
    pub phase: UnzipPhase,
}

/// What came of the last action.
#[derive(Debug)]
pub enum UnzipEvent {
    /// The file is open and has so many entries.
    Opened(usize),
    /// The entry has this name; whether it stays within the folder it is
    /// unpacked into.
    Found { enclosed: bool, name: String },
    Done,
    Failed(String),
}

/// What an `UnzipEvent` tells.
#[verifier::ext_equal]
pub enum UnzipEventView {
    Opened(usize),
    Found { enclosed: bool, name: Seq<char> },
    Done,
    Failed(Seq<char>),
}

impl View for UnzipEvent {
    type V = UnzipEventView;

    open spec fn view(&self) -> UnzipEventView {
        match *self {
            UnzipEvent::Opened(n) => UnzipEventView::Opened(n),
            UnzipEvent::Found { enclosed, name } => UnzipEventView::Found { enclosed, name: name@ },
            UnzipEvent::Done => UnzipEventView::Done,
            UnzipEvent::Failed(e) => UnzipEventView::Failed(e@),
        }
    }
}

/// Whether the name of an entry is that of a folder: it ends with a separator.
pub open spec fn names_folder(name: Seq<char>) -> bool {
    name.len() > 0 && (name.last() == '/' || name.last() == '\\')
}

/// Whether the name of an entry is that of a folder.
pub fn is_folder_name(name: &str) -> (r: bool)
    ensures
        r == names_folder(name@),
{
    let chars: Vec<char> = chars_of(name);
    let n: usize = chars.len();
    n > 0 && (chars[n - 1] == '/' || chars[n - 1] == '\\')
}

impl Unzip {
    /// The unpacking before its first action.
    pub open spec fn begun() -> Unzip {
        Unzip { count: 0, index: 0, phase: UnzipPhase::Open }
    }

    /// The unpacking in another phase.
    pub open spec fn at(self, phase: UnzipPhase) -> Unzip {
        Unzip { phase, ..self }
    }

    /// The unpacking at the next entry, or at its end.
    pub open spec fn advanced(self) -> Unzip {
        if self.index + 1 < self.count {
            Unzip { index: (self.index + 1) as usize, phase: UnzipPhase::Entry, ..self }
        } else {
            self.at(UnzipPhase::Ended)
        }
    }

    /// The unpacking after its failure.
    pub open spec fn failed(self, reason: Seq<char>) -> (Unzip, Option<Seq<char>>) {
        (self.at(UnzipPhase::Ended), Some(reason))
    }

    /// The unpacking after an event, and the reason where it has failed. An
    /// event that does not tell what came of the last action changes nothing.
    pub open spec fn next(self, event: UnzipEventView) -> (Unzip, Option<Seq<char>>) {
        let same = (self, None::<Seq<char>>);
        match self.phase {
            UnzipPhase::Open => match event {
                UnzipEventView::Opened(n) => (
                    Unzip {
                        count: n,
                        index: 0,
                        phase: if n > 0 {
                            UnzipPhase::Entry
                        } else {
                            UnzipPhase::Ended
                        },
                    },
                    None,
                ),
                UnzipEventView::Failed(e) => self.failed(e),
                _ => same,
            },
            UnzipPhase::Entry => match event {
                UnzipEventView::Found { enclosed, name } => if !enclosed {
                    (self.advanced(), None)
                } else if names_folder(name) {
                    (self.at(UnzipPhase::MakeDir), None)
                } else {
                    (self.at(UnzipPhase::MakeFile), None)
                },
                UnzipEventView::Failed(e) => self.failed(e),
                _ => same,
            },
            UnzipPhase::MakeDir => match event {
                UnzipEventView::Done | UnzipEventView::Failed(_) => (self.advanced(), None),
                _ => same,
            },
            UnzipPhase::MakeFile => match event {
                UnzipEventView::Done => (self.at(UnzipPhase::Copy), None),
                UnzipEventView::Failed(e) => self.failed("Could not create extracted file: "@ + e),
                _ => same,
            },
            UnzipPhase::Copy => match event {
                UnzipEventView::Done => (self.advanced(), None),
                UnzipEventView::Failed(e) => self.failed("Could not extract file contents: "@ + e),
                _ => same,
            },
            UnzipPhase::Ended => same,
        }
    }

    /// The unpacking before its first action.
    pub fn new() -> (r: Unzip)
        ensures
            r == Unzip::begun(),
    {
        Unzip { count: 0, index: 0, phase: UnzipPhase::Open }
    }

    fn advance(&mut self)
        ensures
            *final(self) == old(self).advanced(),
    {
        if self.index < self.count && self.index + 1 < self.count {
            self.index = self.index + 1;
            self.phase = UnzipPhase::Entry;
        } else {
            self.phase = UnzipPhase::Ended;
        }
    }

    fn fail(&mut self, reason: String) -> (r: Option<String>)
        ensures
            *final(self) == old(self).failed(reason@).0,
            r matches Some(shown) && shown@ == reason@,
    {
        self.phase = UnzipPhase::Ended;
        Some(reason)
    }

    /// Takes in what came of the last action; tells the reason where the
    /// unpacking has failed.
    pub fn step(&mut self, event: UnzipEvent) -> (failure: Option<String>)
        ensures
            *final(self) == old(self).next(event@).0,
            crate::text::opt_view(failure) == old(self).next(event@).1,
    {
        match self.phase {
            UnzipPhase::Open => match event {
                UnzipEvent::Opened(n) => {
                    self.count = n;
                    self.index = 0;
                    self.phase = if n > 0 {
                        UnzipPhase::Entry
                    } else {
                        UnzipPhase::Ended
                    };
                },
                UnzipEvent::Failed(e) => {
                    return self.fail(e);
                },
                _ => {},
            },
            UnzipPhase::Entry => match event {
                UnzipEvent::Found { enclosed, name } => {
                    if !enclosed {
                        self.advance();
                    } else if is_folder_name(name.as_str()) {
                        self.phase = UnzipPhase::MakeDir;
                    } else {
                        self.phase = UnzipPhase::MakeFile;
                    }
                },
                UnzipEvent::Failed(e) => {
                    return self.fail(e);
                },
                _ => {},
            },
            UnzipPhase::MakeDir => match event {
                UnzipEvent::Done | UnzipEvent::Failed(_) => {
                    self.advance();
                },
                _ => {},
            },
            UnzipPhase::MakeFile => match event {
                UnzipEvent::Done => {
                    self.phase = UnzipPhase::Copy;
                },
                UnzipEvent::Failed(e) => {
                    return self.fail(join("Could not create extracted file: ", e.as_str()));
                },
                _ => {},
            },
            UnzipPhase::Copy => match event {
                UnzipEvent::Done => {
                    self.advance();
                },
                UnzipEvent::Failed(e) => {
                    return self.fail(join("Could not extract file contents: ", e.as_str()));
                },
                _ => {},
            },
            UnzipPhase::Ended => {},
        }
        None
    }

    /// The unpacking after a series of events.
    pub open spec fn run(self, events: Seq<UnzipEventView>) -> Unzip
        decreases events.len(),
    {
        if events.len() == 0 {
            self
        } else {
            self.run(events.drop_last()).next(events.last()).0
        }
    }

    /// Whether something is written for the entry being unpacked.
    pub open spec fn writes(self) -> bool {
        self.phase == UnzipPhase::MakeDir || self.phase == UnzipPhase::MakeFile || self.phase
            == UnzipPhase::Copy
    }
}

/// Whether an event tells of an entry that stays within the folder.
pub open spec fn found_within(event: UnzipEventView) -> bool {
    match event {
        UnzipEventView::Found { enclosed, .. } => enclosed,
        _ => false,
    }
}

/// Nothing is written for an entry that would leave the folder: whenever
/// something is written for an entry, that entry was looked up before and found
/// to stay within.
pub proof fn law_escaping_entries_are_skipped(events: Seq<UnzipEventView>)
    requires
        Unzip::begun().run(events).writes(),
    ensures
        exists|k: int|
            0 <= k < events.len() && (#[trigger] Unzip::begun().run(events.take(k))).phase
                == UnzipPhase::Entry && Unzip::begun().run(events.take(k)).index
                == Unzip::begun().run(events).index && found_within(events[k]),
    decreases events.len(),
{
    let n = events.len() - 1;
    let earlier = events.drop_last();
    assert(events.take(n) == earlier);
    let before = Unzip::begun().run(earlier);
    if before.writes() {
        law_escaping_entries_are_skipped(earlier);
        let k = choose|k: int|
            0 <= k < earlier.len() && (#[trigger] Unzip::begun().run(earlier.take(k))).phase
                == UnzipPhase::Entry && Unzip::begun().run(earlier.take(k)).index
                == Unzip::begun().run(earlier).index && found_within(earlier[k]);
        assert(events.take(k) == earlier.take(k));
        assert(events[k] == earlier[k]);
    } else {
        assert(Unzip::begun().run(events.take(n)).phase == UnzipPhase::Entry);
    }
}

/// The entries are taken in order, each once: an event leaves the entry as it
/// is or goes on to the next one. The unpacking ends without a failure only
/// after the last entry.
pub proof fn law_entries_in_order(unzip: Unzip, event: UnzipEventView)
    requires
        unzip.phase != UnzipPhase::Open,
    ensures
        unzip.next(event).0.count == unzip.count,
        unzip.next(event).0.index == unzip.index || (unzip.next(event).0.index == unzip.index + 1
            && unzip.next(event).0.phase == UnzipPhase::Entry),
        unzip.phase != UnzipPhase::Ended && unzip.next(event).0.phase == UnzipPhase::Ended
            && unzip.next(event).1 is None ==> unzip.index + 1 >= unzip.count,
{
}

/// Whether a name is that of a folder depends on its last character alone.
pub proof fn law_folder_names_end_with_a_separator(name: Seq<char>, c: char)
    ensures
        names_folder(name.push(c)) <==> c == '/' || c == '\\',
        !names_folder(Seq::empty()),
{
    assert(name.push(c).last() == c);
}

/// How an entry is dealt with: one that would leave the folder is skipped; a
/// folder is made, whether that succeeds or not; a file is made and then filled,
/// and a failure of either ends the unpacking with its reason. After that the
/// next entry follows, or the end after the last one.
pub proof fn law_how_an_entry_is_unpacked(unzip: Unzip, name: Seq<char>, c: char, e: Seq<char>)
    requires
        unzip.phase == UnzipPhase::Entry,
    ensures
        ({
            let stays = UnzipEventView::Found { enclosed: true, name: name.push(c) };
            let leaves = UnzipEventView::Found { enclosed: false, name: name.push(c) };
            let done = UnzipEventView::Done;
            let failed = UnzipEventView::Failed(e);
            let found = unzip.next(stays).0;
            let after = if unzip.index + 1 < unzip.count {
                Unzip {
                    count: unzip.count,
                    index: (unzip.index + 1) as usize,
                    phase: UnzipPhase::Entry,
                }
            } else {
                Unzip { count: unzip.count, index: unzip.index, phase: UnzipPhase::Ended }
            };
            let ended = Unzip {
                count: unzip.count,
                index: unzip.index,
                phase: UnzipPhase::Ended,
            };
            &&& unzip.next(leaves) == (after, None::<Seq<char>>)
            &&& unzip.next(stays).1 is None
            &&& unzip.next(UnzipEventView::Found { enclosed: true, name: seq![] }) == (
                Unzip { phase: UnzipPhase::MakeFile, ..unzip },
                None::<Seq<char>>,
            )
            &&& unzip.next(UnzipEventView::Found { enclosed: false, name: seq![] }) == (
                after,
                None::<Seq<char>>,
            )
            &&& c == '/' || c == '\\' ==> found.phase == UnzipPhase::MakeDir && found.next(done) == (
                after,
                None::<Seq<char>>,
            ) && found.next(failed) == (after, None::<Seq<char>>)
            &&& c != '/' && c != '\\' ==> found.phase == UnzipPhase::MakeFile && found.next(done).0
                == (Unzip { phase: UnzipPhase::Copy, ..unzip }) && found.next(done).1 is None
                && found.next(done).0.next(done) == (after, None::<Seq<char>>) && found.next(failed)
                == (ended, Some("Could not create extracted file: "@ + e)) && found.next(done).0.next(
                failed,
            ) == (ended, Some("Could not extract file contents: "@ + e))
            &&& unzip.next(failed) == (ended, Some(e))
        }),
{
    assert(name.push(c).last() == c);
}

/// Unpacking begins with opening the file: the first entry of as many as there
/// are follows, or the end where there is none; a failure ends it.
pub proof fn law_unpacking_begins_with_the_first_entry(n: usize, e: Seq<char>)
    ensures
        Unzip::begun().phase == UnzipPhase::Open,
        Unzip::begun().count == 0 && Unzip::begun().index == 0,
        Unzip::begun().next(UnzipEventView::Opened(n)).0.count == n,
        Unzip::begun().next(UnzipEventView::Opened(n)).0.index == 0,
        Unzip::begun().next(UnzipEventView::Opened(n)).1 is None,
        Unzip::begun().next(UnzipEventView::Opened(n)).0.phase == (if n > 0 {
            UnzipPhase::Entry
        } else {
            UnzipPhase::Ended
        }),
        Unzip::begun().next(UnzipEventView::Failed(e)).0.phase == UnzipPhase::Ended,
        Unzip::begun().next(UnzipEventView::Failed(e)).1 == Some(e),
{
}

/// What does not tell what came of the last action changes nothing.
pub proof fn law_unpacking_ignores_what_it_did_not_ask(unzip: Unzip, event: UnzipEventView)
    ensures
        match unzip.phase {
            UnzipPhase::Open => !(event is Opened) && !(event is Failed),
            UnzipPhase::Entry => !(event is Found) && !(event is Failed),
            UnzipPhase::Ended => true,
            _ => !(event is Done) && !(event is Failed),
        } ==> unzip.next(event) == (unzip, None::<Seq<char>>),
{
}

} // verus!
