//! The job that downloads and installs a game.
use crate::job::{ActionView, Archive, EventView, JobAction, JobEvent, JobKind, Report, ReportView};
use crate::launcher::Vault64App;
use crate::location::{folder, Base, Location, LocationView};
use crate::message::{AppMsg, MsgView};
use crate::naming::safe;
use crate::net::{status_text, success};
use crate::progress::{at_percent, law_between_its_ends, Progress};
use crate::release::{AssetView, GithubAsset};
use crate::text::{join, views};
use vstd::prelude::*;

verus! {

/// How far the installation has come: what is being done.
#[derive(Clone, Copy, PartialEq, Eq, Structural, Debug)]
pub enum InstallPhase {
    ClearTemp,
    ClearArchive,
    MakeTemp,
    Connect,
    OpenArchive,
    Read,
    Write(u64),
    Unpack,
    CheckOld,
    RemoveOld,
    MoveIn,
    RemoveArchive,
    Installed,
    Failed,
}

/// The job that downloads and installs a game.
#[derive(Debug)]
pub struct InstallJob {
    /// The package.
    pub asset: GithubAsset,
    /// The folder name of the game.
    pub game: String,
    /// What is being done.
    pub phase: InstallPhase,
    /// How many bytes have been counted.
    pub counted: u64,
}

/// What an `InstallJob` holds.
#[verifier::ext_equal]
pub struct InstallView {
    pub asset: AssetView,
    pub game: Seq<char>,
    pub phase: InstallPhase,
    pub counted: u64,
}

impl View for InstallJob {
    type V = InstallView;

    open spec fn view(&self) -> InstallView {
        InstallView {
            asset: self.asset@,
            game: self.game@,
            phase: self.phase,
            counted: self.counted,
        }
    }
}

/// The folder of an installed game.
pub open spec fn game_folder(game: Seq<char>) -> LocationView {
    folder(Base::GamesDir).child(game)
}

/// The folder of an installed game.
pub fn game_location(game: &str) -> (r: Location)
    ensures
        r@ == game_folder(game@),
{
    Location::folder(Base::GamesDir).child(game)
}

/// A message that the installation has come so far.
pub open spec fn install_progress(percent: u32, status: Seq<char>) -> ReportView {
    ReportView::Say(MsgView::DownloadProgress(Progress::At { percent }, status))
}

impl InstallView {
    /// The folder that the game gets.
    pub open spec fn target(self) -> LocationView {
        game_folder(self.game)
    }

    /// The folder into which the package is unpacked.
    pub open spec fn temp(self) -> LocationView {
        folder(Base::GamesDir).child(self.game + "_temp"@)
    }

    /// The file into which the package is downloaded.
    pub open spec fn archive(self) -> LocationView {
        folder(Base::GamesDir).child(self.game + ".7z"@)
    }

    /// What is to be done now.
    pub open spec fn pending(self) -> ActionView {
        match self.phase {
            InstallPhase::ClearTemp => ActionView::RemoveDir(self.temp()),
            InstallPhase::ClearArchive => ActionView::RemoveFile(self.archive()),
            InstallPhase::MakeTemp => ActionView::CreateDir(self.temp()),
            InstallPhase::Connect => ActionView::Connect(self.asset.browser_download_url),
            InstallPhase::OpenArchive => ActionView::CreateFile(self.archive()),
            InstallPhase::Read => ActionView::ReadChunk,
            InstallPhase::Write(n) => ActionView::WriteChunk(n),
            InstallPhase::Unpack => ActionView::Unpack(
                Archive::SevenZip,
                self.archive(),
                self.temp(),
            ),
            InstallPhase::CheckOld => ActionView::CheckExists(self.target()),
            InstallPhase::RemoveOld => ActionView::RemoveDir(self.target()),
            InstallPhase::MoveIn => ActionView::Rename(self.temp(), self.target()),
            InstallPhase::RemoveArchive => ActionView::RemoveFile(self.archive()),
            InstallPhase::Installed => ActionView::Stop,
            InstallPhase::Failed => ActionView::Stop,
        }
    }

    /// The job in another phase.
    pub open spec fn at(self, phase: InstallPhase) -> InstallView {
        InstallView { phase, ..self }
    }

    /// The job after its end, which is reported with a reason.
    pub open spec fn failed(self, reason: Seq<char>) -> (InstallView, Seq<ReportView>) {
        (
            self.at(InstallPhase::Failed),
            seq![ReportView::Say(MsgView::DownloadError(reason))],
        )
    }

    /// How much of the download has been done.
    pub open spec fn share(self, counted: u64) -> Progress {
        if self.asset.size == 0 {
            Progress::Between { start: 0, end: 60, done: 1, total: 1 }
        } else {
            Progress::Between { start: 0, end: 60, done: counted, total: self.asset.size }
        }
    }

    /// The job after an event, and what it reports. An event that does not tell
    /// what came of the pending action changes nothing.
    pub open spec fn next(self, event: EventView) -> (InstallView, Seq<ReportView>) {
        let same = (self, Seq::<ReportView>::empty());
        match self.phase {
            InstallPhase::ClearTemp => match event {
                EventView::Done | EventView::Failed(_) => (
                    self.at(InstallPhase::ClearArchive),
                    seq![],
                ),
                _ => same,
            },
            InstallPhase::ClearArchive => match event {
                EventView::Done | EventView::Failed(_) => (self.at(InstallPhase::MakeTemp), seq![]),
                _ => same,
            },
            InstallPhase::MakeTemp => match event {
                EventView::Done => (
                    self.at(InstallPhase::Connect),
                    seq![install_progress(1, "Connecting..."@)],
                ),
                EventView::Failed(e) => self.failed("Cannot create temporary folder: "@ + e),
                _ => same,
            },
            InstallPhase::Connect => match event {
                EventView::Answered(code) => if success(code) {
                    (self.at(InstallPhase::OpenArchive), seq![])
                } else {
                    self.failed("HTTP error: "@ + status_text(code))
                },
                EventView::Failed(e) => self.failed("Connection error: "@ + e),
                _ => same,
            },
            InstallPhase::OpenArchive => match event {
                EventView::Done => (self.at(InstallPhase::Read), seq![]),
                EventView::Failed(e) => self.failed("Error saving file to disk: "@ + e),
                _ => same,
            },
            InstallPhase::Read => match event {
                EventView::Received(n) => if n > 0 {
                    (self.at(InstallPhase::Write(n)), seq![])
                } else if self.counted < self.asset.size {
                    self.failed("Download was interrupted. File is probably corrupted."@)
                } else {
                    (
                        self.at(InstallPhase::Unpack),
                        seq![
                            install_progress(
                                70,
                                "Unpacking files... this may take a while, so sit back and relax :P"@,
                            ),
                        ],
                    )
                },
                EventView::Failed(e) => self.failed("Connection interrupted: "@ + e),
                _ => same,
            },
            InstallPhase::Write(_) => match event {
                EventView::Written(counted) => (
                    InstallView { counted, phase: InstallPhase::Read, ..self },
                    seq![
                        ReportView::Transferred {
                            job: JobKind::Install,
                            progress: self.share(counted),
                            label: "Downloading"@,
                            done: counted,
                            total: Some(self.asset.size),
                        },
                    ],
                ),
                EventView::Failed(e) => self.failed("Error saving file to disk: "@ + e),
                _ => same,
            },
            InstallPhase::Unpack => match event {
                EventView::Done => (
                    self.at(InstallPhase::CheckOld),
                    seq![install_progress(95, "Finalizing installation..."@)],
                ),
                EventView::Failed(e) => self.failed(
                    "Critical error while decompressing .7z file: "@ + e,
                ),
                _ => same,
            },
            InstallPhase::CheckOld => match event {
                EventView::Done => (self.at(InstallPhase::RemoveOld), seq![]),
                EventView::Failed(_) => (self.at(InstallPhase::MoveIn), seq![]),
                _ => same,
            },
            InstallPhase::RemoveOld => match event {
                EventView::Done => (self.at(InstallPhase::MoveIn), seq![]),
                EventView::Failed(e) => self.failed("Could not remove old installation: "@ + e),
                _ => same,
            },
            InstallPhase::MoveIn => match event {
                EventView::Done => (self.at(InstallPhase::RemoveArchive), seq![]),
                EventView::Failed(e) => self.failed("Error finalizing installation: "@ + e),
                _ => same,
            },
            InstallPhase::RemoveArchive => match event {
                EventView::Done | EventView::Failed(_) => (
                    self.at(InstallPhase::Installed),
                    seq![ReportView::Say(MsgView::DownloadComplete(self.game))],
                ),
                _ => same,
            },
            InstallPhase::Installed => same,
            InstallPhase::Failed => same,
        }
    }

    /// The job after a series of events.
    pub open spec fn run(self, events: Seq<EventView>) -> InstallView
        decreases events.len(),
    {
        if events.len() == 0 {
            self
        } else {
            self.run(events.drop_last()).next(events.last()).0
        }
    }
}

/// The job that installs a game from a package, before its first action.
pub open spec fn install_begun(asset: AssetView, game_name: Seq<char>) -> InstallView {
    InstallView { asset, game: safe(game_name), phase: InstallPhase::ClearTemp, counted: 0 }
}

/// A report that the installation has come so far.
fn progress_report(percent: u32, status: &str) -> (r: Report)
    ensures
        r@ == install_progress(percent, status@),
{
    Report::Say(AppMsg::DownloadProgress(Progress::At { percent }, status.to_owned()))
}

impl InstallJob {
    /// The job that installs a game from a package.
    pub fn new(asset: GithubAsset, game_name: &str) -> (r: InstallJob)
        ensures
            r@ == install_begun(asset@, game_name@),
    {
        InstallJob {
            asset,
            game: Vault64App::safe_name(game_name),
            phase: InstallPhase::ClearTemp,
            counted: 0,
        }
    }

    fn temp(&self) -> (r: Location)
        ensures
            r@ == self@.temp(),
    {
        let name: String = join(self.game.as_str(), "_temp");
        Location::folder(Base::GamesDir).child(name.as_str())
    }

    fn archive(&self) -> (r: Location)
        ensures
            r@ == self@.archive(),
    {
        let name: String = join(self.game.as_str(), ".7z");
        Location::folder(Base::GamesDir).child(name.as_str())
    }

    /// What is to be done now.
    pub fn action(&self) -> (r: JobAction)
        ensures
            r@ == self@.pending(),
    {
        match self.phase {
            InstallPhase::ClearTemp => JobAction::RemoveDir(self.temp()),
            InstallPhase::ClearArchive => JobAction::RemoveFile(self.archive()),
            InstallPhase::MakeTemp => JobAction::CreateDir(self.temp()),
            InstallPhase::Connect => JobAction::Connect(self.asset.browser_download_url.clone()),
            InstallPhase::OpenArchive => JobAction::CreateFile(self.archive()),
            InstallPhase::Read => JobAction::ReadChunk,
            InstallPhase::Write(n) => JobAction::WriteChunk(n),
            InstallPhase::Unpack => JobAction::Unpack(
                Archive::SevenZip,
                self.archive(),
                self.temp(),
            ),
            InstallPhase::CheckOld => JobAction::CheckExists(game_location(self.game.as_str())),
            InstallPhase::RemoveOld => JobAction::RemoveDir(game_location(self.game.as_str())),
            InstallPhase::MoveIn => JobAction::Rename(
                self.temp(),
                game_location(self.game.as_str()),
            ),
            InstallPhase::RemoveArchive => JobAction::RemoveFile(self.archive()),
            InstallPhase::Installed => JobAction::Stop,
            InstallPhase::Failed => JobAction::Stop,
        }
    }

    fn fail(&mut self, prefix: &str, reason: &str) -> (r: Vec<Report>)
        ensures
            final(self)@ == old(self)@.failed(prefix@ + reason@).0,
            views(r@) == old(self)@.failed(prefix@ + reason@).1,
    {
        self.phase = InstallPhase::Failed;
        let mut r: Vec<Report> = Vec::new();
        r.push(Report::Say(AppMsg::DownloadError(join(prefix, reason))));
        assert(views(r@) == old(self)@.failed(prefix@ + reason@).1);
        r
    }

    /// Takes in what came of the pending action and tells what to report.
    pub fn step(&mut self, event: JobEvent) -> (r: Vec<Report>)
        ensures
            final(self)@ == old(self)@.next(event@).0,
            views(r@) == old(self)@.next(event@).1,
    {
        let mut r: Vec<Report> = Vec::new();
        match self.phase {
            InstallPhase::ClearTemp => match event {
                JobEvent::Done | JobEvent::Failed(_) => {
                    self.phase = InstallPhase::ClearArchive;
                },
                _ => {},
            },
            InstallPhase::ClearArchive => match event {
                JobEvent::Done | JobEvent::Failed(_) => {
                    self.phase = InstallPhase::MakeTemp;
                },
                _ => {},
            },
            InstallPhase::MakeTemp => match event {
                JobEvent::Done => {
                    self.phase = InstallPhase::Connect;
                    r.push(progress_report(1, "Connecting..."));
                },
                JobEvent::Failed(e) => {
                    return self.fail("Cannot create temporary folder: ", e.as_str());
                },
                _ => {},
            },
            InstallPhase::Connect => match event {
                JobEvent::Answered(status) => {
                    if status.is_success() {
                        self.phase = InstallPhase::OpenArchive;
                    } else {
                        let text: String = status.text();
                        return self.fail("HTTP error: ", text.as_str());
                    }
                },
                JobEvent::Failed(e) => {
                    return self.fail("Connection error: ", e.as_str());
                },
                _ => {},
            },
            InstallPhase::OpenArchive => match event {
                JobEvent::Done => {
                    self.phase = InstallPhase::Read;
                },
                JobEvent::Failed(e) => {
                    return self.fail("Error saving file to disk: ", e.as_str());
                },
                _ => {},
            },
            InstallPhase::Read => match event {
                JobEvent::Received(n) => {
                    if n > 0 {
                        self.phase = InstallPhase::Write(n);
                    } else if self.counted < self.asset.size {
                        let ghost reason = "Download was interrupted. File is probably corrupted."@;
                        assert(reason + ""@ == reason) by {
                            reveal_strlit("");
                        }
                        return self.fail(
                            "Download was interrupted. File is probably corrupted.",
                            "",
                        );
                    } else {
                        self.phase = InstallPhase::Unpack;
                        r.push(
                            progress_report(
                                70,
                                "Unpacking files... this may take a while, so sit back and relax :P",
                            ),
                        );
                    }
                },
                JobEvent::Failed(e) => {
                    return self.fail("Connection interrupted: ", e.as_str());
                },
                _ => {},
            },
            InstallPhase::Write(_) => match event {
                JobEvent::Written(counted) => {
                    self.counted = counted;
                    self.phase = InstallPhase::Read;
                    let progress: Progress = if self.asset.size == 0 {
                        Progress::Between { start: 0, end: 60, done: 1, total: 1 }
                    } else {
                        Progress::Between { start: 0, end: 60, done: counted, total: self.asset.size }
                    };
                    r.push(
                        Report::Transferred {
                            job: JobKind::Install,
                            progress,
                            label: "Downloading".to_owned(),
                            done: counted,
                            total: Some(self.asset.size),
                        },
                    );
                },
                JobEvent::Failed(e) => {
                    return self.fail("Error saving file to disk: ", e.as_str());
                },
                _ => {},
            },
            InstallPhase::Unpack => match event {
                JobEvent::Done => {
                    self.phase = InstallPhase::CheckOld;
                    r.push(progress_report(95, "Finalizing installation..."));
                },
                JobEvent::Failed(e) => {
                    return self.fail("Critical error while decompressing .7z file: ", e.as_str());
                },
                _ => {},
            },
            InstallPhase::CheckOld => match event {
                JobEvent::Done => {
                    self.phase = InstallPhase::RemoveOld;
                },
                JobEvent::Failed(_) => {
                    self.phase = InstallPhase::MoveIn;
                },
                _ => {},
            },
            InstallPhase::RemoveOld => match event {
                JobEvent::Done => {
                    self.phase = InstallPhase::MoveIn;
                },
                JobEvent::Failed(e) => {
                    return self.fail("Could not remove old installation: ", e.as_str());
                },
                _ => {},
            },
            InstallPhase::MoveIn => match event {
                JobEvent::Done => {
                    self.phase = InstallPhase::RemoveArchive;
                },
                JobEvent::Failed(e) => {
                    return self.fail("Error finalizing installation: ", e.as_str());
                },
                _ => {},
            },
            InstallPhase::RemoveArchive => match event {
                JobEvent::Done | JobEvent::Failed(_) => {
                    self.phase = InstallPhase::Installed;
                    r.push(Report::Say(AppMsg::DownloadComplete(self.game.clone())));
                },
                _ => {},
            },
            InstallPhase::Installed => {},
            InstallPhase::Failed => {},
        }
        assert(views(r@) == old(self)@.next(event@).1);
        r
    }
}

impl InstallView {
    /// What the job reports in the course of a series of events.
    pub open spec fn run_reports(self, events: Seq<EventView>) -> Seq<ReportView>
        decreases events.len(),
    {
        if events.len() == 0 {
            Seq::empty()
        } else {
            self.run_reports(events.drop_last()) + self.run(events.drop_last()).next(
                events.last(),
            ).1
        }
    }

    /// Whether the job has ended.
    pub open spec fn ended(self) -> bool {
        self.phase == InstallPhase::Installed || self.phase == InstallPhase::Failed
    }

    /// Whether the whole package has been downloaded.
    pub open spec fn downloaded(self) -> bool {
        match self.phase {
            InstallPhase::Unpack => true,
            InstallPhase::Installed => true,
            _ => self.unpacked(),
        }
    }

    /// Whether the package has been unpacked and the installation goes on.
    pub open spec fn unpacked(self) -> bool {
        match self.phase {
            InstallPhase::CheckOld => true,
            InstallPhase::RemoveOld => true,
            InstallPhase::MoveIn => true,
            InstallPhase::RemoveArchive => true,
            InstallPhase::Installed => true,
            _ => false,
        }
    }
}

/// Whether a report says that the installation is over.
pub open spec fn says_over(report: ReportView) -> bool {
    match report {
        ReportView::Say(MsgView::DownloadComplete(_)) => true,
        ReportView::Say(MsgView::DownloadError(_)) => true,
        _ => false,
    }
}

/// In the course of a job its package and its game stay the same.
proof fn lemma_install_keeps_game(job: InstallView, events: Seq<EventView>)
    ensures
        job.run(events).game == job.game,
        job.run(events).asset == job.asset,
    decreases events.len(),
{
    if events.len() > 0 {
        lemma_install_keeps_game(job, events.drop_last());
    }
}

/// The three places of an installation of a game with a name lie apart.
proof fn lemma_places_apart(job: InstallView)
    requires
        job.game.len() > 0,
    ensures
        !job.temp().overlaps(job.target()),
        !job.archive().overlaps(job.target()),
        !job.archive().overlaps(job.temp()),
{
    reveal_strlit("_temp");
    reveal_strlit(".7z");
    assert(job.temp().parts[0] == job.game + "_temp"@);
    assert(job.archive().parts[0] == job.game + ".7z"@);
    assert(job.target().parts[0] == job.game);
}

/// An installed game with a name is not touched before the new package has been
/// unpacked: whenever an action of the job changes the game's folder, unpacking
/// was an earlier action of the job, and it was done. The folder of a game without
/// a name is that of all games, in which the package is unpacked.
pub proof fn law_old_installation_kept_until_unpacked(
    asset: AssetView,
    game_name: Seq<char>,
    events: Seq<EventView>,
)
    requires
        game_name.len() > 0,
        install_begun(asset, game_name).run(events).pending().disturbs(
            game_folder(safe(game_name)),
        ),
    ensures
        exists|k: int|
            0 <= k < events.len() && #[trigger] install_begun(asset, game_name).run(
                events.take(k),
            ).pending() is Unpack && events[k] is Done,
{
    let job = install_begun(asset, game_name);
    lemma_install_keeps_game(job, events);
    lemma_places_apart(job.run(events));
    lemma_unpacked_once(job, events);
}

/// A job that is past unpacking has unpacked.
proof fn lemma_unpacked_once(job: InstallView, events: Seq<EventView>)
    requires
        !job.unpacked(),
        job.run(events).unpacked(),
    ensures
        exists|k: int|
            0 <= k < events.len() && #[trigger] job.run(events.take(k)).pending() is Unpack
                && events[k] is Done,
    decreases events.len(),
{
    let n = events.len() - 1;
    let earlier = events.drop_last();
    assert(events.take(n) == earlier);
    if job.run(earlier).unpacked() {
        lemma_unpacked_once(job, earlier);
        let k = choose|k: int|
            0 <= k < earlier.len() && #[trigger] job.run(earlier.take(k)).pending() is Unpack
                && earlier[k] is Done;
        assert(events.take(k) == earlier.take(k));
        assert(events[k] == earlier[k]);
    } else {
        assert(job.run(events.take(n)).pending() is Unpack);
    }
}

/// The job changes nothing outside the folder of the games, and in it only
/// entries whose names have no separator, never that folder itself, unless the
/// game has no name: the folder of such a game is that of all games.
pub proof fn law_install_stays_in_games_folder(
    asset: AssetView,
    game_name: Seq<char>,
    events: Seq<EventView>,
)
    ensures
        install_begun(asset, game_name).run(events).pending().writes_within(folder(Base::GamesDir)),
        ({
            let job = install_begun(asset, game_name).run(events);
            &&& forall|l: LocationView|
                #![trigger l.parts]
                (l == job.target() && game_name.len() > 0) || l == job.temp() || l == job.archive()
                    ==> l.parts.len() == 1 && l.parts[0].len() > 0 && !l.parts[0].contains('/')
                    && !l.parts[0].contains('\\')
            &&& game_name.len() == 0 ==> job.target() == folder(Base::GamesDir)
        }),
{
    reveal_strlit("_temp");
    reveal_strlit(".7z");
    let job = install_begun(asset, game_name).run(events);
    lemma_install_keeps_game(install_begun(asset, game_name), events);
    crate::naming::law_safe_name_is_one_component(game_name);
    let game = safe(game_name);
    assert(job.game == game);
    assert forall|c: char| (c == '/' || c == '\\') implies !(#[trigger] (game + "_temp"@).contains(
        c,
    )) by {
        let t = game + "_temp"@;
        if t.contains(c) {
            let i = choose|i: int| 0 <= i < t.len() && t[i] == c;
            if i < game.len() {
                assert(game[i] == c);
            }
        }
    }
    assert forall|c: char| (c == '/' || c == '\\') implies !(#[trigger] (game + ".7z"@).contains(
        c,
    )) by {
        let t = game + ".7z"@;
        if t.contains(c) {
            let i = choose|i: int| 0 <= i < t.len() && t[i] == c;
            if i < game.len() {
                assert(game[i] == c);
            }
        }
    }
}

/// A game is reported as installed only if as many bytes were counted as the
/// package has.
pub proof fn law_installed_packages_are_whole(
    asset: AssetView,
    game_name: Seq<char>,
    events: Seq<EventView>,
)
    ensures
        install_begun(asset, game_name).run(events).downloaded() ==> install_begun(
            asset,
            game_name,
        ).run(events).counted >= asset.size,
    decreases events.len(),
{
    lemma_install_keeps_game(install_begun(asset, game_name), events);
    if events.len() > 0 {
        lemma_install_keeps_game(install_begun(asset, game_name), events.drop_last());
        law_installed_packages_are_whole(asset, game_name, events.drop_last());
    }
}

/// A job reports its end once, as the last thing it reports, and it does so
/// exactly when it has ended.
pub proof fn law_install_end_reported_once(
    asset: AssetView,
    game_name: Seq<char>,
    events: Seq<EventView>,
)
    ensures
        ({
            let begun = install_begun(asset, game_name);
            let reports = begun.run_reports(events);
            &&& begun.run(events).ended() ==> reports.len() > 0
            &&& forall|i: int|
                0 <= i < reports.len() ==> (says_over(#[trigger] reports[i]) <==> begun.run(
                    events,
                ).ended() && i == reports.len() - 1)
        }),
    decreases events.len(),
{
    if events.len() > 0 {
        law_install_end_reported_once(asset, game_name, events.drop_last());
        let begun = install_begun(asset, game_name);
        let earlier = begun.run(events.drop_last());
        let said = begun.run_reports(events.drop_last());
        let new = earlier.next(events.last()).1;
        let reports = begun.run_reports(events);
        assert(reports == said + new);
        assert(new.len() <= 1);
        assert forall|i: int| 0 <= i < reports.len() implies (says_over(#[trigger] reports[i])
            <==> begun.run(events).ended() && i == reports.len() - 1) by {
            if i < said.len() {
                assert(reports[i] == said[i]);
            } else {
                assert(reports[i] == new[i - said.len()]);
            }
        }
    }
}

/// The reports of a job name shares that lie within the task: in its first six
/// tenths while it downloads, and at most 95 percent before it ends.
pub proof fn law_install_progress_well_formed(job: InstallView, event: EventView)
    ensures
        forall|i: int|
            0 <= i < job.next(event).1.len() ==> match #[trigger] job.next(event).1[i] {
                ReportView::Say(MsgView::DownloadProgress(p, _)) => p.well_formed() && p.at_most(
                    at_percent(95),
                ),
                ReportView::Transferred { progress, .. } => progress.well_formed()
                    && progress.at_most(at_percent(60)),
                _ => true,
            },
{
    assert forall|i: int| 0 <= i < job.next(event).1.len() implies match #[trigger] job.next(
        event,
    ).1[i] {
        ReportView::Say(MsgView::DownloadProgress(p, _)) => p.well_formed() && p.at_most(
                    at_percent(95),
                ),
        ReportView::Transferred { progress, .. } => progress.well_formed() && progress.at_most(at_percent(60)),
        _ => true,
    } by {
        if let ReportView::Transferred { progress, .. } = job.next(event).1[i] {
            if let Progress::Between { start, end, done, total } = progress {
                law_between_its_ends(start, end, done, total);
            }
        }
    }
}

/// A series of events can be taken in one part after the other.
proof fn lemma_run_parts(job: InstallView, a: Seq<EventView>, b: Seq<EventView>)
    ensures
        job.run(a + b) == job.run(a).run(b),
    decreases b.len(),
{
    if b.len() == 0 {
        assert(a + b == a);
    } else {
        assert((a + b).drop_last() == a + b.drop_last());
        lemma_run_parts(job, a, b.drop_last());
    }
}

/// One event is one step, and two are two.
proof fn lemma_run_short(job: InstallView, a: EventView, b: EventView)
    ensures
        job.run(seq![a]) == job.next(a).0,
        job.run(seq![a, b]) == job.next(a).0.next(b).0,
{
    assert(seq![a].drop_last() == Seq::<EventView>::empty());
    assert(job.run(seq![a].drop_last()) == job);
    assert(seq![a, b].drop_last() == seq![a]);
}

/// What a download in the given parts tells: each part, of so many bytes, is
/// received and written, after which so many bytes have been counted.
pub open spec fn part_events(parts: Seq<(u64, u64)>) -> Seq<EventView>
    decreases parts.len(),
{
    if parts.len() == 0 {
        seq![]
    } else {
        part_events(parts.drop_last()) + seq![
            EventView::Received(parts.last().0),
            EventView::Written(parts.last().1),
        ]
    }
}

/// The events of an installation in which nothing goes wrong, which puts the
/// game in the place of an old installation or finds none.
pub open spec fn smooth_events(code: u16, parts: Seq<(u64, u64)>, replaces: bool) -> Seq<EventView> {
    seq![EventView::Done, EventView::Done] + seq![EventView::Done, EventView::Answered(code)]
        + seq![EventView::Done] + part_events(parts) + seq![EventView::Received(0), EventView::Done]
        + (if replaces {
        seq![EventView::Done, EventView::Done]
    } else {
        seq![EventView::Failed(seq![])]
    }) + seq![EventView::Done, EventView::Done]
}

/// Parts that are received and written are counted.
proof fn lemma_parts_are_counted(job: InstallView, parts: Seq<(u64, u64)>)
    requires
        job.phase == InstallPhase::Read,
        forall|i: int| 0 <= i < parts.len() ==> (#[trigger] parts[i]).0 > 0,
    ensures
        job.run(part_events(parts)) == (InstallView {
            counted: if parts.len() == 0 {
                job.counted
            } else {
                parts.last().1
            },
            ..job
        }),
    decreases parts.len(),
{
    if parts.len() > 0 {
        let earlier = parts.drop_last();
        assert forall|i: int| 0 <= i < earlier.len() implies (#[trigger] earlier[i]).0 > 0 by {
            assert(earlier[i] == parts[i]);
        }
        lemma_parts_are_counted(job, earlier);
        let received = EventView::Received(parts.last().0);
        let written = EventView::Written(parts.last().1);
        lemma_run_parts(job, part_events(earlier), seq![received, written]);
        lemma_run_short(job.run(part_events(earlier)), received, written);
    }
}

/// An installation in which nothing goes wrong, and in which as many bytes are
/// counted as the package has, ends with the game installed.
pub proof fn law_smooth_install_succeeds(
    asset: AssetView,
    game_name: Seq<char>,
    code: u16,
    parts: Seq<(u64, u64)>,
    replaces: bool,
)
    requires
        success(code),
        forall|i: int| 0 <= i < parts.len() ==> (#[trigger] parts[i]).0 > 0,
        parts.len() == 0 ==> asset.size == 0,
        parts.len() > 0 ==> parts.last().1 >= asset.size,
    ensures
        install_begun(asset, game_name).run(smooth_events(code, parts, replaces)).phase
            == InstallPhase::Installed,
{
    let job = install_begun(asset, game_name);
    let done = EventView::Done;
    let answered = EventView::Answered(code);
    let received = EventView::Received(0);
    let old = if replaces {
        seq![done, done]
    } else {
        seq![EventView::Failed(seq![])]
    };
    let a = seq![done, done];
    let b = a + seq![done, answered];
    let c = b + seq![done];
    let d = c + part_events(parts);
    let e = d + seq![received, done];
    let f = e + old;
    lemma_run_short(job, done, done);
    lemma_run_parts(job, a, seq![done, answered]);
    lemma_run_short(job.run(a), done, answered);
    lemma_run_parts(job, b, seq![done]);
    lemma_run_short(job.run(b), done, done);
    lemma_run_parts(job, c, part_events(parts));
    lemma_parts_are_counted(job.run(c), parts);
    lemma_run_parts(job, d, seq![received, done]);
    lemma_run_short(job.run(d), received, done);
    lemma_run_parts(job, e, old);
    lemma_run_short(job.run(e), done, done);
    lemma_run_short(job.run(e), EventView::Failed(seq![]), done);
    assert(job.run(f).phase == InstallPhase::MoveIn);
    lemma_run_parts(job, f, seq![done, done]);
    lemma_run_short(job.run(f), done, done);
}

/// What arrives is written as it arrived: the part of so many bytes, whatever
/// their number. It is then counted as it was told, and the next part is awaited.
pub proof fn law_parts_are_written_whole(job: InstallView, n: u64, counted: u64)
    requires
        job.phase == InstallPhase::Read,
        n > 0,
    ensures
        job.pending() == ActionView::ReadChunk,
        ({
            let (got, said) = job.next(EventView::Received(n));
            let (wrote, told) = got.next(EventView::Written(counted));
            &&& got.pending() == ActionView::WriteChunk(n)
            &&& said.len() == 0
            &&& got.counted == job.counted
            &&& got.asset == job.asset && got.game == job.game
            &&& wrote == (InstallView { counted, ..job })
            &&& told.len() == 1
            &&& (told[0] matches ReportView::Transferred { job: kind, progress, label, done, total }
                && kind == JobKind::Install && label == "Downloading"@ && done == counted && total
                == Some(job.asset.size) && (job.asset.size > 0 ==> progress == (Progress::Between {
                start: 0,
                end: 60,
                done: counted,
                total: job.asset.size,
            })) && (job.asset.size == 0 ==> progress == (Progress::Between {
                start: 0,
                end: 60,
                done: 1,
                total: 1,
            })))
        }),
{
}

/// The end of the download: with less than the package has it fails; else it is
/// unpacked, which is told.
pub proof fn law_end_of_the_download(job: InstallView)
    requires
        job.phase == InstallPhase::Read,
    ensures
        ({
            let (after, said) = job.next(EventView::Received(0));
            &&& job.counted < job.asset.size ==> after.pending() is Stop && said
                == seq![ReportView::Say(
                MsgView::DownloadError("Download was interrupted. File is probably corrupted."@),
            )]
            &&& job.counted >= job.asset.size ==> after.pending() is Unpack && said
                == seq![ReportView::Say(
                MsgView::DownloadProgress(
                    Progress::At { percent: 70 },
                    "Unpacking files... this may take a while, so sit back and relax :P"@,
                ),
            )]
        }),
{
}

/// Whether the job ends with this reason, as its only report, and stays ended.
pub open spec fn fails_with(after: (InstallView, Seq<ReportView>), reason: Seq<char>) -> bool {
    &&& after.0.pending() == ActionView::Stop
    &&& after.1 == seq![ReportView::Say(MsgView::DownloadError(reason))]
    &&& forall|event: EventView| #[trigger]
        after.0.next(event) == (after.0, Seq::<ReportView>::empty())
}

/// The course of an installation before anything has come: the temporary folder
/// and the package of an earlier attempt are removed, whether they are there or
/// not; the folder is made; the address of the package is asked, and a success is
/// an answer from 200 to 299; then the file for the package is made. Whatever else
/// goes wrong ends the installation with its reason.
pub proof fn law_install_until_the_download(
    asset: AssetView,
    game_name: Seq<char>,
    code: u16,
    e: Seq<char>,
)
    ensures
        ({
            let done = EventView::Done;
            let failed = EventView::Failed(e);
            let game = safe(game_name);
            let temp = LocationView { base: Base::GamesDir, parts: seq![game + "_temp"@] };
            let archive = LocationView { base: Base::GamesDir, parts: seq![game + ".7z"@] };
            let start = install_begun(asset, game_name);
            let cleared = start.next(done).0;
            let clean = cleared.next(done).0;
            let made = clean.next(done).0;
            let answered = made.next(EventView::Answered(code)).0;
            let opened = answered.next(done).0;
            &&& start.pending() == ActionView::RemoveDir(temp)
            &&& start.next(done).1.len() == 0
            &&& start.next(failed) == start.next(done)
            &&& cleared.pending() == ActionView::RemoveFile(archive)
            &&& cleared.next(done).1.len() == 0
            &&& cleared.next(failed) == cleared.next(done)
            &&& clean.pending() == ActionView::CreateDir(temp)
            &&& clean.next(done).1 == seq![ReportView::Say(
                MsgView::DownloadProgress(Progress::At { percent: 1 }, "Connecting..."@),
            )]
            &&& fails_with(clean.next(failed), "Cannot create temporary folder: "@ + e)
            &&& made.pending() == ActionView::Connect(asset.browser_download_url)
            &&& fails_with(made.next(failed), "Connection error: "@ + e)
            &&& !(200 <= code && code <= 299) ==> fails_with(
                made.next(EventView::Answered(code)),
                "HTTP error: "@ + status_text(code),
            )
            &&& 200 <= code && code <= 299 ==> {
                &&& made.next(EventView::Answered(code)).1.len() == 0
                &&& answered.pending() == ActionView::CreateFile(archive)
                &&& fails_with(answered.next(failed), "Error saving file to disk: "@ + e)
                &&& answered.next(done).1.len() == 0
                &&& opened.phase == InstallPhase::Read
                &&& opened.counted == 0
                &&& opened.asset == asset
                &&& opened.game == game
            }
        }),
{
    reveal_strlit("_temp");
    reveal_strlit(".7z");
    let game = safe(game_name);
    assert(Seq::<Seq<char>>::empty().push(game + "_temp"@) == seq![game + "_temp"@]);
    assert(Seq::<Seq<char>>::empty().push(game + ".7z"@) == seq![game + ".7z"@]);
}

/// The course of an installation once something may come: what cannot be read or
/// written ends it with its reason.
pub proof fn law_install_download_failures(job: InstallView, n: u64, e: Seq<char>)
    requires
        job.phase == InstallPhase::Read,
        n > 0,
    ensures
        fails_with(job.next(EventView::Failed(e)), "Connection interrupted: "@ + e),
        fails_with(
            job.next(EventView::Received(n)).0.next(EventView::Failed(e)),
            "Error saving file to disk: "@ + e,
        ),
{
}

/// The course of an installation after the download: the package is unpacked into
/// the temporary folder; an old installation is removed where there is one; the
/// temporary folder takes its place; the package is removed, if it can be; and the
/// game is reported as installed. Whatever else goes wrong ends the installation
/// with its reason.
pub proof fn law_install_after_the_download(job: InstallView, e: Seq<char>)
    requires
        job.phase == InstallPhase::Read,
        job.counted >= job.asset.size,
    ensures
        ({
            let done = EventView::Done;
            let failed = EventView::Failed(e);
            let temp = LocationView { base: Base::GamesDir, parts: seq![job.game + "_temp"@] };
            let archive = LocationView { base: Base::GamesDir, parts: seq![job.game + ".7z"@] };
            let target = LocationView {
                base: Base::GamesDir,
                parts: if job.game.len() > 0 {
                    seq![job.game]
                } else {
                    seq![]
                },
            };
            let whole = job.next(EventView::Received(0)).0;
            let unpacked = whole.next(done).0;
            let old = unpacked.next(done).0;
            let free = unpacked.next(failed).0;
            let moved = free.next(done).0;
            let (end, said) = moved.next(done);
            &&& whole.pending() == ActionView::Unpack(Archive::SevenZip, archive, temp)
            &&& fails_with(
                whole.next(failed),
                "Critical error while decompressing .7z file: "@ + e,
            )
            &&& whole.next(done).1 == seq![ReportView::Say(
                MsgView::DownloadProgress(Progress::At { percent: 95 }, "Finalizing installation..."@),
            )]
            &&& unpacked.pending() == ActionView::CheckExists(target)
            &&& unpacked.next(done).1.len() == 0
            &&& unpacked.next(failed).1.len() == 0
            &&& old.pending() == ActionView::RemoveDir(target)
            &&& fails_with(old.next(failed), "Could not remove old installation: "@ + e)
            &&& old.next(done) == (free, Seq::<ReportView>::empty())
            &&& free.pending() == ActionView::Rename(temp, target)
            &&& fails_with(free.next(failed), "Error finalizing installation: "@ + e)
            &&& free.next(done).1.len() == 0
            &&& moved.pending() == ActionView::RemoveFile(archive)
            &&& moved.next(failed) == moved.next(done)
            &&& said == seq![ReportView::Say(MsgView::DownloadComplete(job.game))]
            &&& end.pending() == ActionView::Stop
            &&& forall|event: EventView| #[trigger]
                end.next(event) == (end, Seq::<ReportView>::empty())
        }),
{
    reveal_strlit("_temp");
    reveal_strlit(".7z");
    assert(Seq::<Seq<char>>::empty().push(job.game + "_temp"@) == seq![job.game + "_temp"@]);
    assert(Seq::<Seq<char>>::empty().push(job.game + ".7z"@) == seq![job.game + ".7z"@]);
    assert(Seq::<Seq<char>>::empty().push(job.game) == seq![job.game]);
}

/// What does not tell what came of the pending action changes nothing.
pub proof fn law_install_ignores_what_it_did_not_ask(job: InstallView, event: EventView)
    ensures
        match job.pending() {
            ActionView::Connect(_) => !(event is Answered) && !(event is Failed),
            ActionView::ReadChunk => !(event is Received) && !(event is Failed),
            ActionView::WriteChunk(_) => !(event is Written) && !(event is Failed),
            ActionView::Stop => true,
            _ => !(event is Done) && !(event is Failed),
        } ==> job.next(event) == (job, Seq::<ReportView>::empty()),
{
}

} // verus!
