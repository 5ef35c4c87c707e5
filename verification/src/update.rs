//! The job that downloads an update of the launcher and prepares it.
use crate::job::{
    ActionView, Archive, EntryKind, EventView, JobAction, JobEvent, KindView, Report, ReportView,
};
use crate::location::{folder, Base, Location, LocationView};
use crate::message::{AppMsg, MsgView, PlanView, UpdatePlan};
use crate::package::{
    extension, file_kind, kind_of_ascii_extension, kind_of_extension, portable_name, Package,
};
use crate::progress::Progress;
use crate::release::{AssetView, GithubAsset};
use crate::text::{
    decimal, decimal_text, digit, first_index, join, law_decimal_injective, lemma_decimal_value,
    lemma_first_index_is, opt_view, views,
};
use crate::net::success;
use crate::transfer::{
    transfer_begun, Transfer, TransferPhase, TransferStep, TransferStepView, TransferView,
};
use vstd::prelude::*;
use vstd::string::*;
use vstd::utf8::is_ascii_chars;

verus! {

/// How far the preparation has come: what is being done.
#[derive(Clone, Copy, PartialEq, Eq, Structural, Debug)]
pub enum UpdatePhase {
    MakeWorkDir,
    Locate,
    WriteScript,
    Download,
    ClearExe,
    RenameExe,
    MakeExtractDir,
    Unpack,
    FindRoot,
    CheckRoot,
    ListRoot,
    Ready,
    Failed,
}

/// The job that downloads an update of the launcher and prepares it.
#[derive(Debug)]
pub struct UpdateJob {
    /// The file that updates the launcher.
    pub asset: GithubAsset,
    /// What kind of package it is, if any.
    pub package: Option<Package>,
    /// The number of this process.
    pub pid: u32,
    /// The time at which the job began.
    pub stamp: u128,
    /// The name of the program's file, once it is known.
    pub exe_name: String,
    /// The download, once it has begun.
    pub transfer: Option<Transfer>,
    /// The folder of their own in which the unpacked files lie, if they do.
    pub nested: Option<String>,
    /// What is being done.
    pub phase: UpdatePhase,
}

/// What an `UpdateJob` holds.
#[verifier::ext_equal]
pub struct UpdateView {
    pub asset: AssetView,
    pub package: Option<Package>,
    pub pid: u32,
    pub stamp: u128,
    pub exe_name: Seq<char>,
    pub transfer: Option<TransferView>,
    pub nested: Option<Seq<char>>,
    pub phase: UpdatePhase,
}

impl View for UpdateJob {
    type V = UpdateView;

    open spec fn view(&self) -> UpdateView {
        UpdateView {
            asset: self.asset@,
            package: self.package,
            pid: self.pid,
            stamp: self.stamp,
            exe_name: self.exe_name@,
            transfer: opt_view(self.transfer),
            nested: opt_view(self.nested),
            phase: self.phase,
        }
    }
}

/// The file extension of packed files.
pub open spec fn archive_ext(archive: Archive) -> Seq<char> {
    match archive {
        Archive::SevenZip => "7z"@,
        Archive::Zip => "zip"@,
    }
}

/// The file extension of packed files.
fn ext_of(archive: Archive) -> (r: &'static str)
    ensures
        r@ == archive_ext(archive),
{
    match archive {
        Archive::SevenZip => "7z",
        Archive::Zip => "zip",
    }
}

/// The entries of a folder that could be read.
pub open spec fn readable(entries: Seq<KindView>) -> Seq<KindView> {
    entries.filter(|e: KindView| e != KindView::Unreadable)
}

/// The name of the one folder that the entries which could be read consist of,
/// if they are one folder and nothing else.
pub open spec fn sole_folder(entries: Seq<KindView>) -> Option<Seq<char>> {
    if readable(entries).len() == 1 {
        match readable(entries)[0] {
            KindView::Folder(name) => Some(name),
            _ => None,
        }
    } else {
        None
    }
}

/// The name of the folder of its own in which what was unpacked lies, if it
/// does: if the entries could be listed and are one folder and nothing else.
pub fn resolve_extract_root(entries: &Option<Vec<EntryKind>>) -> (nested: Option<String>)
    ensures
        opt_view(nested) == (match *entries {
            Some(list) => sole_folder(views(list@)),
            None => None,
        }),
{
    let list: &Vec<EntryKind> = match entries {
        Some(list) => list,
        None => {
            return None;
        },
    };
    let n: usize = list.len();
    let mut count: usize = 0;
    let mut last: usize = 0;
    let mut i: usize = 0;
    let ghost all = views(list@);
    assert(readable(all.take(0)).len() == 0);
    while i < n
        invariant
            i <= n == list@.len(),
            all == views(list@),
            count <= i,
            count == readable(all.take(i as int)).len(),
            count > 0 ==> last < n && readable(all.take(i as int)).last() == all[last as int],
        decreases n - i,
    {
        reveal(Seq::filter);
        assert(all.take(i + 1).drop_last() == all.take(i as int));
        assert(all[i as int] == list@[i as int]@);
        match &list[i] {
            EntryKind::Unreadable => {},
            _ => {
                count += 1;
                last = i;
            },
        }
        i += 1;
    }
    assert(all.take(n as int) == all);
    if count == 1 {
        match &list[last] {
            EntryKind::Folder(name) => Some(name.clone()),
            _ => None,
        }
    } else {
        None
    }
}

/// The name of the folder in which an update is prepared.
pub open spec fn work_name(pid: u32, stamp: u128) -> Seq<char> {
    "Vault64_update_"@ + decimal_text(pid as nat) + "_"@ + decimal_text(stamp as nat)
}

/// The name of the script that puts the update in place.
pub open spec fn script_name(pid: u32, stamp: u128) -> Seq<char> {
    "Vault64_updater_"@ + decimal_text(pid as nat) + "_"@ + decimal_text(stamp as nat) + ".ps1"@
}

/// A message that the update has come so far.
pub open spec fn update_progress(percent: u32, status: Seq<char>) -> ReportView {
    ReportView::Say(MsgView::AppUpdateProgress(Progress::At { percent }, status))
}

impl UpdateView {
    /// The folder in which the update is prepared.
    pub open spec fn work_dir(self) -> LocationView {
        folder(Base::SystemTemp).child(work_name(self.pid, self.stamp))
    }

    /// The script that puts the update in place.
    pub open spec fn script(self) -> LocationView {
        folder(Base::SystemTemp).child(script_name(self.pid, self.stamp))
    }

    /// The program as it is downloaded.
    pub open spec fn update_file(self) -> LocationView {
        self.work_dir().child("Vault64_update.exe"@)
    }

    /// The program as it is to be called.
    pub open spec fn final_exe(self) -> LocationView {
        self.work_dir().child(self.exe_name)
    }

    /// The packed files as they are downloaded.
    pub open spec fn archive_path(self, archive: Archive) -> LocationView {
        self.work_dir().child("update."@ + archive_ext(archive))
    }

    /// The folder into which the files are unpacked.
    pub open spec fn extract_dir(self) -> LocationView {
        self.work_dir().child("extracted"@)
    }

    /// The folder with the new files.
    pub open spec fn source_root(self) -> LocationView {
        match self.nested {
            Some(name) => self.extract_dir().child(name),
            None => self.extract_dir(),
        }
    }

    /// The download of the package.
    pub open spec fn download(self, package: Package) -> TransferView {
        match package {
            Package::Exe => transfer_begun(
                self.asset.browser_download_url,
                self.update_file(),
                self.asset.size,
                0,
                85,
                "Downloading update"@,
            ),
            Package::Packed(archive) => transfer_begun(
                self.asset.browser_download_url,
                self.archive_path(archive),
                self.asset.size,
                0,
                55,
                "Downloading update package"@,
            ),
        }
    }

    /// How the prepared update is put in place.
    pub open spec fn plan(self) -> PlanView {
        PlanView {
            script: self.script(),
            source: match self.package {
                Some(Package::Packed(_)) => self.source_root(),
                _ => self.work_dir(),
            },
            dest: folder(Base::ProgramDir),
            exe: self.exe_name,
            cleanup: self.work_dir(),
            mode: match self.package {
                Some(Package::Packed(_)) => "archive"@,
                _ => "exe"@,
            },
        }
    }

    /// What is to be done now.
    pub open spec fn pending(self) -> ActionView {
        match self.phase {
            UpdatePhase::MakeWorkDir => ActionView::CreateDir(self.work_dir()),
            UpdatePhase::Locate => ActionView::LocateProgram,
            UpdatePhase::WriteScript => ActionView::WriteScript(self.script()),
            UpdatePhase::Download => match self.transfer {
                Some(t) => t.pending(),
                None => ActionView::Stop,
            },
            UpdatePhase::ClearExe => ActionView::RemoveFile(self.final_exe()),
            UpdatePhase::RenameExe => ActionView::Rename(self.update_file(), self.final_exe()),
            UpdatePhase::MakeExtractDir => ActionView::CreateDir(self.extract_dir()),
            UpdatePhase::Unpack => match self.package {
                Some(Package::Packed(a)) => ActionView::Unpack(
                    a,
                    self.archive_path(a),
                    self.extract_dir(),
                ),
                _ => ActionView::Stop,
            },
            UpdatePhase::FindRoot => ActionView::ListDir(self.extract_dir()),
            UpdatePhase::CheckRoot => ActionView::CheckExists(self.source_root()),
            UpdatePhase::ListRoot => ActionView::ListDir(self.source_root()),
            UpdatePhase::Ready => ActionView::Stop,
            UpdatePhase::Failed => ActionView::Stop,
        }
    }

    /// The job in another phase.
    pub open spec fn at(self, phase: UpdatePhase) -> UpdateView {
        UpdateView { phase, ..self }
    }

    /// The job after its end, which is reported with a reason.
    pub open spec fn failed(self, reason: Seq<char>) -> (UpdateView, Seq<ReportView>) {
        (
            self.at(UpdatePhase::Failed),
            seq![ReportView::Say(MsgView::AppUpdateError(reason))],
        )
    }

    /// The job after an event, and what it reports. An event that does not tell
    /// what came of the pending action changes nothing.
    pub open spec fn next(self, event: EventView) -> (UpdateView, Seq<ReportView>) {
        let same = (self, Seq::<ReportView>::empty());
        match self.phase {
            UpdatePhase::MakeWorkDir => match event {
                EventView::Done => (self.at(UpdatePhase::Locate), seq![]),
                EventView::Failed(e) => self.failed(
                    "Could not create temporary update folder: "@ + e,
                ),
                _ => same,
            },
            UpdatePhase::Locate => match event {
                EventView::Program(name) => (
                    UpdateView { exe_name: name, phase: UpdatePhase::WriteScript, ..self },
                    seq![],
                ),
                EventView::NoProgramDir => self.failed("Could not find program directory"@),
                EventView::NoProgramName => self.failed("Could not find executable name"@),
                EventView::Failed(e) => self.failed(e),
                _ => same,
            },
            UpdatePhase::WriteScript => match event {
                EventView::Done => match self.package {
                    Some(package) => (
                        UpdateView {
                            transfer: Some(self.download(package)),
                            phase: UpdatePhase::Download,
                            ..self
                        },
                        seq![],
                    ),
                    None => self.failed(
                        "No supported update package found. Expected .7z or .zip"@,
                    ),
                },
                EventView::Failed(e) => self.failed("Could not write updater script: "@ + e),
                _ => same,
            },
            UpdatePhase::Download => match self.transfer {
                Some(t) => {
                    let (t2, step) = t.next(event);
                    let job = UpdateView { transfer: Some(t2), ..self };
                    match step {
                        TransferStepView::Going(reports) => (job, reports),
                        TransferStepView::Complete => match self.package {
                            Some(Package::Packed(_)) => (
                                job.at(UpdatePhase::MakeExtractDir),
                                seq![],
                            ),
                            _ => (job.at(UpdatePhase::ClearExe), seq![]),
                        },
                        TransferStepView::Failed(e) => job.failed(e),
                    }
                },
                None => same,
            },
            UpdatePhase::ClearExe => match event {
                EventView::Done | EventView::Failed(_) => (self.at(UpdatePhase::RenameExe), seq![]),
                _ => same,
            },
            UpdatePhase::RenameExe => match event {
                EventView::Done => (
                    self.at(UpdatePhase::Ready),
                    seq![
                        update_progress(98, "Restarting..."@),
                        ReportView::Say(MsgView::AppUpdateReady(self.plan())),
                    ],
                ),
                EventView::Failed(e) => self.failed("Could not prepare update executable: "@ + e),
                _ => same,
            },
            UpdatePhase::MakeExtractDir => match event {
                EventView::Done => (
                    self.at(UpdatePhase::Unpack),
                    seq![update_progress(60, "Extracting update files..."@)],
                ),
                EventView::Failed(e) => self.failed("Could not create extraction folder: "@ + e),
                _ => same,
            },
            UpdatePhase::Unpack => match event {
                EventView::Done => (self.at(UpdatePhase::FindRoot), seq![]),
                EventView::Failed(e) => if self.package == Some(
                    Package::Packed(Archive::SevenZip),
                ) {
                    self.failed("7z extraction failed: "@ + e)
                } else {
                    self.failed(e)
                },
                _ => same,
            },
            UpdatePhase::FindRoot => match event {
                EventView::Entries(entries) => (
                    UpdateView {
                        nested: sole_folder(entries),
                        phase: UpdatePhase::CheckRoot,
                        ..self
                    },
                    seq![],
                ),
                EventView::Failed(_) => (
                    UpdateView { nested: None, phase: UpdatePhase::CheckRoot, ..self },
                    seq![],
                ),
                _ => same,
            },
            UpdatePhase::CheckRoot => match event {
                EventView::Done => (self.at(UpdatePhase::ListRoot), seq![]),
                EventView::Failed(_) => self.failed("Extracted update folder was not found"@),
                _ => same,
            },
            UpdatePhase::ListRoot => match event {
                EventView::Entries(entries) => if entries.len() == 0 {
                    self.failed("Update archive is empty"@)
                } else {
                    (
                        self.at(UpdatePhase::Ready),
                        seq![
                            update_progress(90, "Preparing updater's script..."@),
                            update_progress(98, "Restarting..."@),
                            ReportView::Say(MsgView::AppUpdateReady(self.plan())),
                        ],
                    )
                },
                EventView::Failed(e) => self.failed(
                    "Could not read extracted update folder: "@ + e,
                ),
                _ => same,
            },
            UpdatePhase::Ready => same,
            UpdatePhase::Failed => same,
        }
    }

    /// The number of bytes downloaded can still be counted.
    pub open spec fn countable(self) -> bool {
        self.transfer matches Some(t) ==> t.countable()
    }
}

/// The job that prepares an update, before its first action.
pub open spec fn update_begun(
    asset: AssetView,
    package: Option<Package>,
    pid: u32,
    stamp: u128,
) -> UpdateView {
    UpdateView {
        asset,
        package,
        pid,
        stamp,
        exe_name: Seq::empty(),
        transfer: None,
        nested: None,
        phase: UpdatePhase::MakeWorkDir,
    }
}

/// A report that the update has come so far.
fn progress_report(percent: u32, status: &str) -> (r: Report)
    ensures
        r@ == update_progress(percent, status@),
{
    Report::Say(AppMsg::AppUpdateProgress(Progress::At { percent }, status.to_owned()))
}

impl UpdateJob {
    /// The job that prepares an update from a file of a release. What kind of
    /// package a file is whose name holds a `\` or a `:`, or begins with two
    /// slashes, depends on the system.
    pub fn new(asset: GithubAsset, pid: u32, stamp: u128) -> (r: UpdateJob)
        ensures
            r@ == update_begun(asset@, r.package, pid, stamp),
            portable_name(asset@.name) ==> r.package == kind_of_extension(extension(asset@.name)),
            portable_name(asset@.name) && is_ascii_chars(asset@.name) ==> r.package
                == kind_of_ascii_extension(extension(asset@.name)),
    {
        let package: Option<Package> = file_kind(asset.name.as_str());
        Self::with_package(asset, package, pid, stamp)
    }

    /// The job that prepares an update from a file that is a package of the
    /// given kind, or of none.
    pub fn with_package(
        asset: GithubAsset,
        package: Option<Package>,
        pid: u32,
        stamp: u128,
    ) -> (r: UpdateJob)
        ensures
            r@ == update_begun(asset@, package, pid, stamp),
    {
        UpdateJob {
            asset,
            package,
            pid,
            stamp,
            exe_name: String::new(),
            transfer: None,
            nested: None,
            phase: UpdatePhase::MakeWorkDir,
        }
    }

    fn work_dir(&self) -> (r: Location)
        ensures
            r@ == self@.work_dir(),
    {
        let mut name: String = "Vault64_update_".to_owned();
        name.append(decimal(self.pid as u128).as_str());
        name.append("_");
        name.append(decimal(self.stamp).as_str());
        Location::folder(Base::SystemTemp).child(name.as_str())
    }

    fn script(&self) -> (r: Location)
        ensures
            r@ == self@.script(),
    {
        let mut name: String = "Vault64_updater_".to_owned();
        name.append(decimal(self.pid as u128).as_str());
        name.append("_");
        name.append(decimal(self.stamp).as_str());
        name.append(".ps1");
        Location::folder(Base::SystemTemp).child(name.as_str())
    }

    fn archive_path(&self, archive: Archive) -> (r: Location)
        ensures
            r@ == self@.archive_path(archive),
    {
        let name: String = join("update.", ext_of(archive));
        self.work_dir().child(name.as_str())
    }

    fn extract_dir(&self) -> (r: Location)
        ensures
            r@ == self@.extract_dir(),
    {
        self.work_dir().child("extracted")
    }

    fn source_root(&self) -> (r: Location)
        ensures
            r@ == self@.source_root(),
    {
        match &self.nested {
            Some(name) => self.extract_dir().child(name.as_str()),
            None => self.extract_dir(),
        }
    }

    fn download(&self, package: Package) -> (r: Transfer)
        ensures
            r@ == self@.download(package),
    {
        let url: String = self.asset.browser_download_url.clone();
        match package {
            Package::Exe => Transfer::new(
                url,
                self.work_dir().child("Vault64_update.exe"),
                self.asset.size,
                0,
                85,
                "Downloading update",
            ),
            Package::Packed(archive) => Transfer::new(
                url,
                self.archive_path(archive),
                self.asset.size,
                0,
                55,
                "Downloading update package",
            ),
        }
    }

    fn plan(&self) -> (r: UpdatePlan)
        ensures
            r@ == self@.plan(),
    {
        let packed: bool = match self.package {
            Some(Package::Packed(_)) => true,
            _ => false,
        };
        UpdatePlan {
            script: self.script(),
            source: if packed {
                self.source_root()
            } else {
                self.work_dir()
            },
            dest: Location::folder(Base::ProgramDir),
            exe: self.exe_name.clone(),
            cleanup: self.work_dir(),
            mode: if packed {
                "archive".to_owned()
            } else {
                "exe".to_owned()
            },
        }
    }

    /// What is to be done now.
    pub fn action(&self) -> (r: JobAction)
        ensures
            r@ == self@.pending(),
    {
        match self.phase {
            UpdatePhase::MakeWorkDir => JobAction::CreateDir(self.work_dir()),
            UpdatePhase::Locate => JobAction::LocateProgram,
            UpdatePhase::WriteScript => JobAction::WriteScript(self.script()),
            UpdatePhase::Download => match &self.transfer {
                Some(t) => t.action(),
                None => JobAction::Stop,
            },
            UpdatePhase::ClearExe => JobAction::RemoveFile(
                self.work_dir().child(self.exe_name.as_str()),
            ),
            UpdatePhase::RenameExe => JobAction::Rename(
                self.work_dir().child("Vault64_update.exe"),
                self.work_dir().child(self.exe_name.as_str()),
            ),
            UpdatePhase::MakeExtractDir => JobAction::CreateDir(self.extract_dir()),
            UpdatePhase::Unpack => match self.package {
                Some(Package::Packed(a)) => JobAction::Unpack(
                    a,
                    self.archive_path(a),
                    self.extract_dir(),
                ),
                _ => JobAction::Stop,
            },
            UpdatePhase::FindRoot => JobAction::ListDir(self.extract_dir()),
            UpdatePhase::CheckRoot => JobAction::CheckExists(self.source_root()),
            UpdatePhase::ListRoot => JobAction::ListDir(self.source_root()),
            UpdatePhase::Ready => JobAction::Stop,
            UpdatePhase::Failed => JobAction::Stop,
        }
    }

    fn fail(&mut self, reason: String) -> (r: Vec<Report>)
        ensures
            final(self)@ == old(self)@.failed(reason@).0,
            views(r@) == old(self)@.failed(reason@).1,
    {
        self.phase = UpdatePhase::Failed;
        let mut r: Vec<Report> = Vec::new();
        r.push(Report::Say(AppMsg::AppUpdateError(reason)));
        assert(views(r@) == old(self)@.failed(reason@).1);
        r
    }

    fn step_download(&mut self, event: JobEvent) -> (r: Vec<Report>)
        requires
            old(self)@.countable(),
            old(self).phase == UpdatePhase::Download,
        ensures
            final(self)@ == old(self)@.next(event@).0,
            views(r@) == old(self)@.next(event@).1,
    {
        let r: Vec<Report> = Vec::new();
        assert(views(r@) == Seq::<ReportView>::empty());
        match self.transfer.take() {
            Some(mut transfer) => {
                let step: TransferStep = transfer.step(event);
                self.transfer = Some(transfer);
                match step {
                    TransferStep::Going(reports) => reports,
                    TransferStep::Complete => {
                        self.phase = match self.package {
                            Some(Package::Packed(_)) => UpdatePhase::MakeExtractDir,
                            _ => UpdatePhase::ClearExe,
                        };
                        r
                    },
                    TransferStep::Failed(e) => self.fail(e),
                }
            },
            None => r,
        }
    }

    /// Takes in what came of the pending action and tells what to report.
    pub fn step(&mut self, event: JobEvent) -> (r: Vec<Report>)
        requires
            old(self)@.countable(),
        ensures
            final(self)@ == old(self)@.next(event@).0,
            views(r@) == old(self)@.next(event@).1,
    {
        let mut r: Vec<Report> = Vec::new();
        match self.phase {
            UpdatePhase::MakeWorkDir => match event {
                JobEvent::Done => {
                    self.phase = UpdatePhase::Locate;
                },
                JobEvent::Failed(e) => {
                    return self.fail(
                        join("Could not create temporary update folder: ", e.as_str()),
                    );
                },
                _ => {},
            },
            UpdatePhase::Locate => match event {
                JobEvent::Program(name) => {
                    self.exe_name = name;
                    self.phase = UpdatePhase::WriteScript;
                },
                JobEvent::NoProgramDir => {
                    return self.fail("Could not find program directory".to_owned());
                },
                JobEvent::NoProgramName => {
                    return self.fail("Could not find executable name".to_owned());
                },
                JobEvent::Failed(e) => {
                    return self.fail(e);
                },
                _ => {},
            },
            UpdatePhase::WriteScript => match event {
                JobEvent::Done => match self.package {
                    Some(package) => {
                        self.transfer = Some(self.download(package));
                        self.phase = UpdatePhase::Download;
                    },
                    None => {
                        return self.fail(
                            "No supported update package found. Expected .7z or .zip".to_owned(),
                        );
                    },
                },
                JobEvent::Failed(e) => {
                    return self.fail(join("Could not write updater script: ", e.as_str()));
                },
                _ => {},
            },
            UpdatePhase::Download => {
                return self.step_download(event);
            },
            UpdatePhase::ClearExe => match event {
                JobEvent::Done | JobEvent::Failed(_) => {
                    self.phase = UpdatePhase::RenameExe;
                },
                _ => {},
            },
            UpdatePhase::RenameExe => match event {
                JobEvent::Done => {
                    r.push(progress_report(98, "Restarting..."));
                    r.push(Report::Say(AppMsg::AppUpdateReady(self.plan())));
                    self.phase = UpdatePhase::Ready;
                },
                JobEvent::Failed(e) => {
                    return self.fail(join("Could not prepare update executable: ", e.as_str()));
                },
                _ => {},
            },
            UpdatePhase::MakeExtractDir => match event {
                JobEvent::Done => {
                    self.phase = UpdatePhase::Unpack;
                    r.push(progress_report(60, "Extracting update files..."));
                },
                JobEvent::Failed(e) => {
                    return self.fail(join("Could not create extraction folder: ", e.as_str()));
                },
                _ => {},
            },
            UpdatePhase::Unpack => match event {
                JobEvent::Done => {
                    self.phase = UpdatePhase::FindRoot;
                },
                JobEvent::Failed(e) => {
                    let seven: bool = match self.package {
                        Some(Package::Packed(Archive::SevenZip)) => true,
                        _ => false,
                    };
                    if seven {
                        return self.fail(join("7z extraction failed: ", e.as_str()));
                    } else {
                        return self.fail(e);
                    }
                },
                _ => {},
            },
            UpdatePhase::FindRoot => match event {
                JobEvent::Entries(entries) => {
                    self.nested = resolve_extract_root(&Some(entries));
                    self.phase = UpdatePhase::CheckRoot;
                },
                JobEvent::Failed(_) => {
                    self.nested = resolve_extract_root(&None);
                    self.phase = UpdatePhase::CheckRoot;
                },
                _ => {},
            },
            UpdatePhase::CheckRoot => match event {
                JobEvent::Done => {
                    self.phase = UpdatePhase::ListRoot;
                },
                JobEvent::Failed(_) => {
                    return self.fail("Extracted update folder was not found".to_owned());
                },
                _ => {},
            },
            UpdatePhase::ListRoot => match event {
                JobEvent::Entries(entries) => {
                    if entries.len() == 0 {
                        return self.fail("Update archive is empty".to_owned());
                    }
                    r.push(progress_report(90, "Preparing updater's script..."));
                    r.push(progress_report(98, "Restarting..."));
                    r.push(Report::Say(AppMsg::AppUpdateReady(self.plan())));
                    self.phase = UpdatePhase::Ready;
                },
                JobEvent::Failed(e) => {
                    return self.fail(join("Could not read extracted update folder: ", e.as_str()));
                },
                _ => {},
            },
            UpdatePhase::Ready => {},
            UpdatePhase::Failed => {},
        }
        assert(views(r@) == old(self)@.next(event@).1);
        r
    }
}

impl UpdateView {
    /// The job after a series of events.
    pub open spec fn run(self, events: Seq<EventView>) -> UpdateView
        decreases events.len(),
    {
        if events.len() == 0 {
            self
        } else {
            self.run(events.drop_last()).next(events.last()).0
        }
    }

    /// What the job reports in the course of a series of events.
    pub open spec fn run_reports(self, events: Seq<EventView>) -> Seq<ReportView>
        decreases events.len(),
    {
        if events.len() == 0 {
            Seq::empty()
        } else {
            self.run_reports(events.drop_last()) + self.run(events.drop_last()).next(
                events.last(),
            ).1
        }
    }

    /// Whether the job has ended.
    pub open spec fn ended(self) -> bool {
        self.phase == UpdatePhase::Ready || self.phase == UpdatePhase::Failed
    }

    /// Whether the download is over and the preparation goes on.
    pub open spec fn past_download(self) -> bool {
        match self.phase {
            UpdatePhase::MakeWorkDir => false,
            UpdatePhase::Locate => false,
            UpdatePhase::WriteScript => false,
            UpdatePhase::Download => false,
            UpdatePhase::Failed => false,
            _ => true,
        }
    }

    /// Whether a download goes into the file meant for it, and is whole once it
    /// is over, after which the steps are those for the kind of package.
    spec fn sound(self) -> bool {
        &&& (self.phase is ClearExe || self.phase is RenameExe) ==> self.package == Some(
            Package::Exe,
        )
        &&& (self.phase is MakeExtractDir || self.phase is Unpack || self.phase is FindRoot
            || self.phase is CheckRoot || self.phase is ListRoot) ==> (self.package matches Some(
            Package::Packed(_),
        ))
        &&& self.transfer matches Some(t) ==> (self.package matches Some(p) && t.path
            == self.download(p).path && t.expected_size == self.asset.size)
        &&& self.past_download() ==> (self.transfer matches Some(t) && (t.expected_size == 0
            || t.downloaded >= t.expected_size))
    }
}

/// Whether a report says that the preparation is over.
pub open spec fn says_over(report: ReportView) -> bool {
    match report {
        ReportView::Say(MsgView::AppUpdateReady(_)) => true,
        ReportView::Say(MsgView::AppUpdateError(_)) => true,
        _ => false,
    }
}

/// In the course of a job its package and its folders stay the same, and its
/// download is sound.
proof fn lemma_update_run(job: UpdateView, events: Seq<EventView>)
    requires
        job.sound(),
    ensures
        job.run(events).asset == job.asset,
        job.run(events).package == job.package,
        job.run(events).pid == job.pid,
        job.run(events).stamp == job.stamp,
        job.run(events).sound(),
    decreases events.len(),
{
    if events.len() > 0 {
        lemma_update_run(job, events.drop_last());
    }
}

/// While an update is prepared nothing changes but in the system's folder for
/// temporary files.
pub proof fn law_update_stays_in_temp_folder(
    asset: AssetView,
    package: Option<Package>,
    pid: u32,
    stamp: u128,
    events: Seq<EventView>,
)
    ensures
        update_begun(asset, package, pid, stamp).run(events).pending().writes_within(
            folder(Base::SystemTemp),
        ),
{
    lemma_update_run(update_begun(asset, package, pid, stamp), events);
}

/// An update is reported as ready only if it was downloaded as a whole: with
/// the size that its file should have, where that is known.
pub proof fn law_ready_updates_are_whole(
    asset: AssetView,
    package: Option<Package>,
    pid: u32,
    stamp: u128,
    events: Seq<EventView>,
)
    requires
        update_begun(asset, package, pid, stamp).run(events).phase == UpdatePhase::Ready,
    ensures
        package is Some,
        update_begun(asset, package, pid, stamp).run(events).transfer matches Some(t) && (asset.size
            == 0 || t.downloaded >= asset.size),
{
    lemma_update_run(update_begun(asset, package, pid, stamp), events);
}

/// A job reports its end once, as the last thing it reports, and it does so
/// exactly when it has ended.
pub proof fn law_update_end_reported_once(
    asset: AssetView,
    package: Option<Package>,
    pid: u32,
    stamp: u128,
    events: Seq<EventView>,
)
    ensures
        ({
            let begun = update_begun(asset, package, pid, stamp);
            let reports = begun.run_reports(events);
            &&& begun.run(events).ended() ==> reports.len() > 0
            &&& forall|i: int|
                0 <= i < reports.len() ==> (says_over(#[trigger] reports[i]) <==> begun.run(
                    events,
                ).ended() && i == reports.len() - 1)
        }),
    decreases events.len(),
{
    if events.len() > 0 {
        law_update_end_reported_once(asset, package, pid, stamp, events.drop_last());
        let begun = update_begun(asset, package, pid, stamp);
        let earlier = begun.run(events.drop_last());
        let said = begun.run_reports(events.drop_last());
        let new = earlier.next(events.last()).1;
        let reports = begun.run_reports(events);
        assert(reports == said + new);
        assert forall|i: int| 0 <= i < reports.len() implies (says_over(#[trigger] reports[i])
            <==> begun.run(events).ended() && i == reports.len() - 1) by {
            if i < said.len() {
                assert(reports[i] == said[i]);
            } else {
                assert(reports[i] == new[i - said.len()]);
            }
        }
    }
}

/// The updater's script lies outside the folder that it deletes, so it is not
/// removed halfway.
pub proof fn law_script_survives_cleanup(job: UpdateView)
    ensures
        !job.plan().script.overlaps(job.plan().cleanup),
{
    reveal_strlit("Vault64_update_");
    reveal_strlit("Vault64_updater_");
    let a = work_name(job.pid, job.stamp);
    let b = script_name(job.pid, job.stamp);
    assert(a[14] == '_');
    assert(b[14] == 'r');
    assert(job.script().parts[0] == b);
    assert(job.work_dir().parts[0] == a);
}

/// A plan takes the new files from the folder that is deleted afterwards or from
/// a folder in it. A plan of mode `exe` takes them from that folder itself.
pub proof fn law_plan_source_is_prepared(job: UpdateView)
    ensures
        job.plan().source.within(job.plan().cleanup),
        job.plan().mode == "exe"@ || job.plan().mode == "archive"@,
        job.plan().mode == "exe"@ ==> job.plan().source == job.plan().cleanup,
        job.plan().mode == "archive"@ ==> job.plan().source.within(job.extract_dir()),
{
    reveal_strlit("exe");
    reveal_strlit("archive");
    assert("exe"@.len() != "archive"@.len());
}

/// Jobs of different processes, or begun at different times, work in different
/// folders and use different scripts.
pub proof fn law_jobs_have_their_own_folders(pid: u32, stamp: u128, pid2: u32, stamp2: u128)
    requires
        pid != pid2 || stamp != stamp2,
    ensures
        work_name(pid, stamp) != work_name(pid2, stamp2),
        script_name(pid, stamp) != script_name(pid2, stamp2),
{
    reveal_strlit("Vault64_update_");
    reveal_strlit("Vault64_updater_");
    reveal_strlit("_");
    reveal_strlit(".ps1");
    let tail = decimal_text(pid as nat) + "_"@ + decimal_text(stamp as nat);
    let tail2 = decimal_text(pid2 as nat) + "_"@ + decimal_text(stamp2 as nat);
    let n = tail.len();
    let n2 = tail2.len();
    assert(work_name(pid, stamp).skip(15) == tail);
    assert(work_name(pid2, stamp2).skip(15) == tail2);
    let s = script_name(pid, stamp);
    let s2 = script_name(pid2, stamp2);
    assert(s.subrange(16, s.len() - 4) == tail);
    assert(s2.subrange(16, s2.len() - 4) == tail2);
    if tail == tail2 {
        lemma_two_numbers(pid as nat, stamp as nat);
        lemma_two_numbers(pid2 as nat, stamp2 as nat);
        let k = first_index(tail, '_');
        assert(tail.take(k) == decimal_text(pid as nat));
        assert(tail.skip(k + 1) == decimal_text(stamp as nat));
        law_decimal_injective(pid as nat, pid2 as nat);
        law_decimal_injective(stamp as nat, stamp2 as nat);
    }
}

/// Two numbers with a `_` between them are told apart by it.
proof fn lemma_two_numbers(a: nat, b: nat)
    ensures
        ({
            let t = decimal_text(a) + "_"@ + decimal_text(b);
            let k = first_index(t, '_');
            &&& k == decimal_text(a).len()
            &&& t.take(k) == decimal_text(a)
            &&& t.skip(k + 1) == decimal_text(b)
        }),
{
    reveal_strlit("_");
    let d = decimal_text(a);
    let t = d + "_"@ + decimal_text(b);
    lemma_decimal_value(a);
    assert forall|j: int| 0 <= j < d.len() implies t[j] != '_' by {
        assert(t[j] == d[j]);
        assert(digit(d[j]));
    }
    assert(t[d.len() as int] == '_');
    lemma_first_index_is(t, '_', d.len() as int);
    assert(t.take(d.len() as int) == d);
    assert(t.skip(d.len() as int + 1) == decimal_text(b));
}

/// A series of events can be taken in one part after the other.
proof fn lemma_run_parts(job: UpdateView, a: Seq<EventView>, b: Seq<EventView>)
    ensures
        job.run(a + b) == job.run(a).run(b),
    decreases b.len(),
{
    if b.len() == 0 {
        assert(a + b == a);
    } else {
        assert((a + b).drop_last() == a + b.drop_last());
        lemma_run_parts(job, a, b.drop_last());
    }
}

/// One event is one step, and two are two.
proof fn lemma_run_short(job: UpdateView, a: EventView, b: EventView)
    ensures
        job.run(seq![a]) == job.next(a).0,
        job.run(seq![a, b]) == job.next(a).0.next(b).0,
{
    assert(seq![a].drop_last() == Seq::<EventView>::empty());
    assert(job.run(seq![a].drop_last()) == job);
    assert(seq![a, b].drop_last() == seq![a]);
}

/// What a download in parts of so many bytes tells.
pub open spec fn chunk_events(chunks: Seq<u64>) -> Seq<EventView>
    decreases chunks.len(),
{
    if chunks.len() == 0 {
        seq![]
    } else {
        chunk_events(chunks.drop_last()) + seq![
            EventView::Received(chunks.last()),
            EventView::Written(0),
        ]
    }
}

/// The number of bytes in the parts.
pub open spec fn chunks_total(chunks: Seq<u64>) -> int
    decreases chunks.len(),
{
    if chunks.len() == 0 {
        0
    } else {
        chunks_total(chunks.drop_last()) + chunks.last()
    }
}

/// The events of a preparation in which nothing goes wrong.
pub open spec fn smooth_events(
    package: Package,
    exe_name: Seq<char>,
    code: u16,
    chunks: Seq<u64>,
    unpacked: Seq<KindView>,
    root: Seq<KindView>,
) -> Seq<EventView> {
    seq![EventView::Done, EventView::Program(exe_name)] + seq![
        EventView::Done,
        EventView::Answered(code),
    ] + seq![EventView::Done] + chunk_events(chunks) + seq![EventView::Received(0), EventView::Done]
        + (match package {
        Package::Exe => seq![EventView::Done],
        Package::Packed(_) => seq![EventView::Done, EventView::Entries(unpacked)] + seq![
            EventView::Done,
            EventView::Entries(root),
        ],
    })
}

/// Parts that are received and written are counted.
proof fn lemma_chunks_are_counted(job: UpdateView, chunks: Seq<u64>)
    requires
        job.phase == UpdatePhase::Download,
        job.transfer matches Some(t) && t.phase == TransferPhase::Read,
        forall|i: int| 0 <= i < chunks.len() ==> #[trigger] chunks[i] > 0,
    ensures
        job.run(chunk_events(chunks)) == (UpdateView {
            transfer: Some(
                TransferView {
                    downloaded: job.transfer->0.downloaded + chunks_total(chunks),
                    ..job.transfer->0
                },
            ),
            ..job
        }),
    decreases chunks.len(),
{
    if chunks.len() > 0 {
        let earlier = chunks.drop_last();
        assert forall|i: int| 0 <= i < earlier.len() implies #[trigger] earlier[i] > 0 by {
            assert(earlier[i] == chunks[i]);
        }
        lemma_chunks_are_counted(job, earlier);
        let received = EventView::Received(chunks.last());
        let written = EventView::Written(0);
        lemma_run_parts(job, chunk_events(earlier), seq![received, written]);
        lemma_run_short(job.run(chunk_events(earlier)), received, written);
    }
}

/// A preparation begins with the folder, the program and the script, after
/// which the download is under way.
proof fn lemma_smooth_start(job: UpdateView, package: Package, exe_name: Seq<char>, code: u16)
    requires
        job == update_begun(job.asset, Some(package), job.pid, job.stamp),
        success(code),
    ensures
        ({
            let events = seq![EventView::Done, EventView::Program(exe_name)] + seq![
                EventView::Done,
                EventView::Answered(code),
            ] + seq![EventView::Done];
            let after = job.run(events);
            &&& after.phase == UpdatePhase::Download
            &&& after.package == Some(package)
            &&& after.transfer matches Some(t) && t.phase == TransferPhase::Read && t.downloaded
                == 0 && t.expected_size == job.asset.size
        }),
{
    let done = EventView::Done;
    let program = EventView::Program(exe_name);
    let answered = EventView::Answered(code);
    let a = seq![done, program];
    let b = a + seq![done, answered];
    lemma_run_short(job, done, program);
    assert(job.run(a).phase == UpdatePhase::WriteScript);
    lemma_run_parts(job, a, seq![done, answered]);
    lemma_run_short(job.run(a), done, answered);
    assert(job.run(b).phase == UpdatePhase::Download);
    lemma_run_parts(job, b, seq![done]);
    lemma_run_short(job.run(b), done, done);
}

/// A download that has come as a whole is followed by the next step.
proof fn lemma_smooth_download(job: UpdateView, package: Package, chunks: Seq<u64>)
    requires
        job.phase == UpdatePhase::Download,
        job.package == Some(package),
        job.transfer matches Some(t) && t.phase == TransferPhase::Read && t.downloaded == 0
            && chunks_total(chunks) >= t.expected_size,
        forall|i: int| 0 <= i < chunks.len() ==> #[trigger] chunks[i] > 0,
    ensures
        ({
            let events = chunk_events(chunks) + seq![EventView::Received(0), EventView::Done];
            let after = job.run(events);
            &&& after.package == Some(package)
            &&& after.phase == (match package {
                Package::Exe => UpdatePhase::RenameExe,
                Package::Packed(_) => UpdatePhase::Unpack,
            })
        }),
{
    let received = EventView::Received(0);
    let done = EventView::Done;
    lemma_chunks_are_counted(job, chunks);
    lemma_run_parts(job, chunk_events(chunks), seq![received, done]);
    lemma_run_short(job.run(chunk_events(chunks)), received, done);
}

/// Files that were unpacked and found make the update ready.
proof fn lemma_smooth_unpacking(job: UpdateView, unpacked: Seq<KindView>, root: Seq<KindView>)
    requires
        job.phase == UpdatePhase::Unpack,
        root.len() > 0,
    ensures
        job.run(
            seq![EventView::Done, EventView::Entries(unpacked)] + seq![
                EventView::Done,
                EventView::Entries(root),
            ],
        ).phase == UpdatePhase::Ready,
{
    let done = EventView::Done;
    let listed = EventView::Entries(unpacked);
    let seen = EventView::Entries(root);
    lemma_run_parts(job, seq![done, listed], seq![done, seen]);
    lemma_run_short(job, done, listed);
    lemma_run_short(job.run(seq![done, listed]), done, seen);
}

/// A preparation of a supported package in which nothing goes wrong, in which
/// the whole file comes and in which something was unpacked, ends with the
/// update ready.
pub proof fn law_smooth_update_is_ready(
    asset: AssetView,
    package: Package,
    pid: u32,
    stamp: u128,
    exe_name: Seq<char>,
    code: u16,
    chunks: Seq<u64>,
    unpacked: Seq<KindView>,
    root: Seq<KindView>,
)
    requires
        success(code),
        forall|i: int| 0 <= i < chunks.len() ==> #[trigger] chunks[i] > 0,
        chunks_total(chunks) >= asset.size,
        root.len() > 0,
    ensures
        update_begun(asset, Some(package), pid, stamp).run(
            smooth_events(package, exe_name, code, chunks, unpacked, root),
        ).phase == UpdatePhase::Ready,
{
    let job = update_begun(asset, Some(package), pid, stamp);
    let done = EventView::Done;
    let start = seq![done, EventView::Program(exe_name)] + seq![done, EventView::Answered(code)]
        + seq![done];
    let download = chunk_events(chunks) + seq![EventView::Received(0), done];
    let finish = match package {
        Package::Exe => seq![done],
        Package::Packed(_) => seq![done, EventView::Entries(unpacked)] + seq![
            done,
            EventView::Entries(root),
        ],
    };
    let all = smooth_events(package, exe_name, code, chunks, unpacked, root);
    assert(all == start + (download + finish));
    lemma_smooth_start(job, package, exe_name, code);
    lemma_smooth_download(job.run(start), package, chunks);
    let prepared = job.run(start).run(download);
    lemma_run_parts(job, start, download + finish);
    lemma_run_parts(job.run(start), download, finish);
    match package {
        Package::Exe => {
            lemma_run_short(prepared, done, done);
        },
        Package::Packed(_) => {
            lemma_smooth_unpacking(prepared, unpacked, root);
        },
    }
}

impl UpdateView {
    /// Whether, in the course of a series of events, the job asks for an action
    /// and the event at position `k` tells what came of it.
    pub open spec fn asks_at(self, events: Seq<EventView>, k: int, action: ActionView) -> bool {
        0 <= k < events.len() && self.run(events.take(k)).pending() == action
    }
}

/// What a job asked for in the course of some events it also asked for in the
/// course of these and one more.
proof fn lemma_asks_longer(job: UpdateView, events: Seq<EventView>, k: int, action: ActionView)
    requires
        events.len() > 0,
        job.asks_at(events.drop_last(), k, action),
    ensures
        job.asks_at(events, k, action),
        events[k] == events.drop_last()[k],
{
    assert(events.take(k) == events.drop_last().take(k));
}

/// A job that is past finding the program has been told the program's name.
proof fn lemma_program_was_told(job: UpdateView, events: Seq<EventView>)
    requires
        job.phase == UpdatePhase::MakeWorkDir,
        !(job.run(events).phase is MakeWorkDir),
        !(job.run(events).phase is Locate),
        !(job.run(events).phase is Failed),
    ensures
        exists|k: int| #[trigger]
            job.asks_at(events, k, ActionView::LocateProgram) && events[k] == EventView::Program(
                job.run(events).exe_name,
            ),
    decreases events.len(),
{
    let earlier = events.drop_last();
    let before = job.run(earlier);
    if before.phase is Locate {
        assert(events.take(events.len() - 1) == earlier);
        assert(job.asks_at(events, events.len() - 1, ActionView::LocateProgram));
    } else {
        lemma_program_was_told(job, earlier);
        let k = choose|k: int| #[trigger]
            job.asks_at(earlier, k, ActionView::LocateProgram) && earlier[k] == EventView::Program(
                before.exe_name,
            );
        lemma_asks_longer(job, events, k, ActionView::LocateProgram);
    }
}

/// A job that is past writing the updater's script has written it.
proof fn lemma_script_was_written(job: UpdateView, events: Seq<EventView>)
    requires
        job.sound(),
        job.phase == UpdatePhase::MakeWorkDir,
        !(job.run(events).phase is MakeWorkDir),
        !(job.run(events).phase is Locate),
        !(job.run(events).phase is WriteScript),
        !(job.run(events).phase is Failed),
    ensures
        exists|k: int| #[trigger]
            job.asks_at(events, k, ActionView::WriteScript(job.script())) && events[k] is Done,
    decreases events.len(),
{
    let earlier = events.drop_last();
    let script = ActionView::WriteScript(job.script());
    lemma_update_run(job, earlier);
    if job.run(earlier).phase is WriteScript {
        assert(events.take(events.len() - 1) == earlier);
        assert(job.asks_at(events, events.len() - 1, script));
    } else {
        lemma_script_was_written(job, earlier);
        let k = choose|k: int| #[trigger] job.asks_at(earlier, k, script) && earlier[k] is Done;
        lemma_asks_longer(job, events, k, script);
    }
}

/// A job whose update is ready has moved the program to where its plan takes it
/// from, or has found something where its plan takes the files from, and has
/// reported its plan last.
proof fn lemma_ready_was_prepared(job: UpdateView, events: Seq<EventView>)
    requires
        job.sound(),
        job.phase == UpdatePhase::MakeWorkDir,
        job.run(events).phase == UpdatePhase::Ready,
    ensures
        ({
            let after = job.run(events);
            let plan = after.plan();
            let moved = ActionView::Rename(after.update_file(), plan.source.child(plan.exe));
            &&& job.run_reports(events).len() > 0
            &&& job.run_reports(events).last() == ReportView::Say(MsgView::AppUpdateReady(plan))
            &&& job.package == Some(Package::Exe) ==> exists|k: int| #[trigger]
                job.asks_at(events, k, moved) && events[k] is Done
            &&& job.package != Some(Package::Exe) ==> exists|k: int| #[trigger]
                job.asks_at(events, k, ActionView::ListDir(plan.source)) && (
                events[k] matches EventView::Entries(entries) && entries.len() > 0)
        }),
    decreases events.len(),
{
    let n = events.len() - 1;
    let earlier = events.drop_last();
    let before = job.run(earlier);
    let after = job.run(events);
    let plan = after.plan();
    let moved = ActionView::Rename(after.update_file(), plan.source.child(plan.exe));
    let listed = ActionView::ListDir(plan.source);
    lemma_update_run(job, earlier);
    assert(events.take(n) == earlier);
    if before.phase == UpdatePhase::Ready {
        lemma_ready_was_prepared(job, earlier);
        assert(job.run_reports(events) == job.run_reports(earlier));
        if job.package == Some(Package::Exe) {
            let k = choose|k: int| #[trigger] job.asks_at(earlier, k, moved) && earlier[k] is Done;
            lemma_asks_longer(job, events, k, moved);
        } else {
            let k = choose|k: int| #[trigger]
                job.asks_at(earlier, k, listed) && (
                earlier[k] matches EventView::Entries(entries) && entries.len() > 0);
            lemma_asks_longer(job, events, k, listed);
        }
    } else if before.phase == UpdatePhase::RenameExe {
        assert(job.asks_at(events, n, moved));
    } else {
        assert(before.phase == UpdatePhase::ListRoot);
        assert(job.asks_at(events, n, listed));
    }
}

/// The plan of an update that is ready: it is the last thing that the job
/// reports; its script has been written; it puts the files in the folder of the program and starts the
/// program under the name that was found. Its mode is `exe` if and only if the
/// package is the program itself, which was downloaded and has been moved, under
/// that name, into the folder that the plan takes; otherwise the plan takes a
/// folder in which something was found.
pub proof fn law_ready_plan_fits(
    asset: AssetView,
    package: Option<Package>,
    pid: u32,
    stamp: u128,
    events: Seq<EventView>,
)
    requires
        update_begun(asset, package, pid, stamp).run(events).phase == UpdatePhase::Ready,
    ensures
        ({
            let begun = update_begun(asset, package, pid, stamp);
            let job = begun.run(events);
            let plan = job.plan();
            let moved = ActionView::Rename(job.update_file(), plan.source.child(plan.exe));
            &&& begun.run_reports(events).len() > 0
            &&& begun.run_reports(events).last() == ReportView::Say(MsgView::AppUpdateReady(plan))
            &&& plan.dest == folder(Base::ProgramDir)
            &&& exists|k: int| #[trigger]
                begun.asks_at(events, k, ActionView::WriteScript(plan.script)) && events[k] is Done
            &&& exists|k: int| #[trigger]
                begun.asks_at(events, k, ActionView::LocateProgram) && events[k]
                    == EventView::Program(plan.exe)
            &&& plan.source.within(plan.cleanup)
            &&& plan.mode == "exe"@ <==> package == Some(Package::Exe)
            &&& plan.mode == "archive"@ <==> package is Some && package != Some(Package::Exe)
            &&& plan.mode == "exe"@ ==> plan.source == plan.cleanup && (
            job.transfer matches Some(t) && t.path == job.update_file()) && exists|k: int| #[trigger]
                begun.asks_at(events, k, moved) && events[k] is Done
            &&& plan.mode == "archive"@ ==> exists|k: int| #[trigger]
                begun.asks_at(events, k, ActionView::ListDir(plan.source)) && (
                events[k] matches EventView::Entries(entries) && entries.len() > 0)
        }),
{
    let begun = update_begun(asset, package, pid, stamp);
    let job = begun.run(events);
    lemma_update_run(begun, events);
    lemma_program_was_told(begun, events);
    lemma_script_was_written(begun, events);
    lemma_ready_was_prepared(begun, events);
    law_plan_source_is_prepared(job);
    reveal_strlit("exe");
    reveal_strlit("archive");
    assert("exe"@.len() != "archive"@.len());
}

/// What was unpacked is what was downloaded: in a run of the job, whenever the
/// pending action unpacks, it does so by the kind of the package with which the
/// job was begun, from the file into which the package was downloaded, and into
/// the folder for it; and only packed files are unpacked.
pub proof fn law_unpacks_what_was_downloaded(
    asset: AssetView,
    package: Option<Package>,
    pid: u32,
    stamp: u128,
    events: Seq<EventView>,
)
    ensures
        ({
            let job = update_begun(asset, package, pid, stamp).run(events);
            job.pending() matches ActionView::Unpack(kind, from, into) ==> {
                &&& package == Some(Package::Packed(kind))
                &&& (job.transfer matches Some(t) && from == t.path && t.url
                    == asset.browser_download_url)
                &&& into == (LocationView {
                    base: Base::SystemTemp,
                    parts: seq![
                        "Vault64_update_"@ + decimal_text(pid as nat) + "_"@ + decimal_text(
                            stamp as nat,
                        ),
                        "extracted"@,
                    ],
                })
                &&& from == (LocationView {
                    base: Base::SystemTemp,
                    parts: seq![
                        "Vault64_update_"@ + decimal_text(pid as nat) + "_"@ + decimal_text(
                            stamp as nat,
                        ),
                        match kind {
                            Archive::SevenZip => "update.7z"@,
                            Archive::Zip => "update.zip"@,
                        },
                    ],
                })
            }
        }),
{
    let begun = update_begun(asset, package, pid, stamp);
    lemma_update_run(begun, events);
    lemma_download_address(begun, events);
    lemma_work_places(begun.run(events));
}

/// The address that is asked stays that of the package.
proof fn lemma_download_address(job: UpdateView, events: Seq<EventView>)
    requires
        job.transfer is None,
    ensures
        job.run(events).asset == job.asset,
        job.run(events).transfer matches Some(t) ==> t.url == job.asset.browser_download_url,
    decreases events.len(),
{
    if events.len() > 0 {
        lemma_download_address(job, events.drop_last());
    }
}

/// The places of a job by their names.
proof fn lemma_work_places(job: UpdateView)
    ensures
        ({
            let base = Base::SystemTemp;
            let work = "Vault64_update_"@ + decimal_text(job.pid as nat) + "_"@ + decimal_text(
                job.stamp as nat,
            );
            let script = "Vault64_updater_"@ + decimal_text(job.pid as nat) + "_"@ + decimal_text(
                job.stamp as nat,
            ) + ".ps1"@;
            &&& job.work_dir() == (LocationView { base, parts: seq![work] })
            &&& job.script() == (LocationView { base, parts: seq![script] })
            &&& job.update_file() == (LocationView {
                base,
                parts: seq![work, "Vault64_update.exe"@],
            })
            &&& job.extract_dir() == (LocationView { base, parts: seq![work, "extracted"@] })
            &&& job.archive_path(Archive::SevenZip) == (LocationView {
                base,
                parts: seq![work, "update.7z"@],
            })
            &&& job.archive_path(Archive::Zip) == (LocationView {
                base,
                parts: seq![work, "update.zip"@],
            })
        }),
{
    reveal_strlit("Vault64_update_");
    reveal_strlit("Vault64_updater_");
    reveal_strlit("Vault64_update.exe");
    reveal_strlit("extracted");
    reveal_strlit("update.");
    reveal_strlit("7z");
    reveal_strlit("zip");
    reveal_strlit("update.7z");
    reveal_strlit("update.zip");
    assert("update."@ + "7z"@ == "update.7z"@);
    assert("update."@ + "zip"@ == "update.zip"@);
    let none = Seq::<Seq<char>>::empty();
    let work = work_name(job.pid, job.stamp);
    let script = script_name(job.pid, job.stamp);
    assert(work.len() > 0);
    assert(script.len() > 0);
    assert(none.push(work) == seq![work]);
    assert(none.push(script) == seq![script]);
    assert(seq![work].push("Vault64_update.exe"@) == seq![work, "Vault64_update.exe"@]);
    assert(seq![work].push("extracted"@) == seq![work, "extracted"@]);
    assert(seq![work].push("update.7z"@) == seq![work, "update.7z"@]);
    assert(seq![work].push("update.zip"@) == seq![work, "update.zip"@]);
}

/// Whether the job ends with this reason, as its only report, and stays ended.
pub open spec fn fails_with(after: (UpdateView, Seq<ReportView>), reason: Seq<char>) -> bool {
    &&& after.0.pending() == ActionView::Stop
    &&& after.1 == seq![ReportView::Say(MsgView::AppUpdateError(reason))]
    &&& forall|event: EventView| #[trigger]
        after.0.next(event) == (after.0, Seq::<ReportView>::empty())
}

/// The course of a job before its download: a folder of its own is made; the
/// program is found; the script is written; and the package is downloaded, if it
/// is one: the program itself as the first 85 percent, packed files as the first
/// 55 percent of the whole.
pub proof fn law_update_until_the_download(
    asset: AssetView,
    package: Option<Package>,
    pid: u32,
    stamp: u128,
    exe: Seq<char>,
    e: Seq<char>,
)
    ensures
        ({
            let done = EventView::Done;
            let failed = EventView::Failed(e);
            let base = Base::SystemTemp;
            let work = "Vault64_update_"@ + decimal_text(pid as nat) + "_"@ + decimal_text(
                stamp as nat,
            );
            let script = "Vault64_updater_"@ + decimal_text(pid as nat) + "_"@ + decimal_text(
                stamp as nat,
            ) + ".ps1"@;
            let start = update_begun(asset, package, pid, stamp);
            let made = start.next(done).0;
            let found = made.next(EventView::Program(exe)).0;
            let (going, said) = found.next(done);
            &&& start.pending() == ActionView::CreateDir(LocationView { base, parts: seq![work] })
            &&& fails_with(start.next(failed), "Could not create temporary update folder: "@ + e)
            &&& start.next(done).1.len() == 0
            &&& made.pending() == ActionView::LocateProgram
            &&& fails_with(made.next(EventView::NoProgramDir), "Could not find program directory"@)
            &&& fails_with(made.next(EventView::NoProgramName), "Could not find executable name"@)
            &&& fails_with(made.next(failed), e)
            &&& made.next(EventView::Program(exe)).1.len() == 0
            &&& found.exe_name == exe
            &&& found.pending() == ActionView::WriteScript(
                LocationView { base, parts: seq![script] },
            )
            &&& fails_with(found.next(failed), "Could not write updater script: "@ + e)
            &&& package is None ==> fails_with(
                (going, said),
                "No supported update package found. Expected .7z or .zip"@,
            )
            &&& package is Some ==> {
                &&& said.len() == 0
                &&& going.phase == UpdatePhase::Download
                &&& going.exe_name == exe
                &&& going.package == package && going.pid == pid && going.stamp == stamp
                &&& going.nested is None
                &&& (going.transfer matches Some(t) && t.url == asset.browser_download_url
                    && t.expected_size == asset.size && t.downloaded == 0 && t.phase
                    == TransferPhase::Connect && t.start == 0 && t.end == (if package == Some(
                    Package::Exe,
                ) {
                    85u32
                } else {
                    55u32
                }) && t.label == (if package == Some(Package::Exe) {
                    "Downloading update"@
                } else {
                    "Downloading update package"@
                }) && t.path == (LocationView {
                    base,
                    parts: seq![
                        work,
                        match package {
                            Some(Package::Packed(Archive::SevenZip)) => "update.7z"@,
                            Some(Package::Packed(Archive::Zip)) => "update.zip"@,
                            _ => "Vault64_update.exe"@,
                        },
                    ],
                }))
            }
        }),
{
    lemma_work_places(update_begun(asset, package, pid, stamp));
    let found = UpdateView {
        exe_name: exe,
        phase: UpdatePhase::WriteScript,
        ..update_begun(asset, package, pid, stamp)
    };
    lemma_work_places(found);
}

/// While the package is downloaded, the job asks what the download asks, tells
/// what the download tells, and fails as the download fails.
pub proof fn law_update_follows_its_download(job: UpdateView, t: TransferView, event: EventView)
    requires
        job.phase == UpdatePhase::Download,
        job.transfer == Some(t),
    ensures
        job.pending() == t.pending(),
        match t.next(event).1 {
            TransferStepView::Going(reports) => job.next(event) == (
                UpdateView { transfer: Some(t.next(event).0), ..job },
                reports,
            ),
            TransferStepView::Failed(e) => fails_with(job.next(event), e),
            TransferStepView::Complete => {
                let (after, said) = job.next(event);
                &&& said.len() == 0
                &&& after.exe_name == job.exe_name && after.package == job.package && after.pid
                    == job.pid && after.stamp == job.stamp
                &&& match job.package {
                    Some(Package::Packed(_)) => after.phase == UpdatePhase::MakeExtractDir,
                    _ => after.phase == UpdatePhase::ClearExe,
                }
            },
        },
{
}

/// The course of a job whose package is the program, after its download: a file
/// of the name of the program is removed, if there is one; the download takes its
/// name; and the plan is to put the program in place from the folder of the job.
pub proof fn law_program_is_prepared(job: UpdateView, e: Seq<char>)
    requires
        job.phase == UpdatePhase::ClearExe,
        job.package == Some(Package::Exe),
    ensures
        ({
            let done = EventView::Done;
            let failed = EventView::Failed(e);
            let base = Base::SystemTemp;
            let work = "Vault64_update_"@ + decimal_text(job.pid as nat) + "_"@ + decimal_text(
                job.stamp as nat,
            );
            let script = "Vault64_updater_"@ + decimal_text(job.pid as nat) + "_"@ + decimal_text(
                job.stamp as nat,
            ) + ".ps1"@;
            let place = LocationView {
                base,
                parts: if job.exe_name.len() > 0 {
                    seq![work, job.exe_name]
                } else {
                    seq![work]
                },
            };
            let cleared = job.next(done).0;
            let (end, said) = cleared.next(done);
            &&& job.pending() == ActionView::RemoveFile(place)
            &&& job.next(failed) == job.next(done)
            &&& job.next(done).1.len() == 0
            &&& cleared.pending() == ActionView::Rename(
                LocationView { base, parts: seq![work, "Vault64_update.exe"@] },
                place,
            )
            &&& fails_with(cleared.next(failed), "Could not prepare update executable: "@ + e)
            &&& end.pending() == ActionView::Stop
            &&& forall|event: EventView| #[trigger]
                end.next(event) == (end, Seq::<ReportView>::empty())
            &&& said == seq![
                ReportView::Say(
                    MsgView::AppUpdateProgress(Progress::At { percent: 98 }, "Restarting..."@),
                ),
                ReportView::Say(
                    MsgView::AppUpdateReady(
                        PlanView {
                            script: LocationView { base, parts: seq![script] },
                            source: LocationView { base, parts: seq![work] },
                            dest: LocationView { base: Base::ProgramDir, parts: seq![] },
                            exe: job.exe_name,
                            cleanup: LocationView { base, parts: seq![work] },
                            mode: "exe"@,
                        },
                    ),
                ),
            ]
        }),
{
    lemma_work_places(job);
    lemma_work_places(job.next(EventView::Done).0);
    let work = work_name(job.pid, job.stamp);
    assert(seq![work].push(job.exe_name) == seq![work, job.exe_name]);
}

/// The course of a job whose package is packed, after its download: a folder is
/// made; the package is unpacked into it; the folder is listed, to find the one
/// folder that it may consist of; that folder, or else the first one, must exist
/// and hold something; and the plan is to put its files in place.
pub proof fn law_packed_files_are_prepared(
    job: UpdateView,
    kind: Archive,
    found: Seq<KindView>,
    entries: Seq<KindView>,
    e: Seq<char>,
)
    requires
        job.phase == UpdatePhase::MakeExtractDir,
        job.package == Some(Package::Packed(kind)),
    ensures
        ({
            let done = EventView::Done;
            let failed = EventView::Failed(e);
            let base = Base::SystemTemp;
            let work = "Vault64_update_"@ + decimal_text(job.pid as nat) + "_"@ + decimal_text(
                job.stamp as nat,
            );
            let script = "Vault64_updater_"@ + decimal_text(job.pid as nat) + "_"@ + decimal_text(
                job.stamp as nat,
            ) + ".ps1"@;
            let extracted = LocationView { base, parts: seq![work, "extracted"@] };
            let made = job.next(done).0;
            let unpacked = made.next(done).0;
            let listed = unpacked.next(EventView::Entries(found)).0;
            let unlisted = unpacked.next(failed).0;
            let root = match sole_folder(found) {
                Some(name) => if name.len() > 0 {
                    LocationView { base, parts: seq![work, "extracted"@, name] }
                } else {
                    extracted
                },
                None => extracted,
            };
            let there = listed.next(done).0;
            let (end, said) = there.next(EventView::Entries(entries));
            &&& job.pending() == ActionView::CreateDir(extracted)
            &&& fails_with(job.next(failed), "Could not create extraction folder: "@ + e)
            &&& job.next(done).1 == seq![ReportView::Say(
                MsgView::AppUpdateProgress(
                    Progress::At { percent: 60 },
                    "Extracting update files..."@,
                ),
            )]
            &&& made.pending() == ActionView::Unpack(
                kind,
                LocationView {
                    base,
                    parts: seq![
                        work,
                        match kind {
                            Archive::SevenZip => "update.7z"@,
                            Archive::Zip => "update.zip"@,
                        },
                    ],
                },
                extracted,
            )
            &&& kind == Archive::SevenZip ==> fails_with(
                made.next(failed),
                "7z extraction failed: "@ + e,
            )
            &&& kind == Archive::Zip ==> fails_with(made.next(failed), e)
            &&& made.next(done).1.len() == 0
            &&& unpacked.pending() == ActionView::ListDir(extracted)
            &&& unpacked.next(EventView::Entries(found)).1.len() == 0
            &&& unpacked.next(failed).1.len() == 0
            &&& unlisted.pending() == ActionView::CheckExists(extracted)
            &&& listed.pending() == ActionView::CheckExists(root)
            &&& fails_with(listed.next(failed), "Extracted update folder was not found"@)
            &&& listed.next(done).1.len() == 0
            &&& there.pending() == ActionView::ListDir(root)
            &&& fails_with(there.next(failed), "Could not read extracted update folder: "@ + e)
            &&& entries.len() == 0 ==> fails_with((end, said), "Update archive is empty"@)
            &&& entries.len() > 0 ==> {
                &&& end.pending() == ActionView::Stop
                &&& forall|event: EventView| #[trigger]
                    end.next(event) == (end, Seq::<ReportView>::empty())
                &&& said == seq![
                    ReportView::Say(
                        MsgView::AppUpdateProgress(
                            Progress::At { percent: 90 },
                            "Preparing updater's script..."@,
                        ),
                    ),
                    ReportView::Say(
                        MsgView::AppUpdateProgress(Progress::At { percent: 98 }, "Restarting..."@),
                    ),
                    ReportView::Say(
                        MsgView::AppUpdateReady(
                            PlanView {
                                script: LocationView { base, parts: seq![script] },
                                source: root,
                                dest: LocationView { base: Base::ProgramDir, parts: seq![] },
                                exe: job.exe_name,
                                cleanup: LocationView { base, parts: seq![work] },
                                mode: "archive"@,
                            },
                        ),
                    ),
                ]
            }
        }),
{
    let made = job.next(EventView::Done).0;
    let unpacked = made.next(EventView::Done).0;
    let listed = unpacked.next(EventView::Entries(found)).0;
    let unlisted = unpacked.next(EventView::Failed(e)).0;
    let there = listed.next(EventView::Done).0;
    lemma_work_places(job);
    lemma_work_places(made);
    lemma_work_places(unpacked);
    lemma_work_places(unlisted);
    lemma_work_places(listed);
    lemma_work_places(there);
    let work = work_name(job.pid, job.stamp);
    if let Some(name) = sole_folder(found) {
        assert(seq![work, "extracted"@].push(name) == seq![work, "extracted"@, name]);
    }
}

/// What does not tell what came of the pending action changes nothing, while
/// nothing is downloaded.
pub proof fn law_update_ignores_what_it_did_not_ask(job: UpdateView, event: EventView)
    requires
        job.phase != UpdatePhase::Download,
    ensures
        match job.pending() {
            ActionView::LocateProgram => !(event is Program) && !(event is NoProgramDir) && !(
            event is NoProgramName) && !(event is Failed),
            ActionView::ListDir(_) => !(event is Entries) && !(event is Failed),
            ActionView::Stop => job.phase != UpdatePhase::Unpack,
            _ => !(event is Done) && !(event is Failed),
        } ==> job.next(event) == (job, Seq::<ReportView>::empty()),
{
}

/// Entries before and after others are read apart from them.
proof fn lemma_readable_parts(a: Seq<KindView>, b: Seq<KindView>)
    ensures
        readable(a + b) == readable(a) + readable(b),
    decreases b.len(),
{
    reveal(Seq::filter);
    if b.len() == 0 {
        assert(a + b == a);
        assert(readable(a) + readable(b) == readable(a));
    } else {
        assert((a + b).drop_last() == a + b.drop_last());
        assert((a + b).last() == b.last());
        lemma_readable_parts(a, b.drop_last());
        assert(readable(a + b) == readable(a) + readable(b));
    }
}

/// One entry that can be read is read; entries that cannot are not.
proof fn lemma_readable_few(e: KindView, s: Seq<KindView>)
    ensures
        e != KindView::Unreadable ==> readable(seq![e]) == seq![e],
        (forall|i: int| 0 <= i < s.len() ==> #[trigger] s[i] == KindView::Unreadable) ==> readable(
            s,
        ).len() == 0,
    decreases s.len(),
{
    reveal(Seq::filter);
    assert(seq![e].drop_last() == Seq::<KindView>::empty());
    assert(seq![e].last() == e);
    if e != KindView::Unreadable {
        assert(readable(seq![e].drop_last()) == Seq::<KindView>::empty());
        assert(readable(seq![e]) == seq![e]);
    }
    if s.len() > 0 && (forall|i: int|
        0 <= i < s.len() ==> #[trigger] s[i] == KindView::Unreadable) {
        assert(s.last() == s[s.len() - 1]);
        assert forall|i: int| 0 <= i < s.len() - 1 implies #[trigger] s.drop_last()[i]
            == KindView::Unreadable by {
            assert(s.drop_last()[i] == s[i]);
        }
        lemma_readable_few(e, s.drop_last());
    }
}

/// A folder is the sole one if and only if no other entry could be read: with two
/// that could, or with none, there is no sole folder.
pub proof fn law_sole_folder_stands_alone(entries: Seq<KindView>, i: int, j: int)
    ensures
        0 <= i < entries.len() && (forall|k: int|
            0 <= k < entries.len() && k != i ==> #[trigger] entries[k] == KindView::Unreadable)
            ==> sole_folder(entries) == (match entries[i] {
            KindView::Folder(name) => Some(name),
            _ => None,
        }),
        0 <= i < j < entries.len() && !(entries[i] is Unreadable) && !(entries[j] is Unreadable)
            ==> sole_folder(entries) is None,
        entries.len() == 0 ==> sole_folder(entries) is None,
{
    reveal(Seq::filter);
    if 0 <= i < entries.len() {
        let head = entries.take(i);
        let tail = entries.skip(i + 1);
        let e = entries[i];
        assert(entries == head + seq![e] + tail);
        lemma_readable_parts(head + seq![e], tail);
        lemma_readable_parts(head, seq![e]);
        lemma_readable_few(e, head);
        lemma_readable_few(e, tail);
        if forall|k: int|
            0 <= k < entries.len() && k != i ==> #[trigger] entries[k] == KindView::Unreadable {
            assert forall|k: int| 0 <= k < head.len() implies #[trigger] head[k]
                == KindView::Unreadable by {
                assert(head[k] == entries[k]);
            }
            assert forall|k: int| 0 <= k < tail.len() implies #[trigger] tail[k]
                == KindView::Unreadable by {
                assert(tail[k] == entries[k + i + 1]);
            }
            assert(readable(head).len() == 0 && readable(tail).len() == 0);
            assert(readable(seq![e]).len() <= 1);
            if e == KindView::Unreadable {
                lemma_readable_few(e, seq![e]);
                assert(readable(entries).len() == 0);
            } else {
                assert(readable(entries) == seq![e]);
            }
        }
        if i < j < entries.len() && !(entries[i] is Unreadable) && !(entries[j] is Unreadable) {
            let f = entries[j];
            let mid = tail.take(j - i - 1);
            let rest = tail.skip(j - i);
            assert(tail == mid + seq![f] + rest);
            lemma_readable_parts(mid + seq![f], rest);
            lemma_readable_parts(mid, seq![f]);
            lemma_readable_few(f, mid);
            assert(readable(entries).len() >= 2);
        }
    }
}

} // verus!
