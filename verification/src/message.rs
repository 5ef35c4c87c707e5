//! What the background jobs tell the launcher.
use crate::location::{Location, LocationView};
use crate::net::{amounts_to, outcome, Reply};
use crate::progress::Progress;
use crate::release::{GithubRelease, ReleaseView};
use crate::text::views;
use vstd::prelude::*;

verus! {

/// How the prepared update is put in place once the launcher has closed.
#[derive(Debug)]
pub struct UpdatePlan {
    /// The script that does it.
    pub script: Location,
    /// The folder with the new files.
    pub source: Location,
    /// The folder to put them in.
    pub dest: Location,
    /// The name of the program to start afterwards.
    pub exe: String,
    /// The folder to delete afterwards.
    pub cleanup: Location,
    /// `exe` or `archive`: whether other files of the program are purged.
    pub mode: String,
}

/// What an `UpdatePlan` says.
#[verifier::ext_equal]
pub struct PlanView {
    pub script: LocationView,
    pub source: LocationView,
    pub dest: LocationView,
    pub exe: Seq<char>,
    pub cleanup: LocationView,
    pub mode: Seq<char>,
}

impl View for UpdatePlan {
    type V = PlanView;

    open spec fn view(&self) -> PlanView {
        PlanView {
            script: self.script@,
            source: self.source@,
            dest: self.dest@,
            exe: self.exe@,
            cleanup: self.cleanup@,
            mode: self.mode@,
        }
    }
}

/// An argument of the command that runs the script.
#[derive(Debug)]
pub enum UpdaterArg {
    Text(String),
    Path(Location),
}

/// What an `UpdaterArg` holds.
#[verifier::ext_equal]
pub enum ArgView {
    Text(Seq<char>),
    Path(LocationView),
}

impl View for UpdaterArg {
    type V = ArgView;

    open spec fn view(&self) -> ArgView {
        match *self {
            UpdaterArg::Text(t) => ArgView::Text(t@),
            UpdaterArg::Path(p) => ArgView::Path(p@),
        }
    }
}

/// The arguments with which `powershell` runs the script of a plan.
pub open spec fn updater_command(plan: PlanView) -> Seq<ArgView> {
    seq![
        ArgView::Text("-NoProfile"@),
        ArgView::Text("-ExecutionPolicy"@),
        ArgView::Text("Bypass"@),
        ArgView::Text("-WindowStyle"@),
        ArgView::Text("Hidden"@),
        ArgView::Text("-File"@),
        ArgView::Path(plan.script),
        ArgView::Text("-Source"@),
        ArgView::Path(plan.source),
        ArgView::Text("-Dest"@),
        ArgView::Path(plan.dest),
        ArgView::Text("-AppExe"@),
        ArgView::Text(plan.exe),
        ArgView::Text("-Cleanup"@),
        ArgView::Path(plan.cleanup),
        ArgView::Text("-Mode"@),
        ArgView::Text(plan.mode),
    ]
}

impl UpdatePlan {
    /// The arguments with which `powershell` runs the plan's script.
    pub fn updater_args(&self) -> (r: Vec<UpdaterArg>)
        ensures
            views(r@) == updater_command(self@),
    {
        let mut r: Vec<UpdaterArg> = Vec::new();
        r.push(UpdaterArg::Text("-NoProfile".to_owned()));
        r.push(UpdaterArg::Text("-ExecutionPolicy".to_owned()));
        r.push(UpdaterArg::Text("Bypass".to_owned()));
        r.push(UpdaterArg::Text("-WindowStyle".to_owned()));
        r.push(UpdaterArg::Text("Hidden".to_owned()));
        r.push(UpdaterArg::Text("-File".to_owned()));
        r.push(UpdaterArg::Path(self.script.clone()));
        r.push(UpdaterArg::Text("-Source".to_owned()));
        r.push(UpdaterArg::Path(self.source.clone()));
        r.push(UpdaterArg::Text("-Dest".to_owned()));
        r.push(UpdaterArg::Path(self.dest.clone()));
        r.push(UpdaterArg::Text("-AppExe".to_owned()));
        r.push(UpdaterArg::Text(self.exe.clone()));
        r.push(UpdaterArg::Text("-Cleanup".to_owned()));
        r.push(UpdaterArg::Path(self.cleanup.clone()));
        r.push(UpdaterArg::Text("-Mode".to_owned()));
        r.push(UpdaterArg::Text(self.mode.clone()));
        assert(views(r@) == updater_command(self@));
        r
    }
}

/// What a background job tells the launcher.
#[derive(Debug)]
pub enum AppMsg {
    ReleasesFetched(Result<Vec<GithubRelease>, String>),
    AppUpdateFetched(Result<GithubRelease, String>),
    AppUpdateProgress(Progress, String),
    AppUpdateReady(UpdatePlan),
    AppUpdateError(String),
    DownloadProgress(Progress, String),
    DownloadComplete(String),
    DownloadError(String),
}

/// What an `AppMsg` says.
#[verifier::ext_equal]
pub enum MsgView {
    ReleasesFetched(Result<Seq<ReleaseView>, Seq<char>>),
    AppUpdateFetched(Result<ReleaseView, Seq<char>>),
    AppUpdateProgress(Progress, Seq<char>),
    AppUpdateReady(PlanView),
    AppUpdateError(Seq<char>),
    DownloadProgress(Progress, Seq<char>),
    DownloadComplete(Seq<char>),
    DownloadError(Seq<char>),
}

impl View for AppMsg {
    type V = MsgView;

    open spec fn view(&self) -> MsgView {
        match *self {
            AppMsg::ReleasesFetched(r) => MsgView::ReleasesFetched(
                match r {
                    Ok(list) => Ok(views(list@)),
                    Err(e) => Err(e@),
                },
            ),
            AppMsg::AppUpdateFetched(r) => MsgView::AppUpdateFetched(
                match r {
                    Ok(release) => Ok(release@),
                    Err(e) => Err(e@),
                },
            ),
            AppMsg::AppUpdateProgress(p, s) => MsgView::AppUpdateProgress(p, s@),
            AppMsg::AppUpdateReady(plan) => MsgView::AppUpdateReady(plan@),
            AppMsg::AppUpdateError(e) => MsgView::AppUpdateError(e@),
            AppMsg::DownloadProgress(p, s) => MsgView::DownloadProgress(p, s@),
            AppMsg::DownloadComplete(n) => MsgView::DownloadComplete(n@),
            AppMsg::DownloadError(e) => MsgView::DownloadError(e@),
        }
    }
}

/// What the launcher is told of the reply to a request for the list of games.
pub fn releases_reply(reply: Reply<Vec<GithubRelease>>) -> (r: AppMsg)
    ensures
        r matches AppMsg::ReleasesFetched(result) && amounts_to(reply, "API error: "@, result),
{
    AppMsg::ReleasesFetched(outcome(reply, "API error: "))
}

/// What the launcher is told of the reply to a request for its latest release.
pub fn latest_release_reply(reply: Reply<GithubRelease>) -> (r: AppMsg)
    ensures
        r matches AppMsg::AppUpdateFetched(result) && amounts_to(reply, "Status: "@, result),
{
    AppMsg::AppUpdateFetched(outcome(reply, "Status: "))
}

/// Each part of a plan follows its flag in the command: the script that is run,
/// where the files come from and go to, the program, the folder to be deleted,
/// and the mode. Nothing else is handed over but how `powershell` is to behave.
pub proof fn law_command_carries_the_plan(plan: PlanView)
    ensures
        ({
            let args = updater_command(plan);
            &&& args.len() == 17
            &&& args[0] == ArgView::Text("-NoProfile"@)
            &&& args[1] == ArgView::Text("-ExecutionPolicy"@) && args[2] == ArgView::Text("Bypass"@)
            &&& args[3] == ArgView::Text("-WindowStyle"@) && args[4] == ArgView::Text("Hidden"@)
            &&& args[5] == ArgView::Text("-File"@) && args[6] == ArgView::Path(plan.script)
            &&& args[7] == ArgView::Text("-Source"@) && args[8] == ArgView::Path(plan.source)
            &&& args[9] == ArgView::Text("-Dest"@) && args[10] == ArgView::Path(plan.dest)
            &&& args[11] == ArgView::Text("-AppExe"@) && args[12] == ArgView::Text(plan.exe)
            &&& args[13] == ArgView::Text("-Cleanup"@) && args[14] == ArgView::Path(plan.cleanup)
            &&& args[15] == ArgView::Text("-Mode"@) && args[16] == ArgView::Text(plan.mode)
        }),
{
}

} // verus!
