//! The launcher's state: what it knows, and how sign-in, navigation and the
//! messages of the background jobs change it.
use crate::account::{credentials_accepted, law_guest_is_the_only_account, UserDatabase};
use crate::config::{
    default_config, library_with, library_without, AppConfig, AppTheme, ConfigView,
};
use crate::location::{Location, LocationView};
use crate::message::{AppMsg, MsgView, PlanView, UpdatePlan};
use crate::progress::Progress;
use crate::release::{AssetView, GithubAsset, GithubRelease, ReleaseView};
use crate::text::{join, join3, opt_view, views};
use crate::version::newer;
use vstd::prelude::*;

verus! {

/// The version of this launcher.
pub const APP_VERSION: &'static str = "v3.0";

/// Whether somebody is signed in.
#[derive(Clone, Copy, PartialEq, Eq, Structural, Debug)]
pub enum AppState {
    Login,
    Launcher,
}

/// The pages of the launcher.
#[derive(Clone, Copy, PartialEq, Eq, Structural, Debug)]
pub enum LauncherTab {
    Store,
    Library,
    GameDetails,
    Settings,
}

/// What is to be done outside after the state has changed.
#[derive(Debug)]
pub enum Effect {
    /// Give the windows the colours of the chosen theme.
    ApplyTheme,
    /// Write the settings file.
    SaveConfig,
    /// Ask the server for the list of games.
    FetchReleases,
    /// Ask the server for the launcher's latest release.
    RequestLatestRelease,
    /// Run the job that prepares an update of the launcher.
    StartAppUpdate(GithubAsset),
    /// Run the job that installs a game, given its package and its name.
    StartInstall(GithubAsset, String),
    /// Start the game in a folder.
    LaunchGame(Location),
    /// Show a folder.
    OpenFolder(Location),
}

/// What an `Effect` asks for.
#[verifier::ext_equal]
pub enum EffectView {
    ApplyTheme,
    SaveConfig,
    FetchReleases,
    RequestLatestRelease,
    StartAppUpdate(AssetView),
    StartInstall(AssetView, Seq<char>),
    LaunchGame(LocationView),
    OpenFolder(LocationView),
}

impl View for Effect {
    type V = EffectView;

    open spec fn view(&self) -> EffectView {
        match *self {
            Effect::ApplyTheme => EffectView::ApplyTheme,
            Effect::SaveConfig => EffectView::SaveConfig,
            Effect::FetchReleases => EffectView::FetchReleases,
            Effect::RequestLatestRelease => EffectView::RequestLatestRelease,
            Effect::StartAppUpdate(a) => EffectView::StartAppUpdate(a@),
            Effect::StartInstall(a, n) => EffectView::StartInstall(a@, n@),
            Effect::LaunchGame(l) => EffectView::LaunchGame(l@),
            Effect::OpenFolder(l) => EffectView::OpenFolder(l@),
        }
    }
}

/// What came of an attempt to start a game.
#[derive(Debug)]
pub enum LaunchOutcome {
    Started,
    Failed(String),
    NoExecutable,
}

/// What a `LaunchOutcome` tells.
#[verifier::ext_equal]
pub enum LaunchView {
    Started,
    Failed(Seq<char>),
    NoExecutable,
}

impl View for LaunchOutcome {
    type V = LaunchView;

    open spec fn view(&self) -> LaunchView {
        match *self {
            LaunchOutcome::Started => LaunchView::Started,
            LaunchOutcome::Failed(e) => LaunchView::Failed(e@),
            LaunchOutcome::NoExecutable => LaunchView::NoExecutable,
        }
    }
}

/// The launcher's state.
#[derive(Debug)]
pub struct Vault64App {
    pub state: AppState,
    pub tab: LauncherTab,
    pub previous_tab: LauncherTab,
    pub tab_switch_counter: u64,
    pub selected_release_idx: Option<usize>,
    pub login_username: String,
    pub login_password: String,
    pub remember_me: bool,
    pub login_error: Option<String>,
    pub config: AppConfig,
    pub releases: Option<Vec<GithubRelease>>,
    pub fetch_error: Option<String>,
    pub latest_app_release: Option<GithubRelease>,
    pub show_update_modal: bool,
    pub checking_update: bool,
    pub app_update_downloading: bool,
    pub app_update_progress: Progress,
    pub app_update_status: String,
    pub app_update_info: String,
    pub search_query: String,
    pub is_downloading: bool,
    pub download_progress: Progress,
    pub download_status: String,
}

/// What a `Vault64App` holds.
#[verifier::ext_equal]
pub struct AppView {
    pub state: AppState,
    pub tab: LauncherTab,
    pub previous_tab: LauncherTab,
    pub tab_switch_counter: int,
    pub selected_release_idx: Option<usize>,
    pub login_username: Seq<char>,
    pub login_password: Seq<char>,
    pub remember_me: bool,
    pub login_error: Option<Seq<char>>,
    pub config: ConfigView,
    pub releases: Option<Seq<ReleaseView>>,
    pub fetch_error: Option<Seq<char>>,
    pub latest_app_release: Option<ReleaseView>,
    pub show_update_modal: bool,
    pub checking_update: bool,
    pub app_update_downloading: bool,
    pub app_update_progress: Progress,
    pub app_update_status: Seq<char>,
    pub app_update_info: Seq<char>,
    pub search_query: Seq<char>,
    pub is_downloading: bool,
    pub download_progress: Progress,
    pub download_status: Seq<char>,
}

impl View for Vault64App {
    type V = AppView;

    open spec fn view(&self) -> AppView {
        AppView {
            state: self.state,
            tab: self.tab,
            previous_tab: self.previous_tab,
            tab_switch_counter: self.tab_switch_counter as int,
            selected_release_idx: self.selected_release_idx,
            login_username: self.login_username@,
            login_password: self.login_password@,
            remember_me: self.remember_me,
            login_error: opt_view(self.login_error),
            config: self.config@,
            releases: match self.releases {
                Some(list) => Some(views(list@)),
                None => None,
            },
            fetch_error: opt_view(self.fetch_error),
            latest_app_release: opt_view(self.latest_app_release),
            show_update_modal: self.show_update_modal,
            checking_update: self.checking_update,
            app_update_downloading: self.app_update_downloading,
            app_update_progress: self.app_update_progress,
            app_update_status: self.app_update_status@,
            app_update_info: self.app_update_info@,
            search_query: self.search_query@,
            is_downloading: self.is_downloading,
            download_progress: self.download_progress,
            download_status: self.download_status@,
        }
    }
}

/// The state before anything has happened, given the settings. Whoever is
/// remembered is signed in.
pub open spec fn fresh(config: ConfigView) -> AppView {
    AppView {
        state: if config.remembered_username is Some {
            AppState::Launcher
        } else {
            AppState::Login
        },
        tab: LauncherTab::Store,
        previous_tab: LauncherTab::Store,
        tab_switch_counter: 0,
        selected_release_idx: None,
        login_username: match config.remembered_username {
            Some(user) => user,
            None => Seq::empty(),
        },
        login_password: Seq::empty(),
        remember_me: config.remembered_username is Some,
        login_error: None,
        config,
        releases: None,
        fetch_error: None,
        latest_app_release: None,
        show_update_modal: false,
        checking_update: false,
        app_update_downloading: false,
        app_update_progress: Progress::At { percent: 0 },
        app_update_status: Seq::empty(),
        app_update_info: Seq::empty(),
        search_query: Seq::empty(),
        is_downloading: false,
        download_progress: Progress::At { percent: 0 },
        download_status: Seq::empty(),
    }
}

/// The settings to begin with: those that were loaded, or else the default ones.
pub open spec fn loaded_or_default(loaded: Option<ConfigView>) -> ConfigView {
    match loaded {
        Some(config) => config,
        None => default_config(),
    }
}

/// The state with which the launcher starts.
pub open spec fn started(loaded: Option<ConfigView>) -> AppView {
    let a = fresh(loaded_or_default(loaded));
    if a.state == AppState::Launcher {
        a.update_check_begun()
    } else {
        a
    }
}

/// What is done when the launcher starts.
pub open spec fn start_effects(loaded: Option<ConfigView>) -> Seq<EffectView> {
    if loaded_or_default(loaded).remembered_username is Some {
        seq![
            EffectView::ApplyTheme,
            EffectView::FetchReleases,
            EffectView::RequestLatestRelease,
        ]
    } else {
        seq![EffectView::ApplyTheme]
    }
}

impl AppView {
    /// The state once the check for a new version is under way.
    pub open spec fn update_check_begun(self) -> AppView {
        if self.checking_update {
            self
        } else {
            AppView {
                checking_update: true,
                app_update_info: "Checking for updates..."@,
                ..self
            }
        }
    }

    /// The state after a change to the given page.
    pub open spec fn with_tab(self, new_tab: LauncherTab) -> AppView {
        if self.tab == new_tab {
            self
        } else {
            AppView {
                previous_tab: self.tab,
                tab: new_tab,
                tab_switch_counter: self.tab_switch_counter + 1,
                ..self
            }
        }
    }

    /// The state after going back to the page before.
    pub open spec fn gone_back(self) -> AppView {
        self.with_tab(self.previous_tab)
    }

    /// The state after an attempt to sign in with what has been typed.
    pub open spec fn login_attempted(self) -> AppView {
        if credentials_accepted(self.login_username, self.login_password) {
            (AppView {
                login_error: None,
                config: ConfigView {
                    remembered_username: if self.remember_me {
                        Some(self.login_username)
                    } else {
                        None
                    },
                    ..self.config
                },
                state: AppState::Launcher,
                tab_switch_counter: self.tab_switch_counter + 1,
                ..self
            }).update_check_begun()
        } else {
            AppView { login_error: Some("Invalid username or password"@), ..self }
        }
    }

    /// What is done after an attempt to sign in.
    pub open spec fn login_effects(self) -> Seq<EffectView> {
        if !credentials_accepted(self.login_username, self.login_password) {
            seq![]
        } else if self.checking_update {
            seq![EffectView::SaveConfig, EffectView::FetchReleases]
        } else {
            seq![
                EffectView::SaveConfig,
                EffectView::FetchReleases,
                EffectView::RequestLatestRelease,
            ]
        }
    }

    /// The state after signing out.
    pub open spec fn logged_out(self) -> AppView {
        AppView {
            config: ConfigView { remembered_username: None, ..self.config },
            state: AppState::Login,
            tab: LauncherTab::Store,
            tab_switch_counter: self.tab_switch_counter + 1,
            login_password: Seq::empty(),
            ..self
        }
    }

    /// The state once an update of the launcher is being prepared.
    pub open spec fn update_started(self) -> AppView {
        AppView {
            app_update_downloading: true,
            app_update_progress: Progress::At { percent: 0 },
            app_update_status: "Preparing update..."@,
            ..self
        }
    }

    /// The state once a game is being installed.
    pub open spec fn install_started(self) -> AppView {
        AppView {
            is_downloading: true,
            download_progress: Progress::At { percent: 0 },
            download_status: "Starting download..."@,
            ..self
        }
    }

    /// The state after an attempt to start a game.
    pub open spec fn launch_attempted(self, outcome: LaunchView) -> AppView {
        AppView {
            download_status: match outcome {
                LaunchView::Started => Seq::empty(),
                LaunchView::Failed(e) => "Error launching game: "@ + e,
                LaunchView::NoExecutable => "No executable found in game folder"@,
            },
            ..self
        }
    }

    /// The state with another library.
    pub open spec fn with_library(self, library: Seq<Seq<char>>) -> AppView {
        AppView { config: ConfigView { library, ..self.config }, ..self }
    }

    /// The state after a game was added to the library.
    pub open spec fn game_added(self, game: Seq<char>) -> AppView {
        self.with_library(library_with(self.config.library, game))
    }

    /// What is done after a game was added to the library.
    pub open spec fn game_added_effects(self, game: Seq<char>) -> Seq<EffectView> {
        if self.config.library.contains(game) {
            seq![]
        } else {
            seq![EffectView::SaveConfig]
        }
    }

    /// The state after a game was removed from the library.
    pub open spec fn game_removed(self, game: Seq<char>) -> AppView {
        self.with_library(library_without(self.config.library, game))
    }

    /// The state with the page of one game open.
    pub open spec fn details_shown(self, index: usize) -> AppView {
        (AppView { selected_release_idx: Some(index), ..self }).with_tab(LauncherTab::GameDetails)
    }

    /// The state with nothing searched for.
    pub open spec fn search_cleared(self) -> AppView {
        AppView { search_query: Seq::empty(), ..self }
    }

    /// The state once the list of games is asked for anew.
    pub open spec fn fetch_retried(self) -> AppView {
        AppView { fetch_error: None, ..self }
    }

    /// The state after a message that does not end the launcher.
    pub open spec fn after_message(self, msg: MsgView) -> AppView {
        match msg {
            MsgView::ReleasesFetched(Ok(list)) => AppView {
                releases: Some(list),
                fetch_error: None,
                ..self
            },
            MsgView::ReleasesFetched(Err(e)) => AppView { fetch_error: Some(e), ..self },
            MsgView::AppUpdateFetched(Ok(release)) => if newer(release.tag_name, APP_VERSION@) {
                AppView {
                    checking_update: false,
                    app_update_info: "Version "@ + release.tag_name + " is available."@,
                    latest_app_release: Some(release),
                    show_update_modal: true,
                    ..self
                }
            } else {
                AppView {
                    checking_update: false,
                    latest_app_release: None,
                    app_update_info: "Launcher is up to date."@,
                    ..self
                }
            },
            MsgView::AppUpdateFetched(Err(e)) => AppView {
                checking_update: false,
                app_update_info: "Update check failed: "@ + e,
                ..self
            },
            MsgView::AppUpdateProgress(progress, status) => AppView {
                app_update_progress: progress,
                app_update_status: status,
                ..self
            },
            MsgView::AppUpdateReady(_) => self,
            MsgView::AppUpdateError(e) => AppView {
                app_update_downloading: false,
                app_update_status: "Update error: "@ + e,
                app_update_info: "\u{274c} "@ + e,
                ..self
            },
            MsgView::DownloadProgress(progress, status) => AppView {
                download_progress: progress,
                download_status: status,
                ..self
            },
            MsgView::DownloadComplete(name) => AppView {
                is_downloading: false,
                download_progress: Progress::At { percent: 100 },
                download_status: name,
                ..self
            },
            MsgView::DownloadError(e) => AppView {
                is_downloading: false,
                download_status: "Error: "@ + e,
                ..self
            },
        }
    }

    /// The state after the messages, in order, up to the first that carries a
    /// plan to update the launcher.
    pub open spec fn after_messages(self, msgs: Seq<MsgView>) -> AppView
        decreases msgs.len(),
    {
        if msgs.len() == 0 || msgs[0] is AppUpdateReady {
            self
        } else {
            self.after_message(msgs[0]).after_messages(msgs.drop_first())
        }
    }
}

/// The plan that a message carries, if it carries one.
pub open spec fn plan_in(msg: MsgView) -> Option<PlanView> {
    match msg {
        MsgView::AppUpdateReady(plan) => Some(plan),
        _ => None,
    }
}

/// The first plan among the messages.
pub open spec fn first_plan(msgs: Seq<MsgView>) -> Option<PlanView>
    decreases msgs.len(),
{
    if msgs.len() == 0 {
        None
    } else {
        match plan_in(msgs[0]) {
            Some(plan) => Some(plan),
            None => first_plan(msgs.drop_first()),
        }
    }
}

impl Vault64App {
    /// The launcher as it starts, given the settings that could be loaded, and
    /// what is done then.
    pub fn new(loaded: Option<AppConfig>) -> (r: (Vault64App, Vec<Effect>))
        ensures
            r.0@ == started(opt_view(loaded)),
            views(r.1@) == start_effects(opt_view(loaded)),
    {
        let config: AppConfig = match loaded {
            Some(config) => config,
            None => AppConfig::default(),
        };
        let mut state: AppState = AppState::Login;
        let mut login_username: String = String::new();
        let mut remember_me: bool = false;
        if let Some(user) = &config.remembered_username {
            login_username = user.clone();
            remember_me = true;
            state = AppState::Launcher;
        }
        let mut app = Vault64App {
            state,
            tab: LauncherTab::Store,
            previous_tab: LauncherTab::Store,
            tab_switch_counter: 0,
            selected_release_idx: None,
            login_username,
            login_password: String::new(),
            remember_me,
            login_error: None,
            config,
            releases: None,
            fetch_error: None,
            latest_app_release: None,
            show_update_modal: false,
            checking_update: false,
            app_update_downloading: false,
            app_update_progress: Progress::At { percent: 0 },
            app_update_status: String::new(),
            app_update_info: String::new(),
            search_query: String::new(),
            is_downloading: false,
            download_progress: Progress::At { percent: 0 },
            download_status: String::new(),
        };
        assert(app@ == fresh(loaded_or_default(opt_view(loaded))));
        let mut effects: Vec<Effect> = Vec::new();
        effects.push(Effect::ApplyTheme);
        if app.state == AppState::Launcher {
            effects.push(Effect::FetchReleases);
            if app.check_app_updates() {
                effects.push(Effect::RequestLatestRelease);
            }
        }
        assert(views(effects@) == start_effects(opt_view(loaded)));
        (app, effects)
    }

    /// Begins the check for a new version unless one is under way; tells whether
    /// the latest release is to be requested.
    pub fn check_app_updates(&mut self) -> (request: bool)
        ensures
            final(self)@ == old(self)@.update_check_begun(),
            request == !old(self)@.checking_update,
    {
        if self.checking_update {
            return false;
        }
        self.checking_update = true;
        self.app_update_info = "Checking for updates...".to_owned();
        true
    }

    /// Changes to the given page and remembers the one before.
    pub fn change_tab(&mut self, new_tab: LauncherTab)
        requires
            old(self)@.with_tab(new_tab).tab_switch_counter <= u64::MAX,
        ensures
            final(self)@ == old(self)@.with_tab(new_tab),
    {
        if self.tab != new_tab {
            self.previous_tab = self.tab;
            self.tab = new_tab;
            self.tab_switch_counter = self.tab_switch_counter + 1;
        }
    }

    /// Tries to sign in with what has been typed.
    pub fn login(&mut self) -> (effects: Vec<Effect>)
        requires
            old(self)@.login_attempted().tab_switch_counter <= u64::MAX,
        ensures
            final(self)@ == old(self)@.login_attempted(),
            views(effects@) == old(self)@.login_effects(),
    {
        let mut effects: Vec<Effect> = Vec::new();
        if UserDatabase::verify(self.login_username.as_str(), self.login_password.as_str()) {
            self.login_error = None;
            if self.remember_me {
                self.config.remembered_username = Some(self.login_username.clone());
            } else {
                self.config.remembered_username = None;
            }
            effects.push(Effect::SaveConfig);
            self.state = AppState::Launcher;
            self.tab_switch_counter = self.tab_switch_counter + 1;
            effects.push(Effect::FetchReleases);
            if self.check_app_updates() {
                effects.push(Effect::RequestLatestRelease);
            }
        } else {
            self.login_error = Some("Invalid username or password".to_owned());
        }
        assert(views(effects@) == old(self)@.login_effects());
        effects
    }

    /// Signs out: nobody is remembered, and the password is forgotten.
    pub fn logout(&mut self) -> (effects: Vec<Effect>)
        requires
            old(self).tab_switch_counter < u64::MAX,
        ensures
            final(self)@ == old(self)@.logged_out(),
            views(effects@) == seq![EffectView::SaveConfig],
    {
        let mut effects: Vec<Effect> = Vec::new();
        self.config.remembered_username = None;
        effects.push(Effect::SaveConfig);
        self.state = AppState::Login;
        self.tab = LauncherTab::Store;
        self.tab_switch_counter = self.tab_switch_counter + 1;
        self.login_password = String::new();
        assert(views(effects@) == seq![EffectView::SaveConfig]);
        effects
    }

    /// Goes back to the page that was shown before.
    pub fn go_back(&mut self)
        requires
            old(self)@.with_tab(old(self).previous_tab).tab_switch_counter <= u64::MAX,
        ensures
            final(self)@ == old(self)@.with_tab(old(self).previous_tab),
            final(self)@ == old(self)@.gone_back(),
    {
        self.change_tab(self.previous_tab);
    }

    /// Has an update of the launcher prepared from the given package.
    pub fn download_app_update(&mut self, asset: GithubAsset) -> (effect: Effect)
        ensures
            final(self)@ == old(self)@.update_started(),
            effect@ == EffectView::StartAppUpdate(asset@),
    {
        self.app_update_downloading = true;
        self.app_update_progress = Progress::At { percent: 0 };
        self.app_update_status = "Preparing update...".to_owned();
        Effect::StartAppUpdate(asset)
    }

    /// Has a game installed from the given package.
    pub fn download_and_install(&mut self, asset: GithubAsset, game_name: String) -> (effect: Effect)
        ensures
            final(self)@ == old(self)@.install_started(),
            effect@ == EffectView::StartInstall(asset@, game_name@),
    {
        self.is_downloading = true;
        self.download_progress = Progress::At { percent: 0 };
        self.download_status = "Starting download...".to_owned();
        Effect::StartInstall(asset, game_name)
    }

    /// Takes in what came of an attempt to start a game.
    pub fn launch_game(&mut self, outcome: LaunchOutcome)
        ensures
            final(self)@ == old(self)@.launch_attempted(outcome@),
    {
        self.download_status =
        match outcome {
            LaunchOutcome::Started => String::new(),
            LaunchOutcome::Failed(e) => join("Error launching game: ", e.as_str()),
            LaunchOutcome::NoExecutable => "No executable found in game folder".to_owned(),
        };
    }

    /// Searches for nothing any more.
    pub fn clear_search(&mut self)
        ensures
            final(self)@ == old(self)@.search_cleared(),
    {
        self.search_query = String::new();
    }

    /// Forgets that the list of games could not be had: it is asked for anew.
    pub fn retry_fetch(&mut self)
        ensures
            final(self)@ == old(self)@.fetch_retried(),
    {
        self.fetch_error = None;
    }

    /// Opens the page of the game at a position of the list.
    pub fn show_details(&mut self, index: usize)
        requires
            old(self)@.details_shown(index).tab_switch_counter <= u64::MAX,
        ensures
            final(self)@ == old(self)@.details_shown(index),
    {
        self.selected_release_idx = Some(index);
        self.change_tab(LauncherTab::GameDetails);
    }

    /// Takes in one message; a plan to update the launcher is handed back.
    pub fn process_message(&mut self, msg: AppMsg) -> (plan: Option<UpdatePlan>)
        ensures
            final(self)@ == old(self)@.after_message(msg@),
            opt_view(plan) == plan_in(msg@),
    {
        match msg {
            AppMsg::ReleasesFetched(Ok(data)) => {
                self.releases = Some(data);
                self.fetch_error = None;
            },
            AppMsg::ReleasesFetched(Err(e)) => {
                self.fetch_error = Some(e);
            },
            AppMsg::AppUpdateFetched(Ok(release)) => {
                self.checking_update = false;
                if Self::is_newer_version(release.tag_name.as_str(), APP_VERSION) {
                    self.app_update_info =
                    join3("Version ", release.tag_name.as_str(), " is available.");
                    self.latest_app_release = Some(release);
                    self.show_update_modal = true;
                } else {
                    self.latest_app_release = None;
                    self.app_update_info = "Launcher is up to date.".to_owned();
                }
            },
            AppMsg::AppUpdateFetched(Err(e)) => {
                self.checking_update = false;
                self.app_update_info = join("Update check failed: ", e.as_str());
            },
            AppMsg::AppUpdateProgress(progress, status) => {
                self.app_update_progress = progress;
                self.app_update_status = status;
            },
            AppMsg::AppUpdateReady(plan) => {
                return Some(plan);
            },
            AppMsg::AppUpdateError(err) => {
                self.app_update_downloading = false;
                self.app_update_status = join("Update error: ", err.as_str());
                self.app_update_info = join("\u{274c} ", err.as_str());
            },
            AppMsg::DownloadProgress(progress, status) => {
                self.download_progress = progress;
                self.download_status = status;
            },
            AppMsg::DownloadComplete(name) => {
                self.is_downloading = false;
                self.download_progress = Progress::At { percent: 100 };
                self.download_status = name;
            },
            AppMsg::DownloadError(err) => {
                self.is_downloading = false;
                self.download_status = join("Error: ", err.as_str());
            },
        }
        None
    }

    /// Takes in the messages in order. At the first plan to update the launcher
    /// it stops and hands the plan back: the launcher is about to end.
    pub fn process_messages(&mut self, msgs: Vec<AppMsg>) -> (plan: Option<UpdatePlan>)
        ensures
            final(self)@ == old(self)@.after_messages(views(msgs@)),
            opt_view(plan) == first_plan(views(msgs@)),
    {
        let mut left: Vec<AppMsg> = msgs;
        while left.len() > 0
            invariant
                old(self)@.after_messages(views(msgs@)) == self@.after_messages(views(left@)),
                first_plan(views(msgs@)) == first_plan(views(left@)),
            decreases left@.len(),
        {
            let ghost now = views(left@);
            let msg: AppMsg = left.remove(0);
            assert(now[0] == msg@);
            assert(now.drop_first() == views(left@));
            let plan: Option<UpdatePlan> = self.process_message(msg);
            if plan.is_some() {
                return plan;
            }
        }
        None
    }
}

/// The settings that the launcher starts with are those that were saved.
pub proof fn law_settings_survive_restart(config: ConfigView)
    ensures
        started(Some(config)).config == config,
{
}

/// Somebody who signs in and asks to be remembered is signed in, under the same
/// name, when the launcher is started again.
pub proof fn law_remembered_user_is_signed_in(app: AppView)
    requires
        credentials_accepted(app.login_username, app.login_password),
        app.remember_me,
    ensures
        started(Some(app.login_attempted().config)).state == AppState::Launcher,
        started(Some(app.login_attempted().config)).login_username == app.login_username,
        started(Some(app.login_attempted().config)).remember_me,
{
}

/// Somebody who does not ask to be remembered, or who signs out, has to sign in
/// when the launcher is started again.
pub proof fn law_forgotten_user_signs_in_again(app: AppView)
    ensures
        credentials_accepted(app.login_username, app.login_password) && !app.remember_me
            ==> started(Some(app.login_attempted().config)).state == AppState::Login,
        started(Some(app.logged_out().config)).state == AppState::Login,
        started(Some(app.logged_out().config)).login_password.len() == 0,
{
}

/// The launcher is entered with accepted credentials only; others are told so,
/// and nothing else changes or is done.
pub proof fn law_only_accepted_credentials_enter(app: AppView)
    ensures
        app.state == AppState::Login ==> (app.login_attempted().state == AppState::Launcher
            <==> credentials_accepted(app.login_username, app.login_password)),
        !credentials_accepted(app.login_username, app.login_password) ==> app.login_attempted()
            == (AppView { login_error: Some("Invalid username or password"@), ..app })
            && app.login_effects().len() == 0,
{
}

/// Signing in or out leaves the library and the theme as they are.
pub proof fn law_sign_in_keeps_settings(app: AppView)
    ensures
        app.login_attempted().config.library == app.config.library,
        app.login_attempted().config.theme == app.config.theme,
        app.logged_out().config.library == app.config.library,
        app.logged_out().config.theme == app.config.theme,
{
}

/// Going back after a change of page leads to the page before it.
pub proof fn law_back_returns(app: AppView, tab: LauncherTab)
    ensures
        app.tab != tab ==> app.with_tab(tab).previous_tab == app.tab,
        app.tab != tab ==> app.with_tab(tab).with_tab(app.with_tab(tab).previous_tab).tab
            == app.tab,
        app.with_tab(tab).tab == tab,
{
}

/// The changes of page are counted: one for each that leads to another page.
pub proof fn law_page_changes_are_counted(app: AppView, tab: LauncherTab)
    ensures
        app.with_tab(tab).tab_switch_counter == app.tab_switch_counter + (if app.tab == tab {
            0int
        } else {
            1
        }),
{
}

/// A list of games that could not be had leaves the list that is known; one
/// that came takes its place and clears the failure.
pub proof fn law_failed_fetch_keeps_games(app: AppView, e: Seq<char>, list: Seq<ReleaseView>)
    ensures
        app.after_message(MsgView::ReleasesFetched(Err(e))).releases == app.releases,
        app.after_message(MsgView::ReleasesFetched(Err(e))).fetch_error == Some(e),
        app.after_message(MsgView::ReleasesFetched(Ok(list))).releases == Some(list),
        app.after_message(MsgView::ReleasesFetched(Ok(list))).fetch_error is None,
{
}

impl AppView {
    /// Whether the release that is offered as an update, if there is one, is
    /// newer than this launcher.
    pub open spec fn offers_newer(self) -> bool {
        match self.latest_app_release {
            Some(release) => newer(release.tag_name, APP_VERSION@),
            None => true,
        }
    }
}

/// Only a newer version is ever offered as an update: it is so at the start and
/// stays so after every message, and no other message opens the window that
/// tells of it.
pub proof fn law_only_newer_versions_are_offered(
    app: AppView,
    loaded: Option<ConfigView>,
    msg: MsgView,
)
    ensures
        started(loaded).offers_newer(),
        app.offers_newer() ==> app.after_message(msg).offers_newer(),
        !app.show_update_modal && app.after_message(msg).show_update_modal ==> (
        app.after_message(msg).latest_app_release matches Some(release) && msg
            == MsgView::AppUpdateFetched(Ok(release)) && newer(release.tag_name, APP_VERSION@)),
{
}

/// A check for a new version that is under way is not begun again, and its
/// reply, good or bad, ends it.
pub proof fn law_one_check_at_a_time(app: AppView, reply: Result<ReleaseView, Seq<char>>)
    ensures
        app.update_check_begun().checking_update,
        app.update_check_begun().update_check_begun() == app.update_check_begun(),
        !app.after_message(MsgView::AppUpdateFetched(reply)).checking_update,
{
}

/// An installation that is under way stays so until the message that it is
/// complete or has failed; the same holds of an update of the launcher.
pub proof fn law_downloads_end_by_message(app: AppView, msg: MsgView)
    ensures
        app.is_downloading ==> (app.after_message(msg).is_downloading <==> !(
        msg is DownloadComplete || msg is DownloadError)),
        app.app_update_downloading ==> (app.after_message(msg).app_update_downloading <==> !(
        msg is AppUpdateError)),
        !app.is_downloading ==> !app.after_message(msg).is_downloading,
        !app.app_update_downloading ==> !app.after_message(msg).app_update_downloading,
{
}

/// Messages can be taken in one batch or in two: where the first batch has no
/// plan to update the launcher, the state is the same.
pub proof fn law_messages_in_batches(app: AppView, a: Seq<MsgView>, b: Seq<MsgView>)
    requires
        first_plan(a) is None,
    ensures
        app.after_messages(a + b) == app.after_messages(a).after_messages(b),
        first_plan(a + b) == first_plan(b),
    decreases a.len(),
{
    if a.len() == 0 {
        assert(a + b == b);
    } else {
        assert((a + b)[0] == a[0]);
        assert((a + b).drop_first() == a.drop_first() + b);
        law_messages_in_batches(app.after_message(a[0]), a.drop_first(), b);
    }
}

/// What follows a plan to update the launcher is not taken in.
pub proof fn law_nothing_after_a_plan(
    app: AppView,
    a: Seq<MsgView>,
    plan: PlanView,
    b: Seq<MsgView>,
)
    requires
        first_plan(a) is None,
    ensures
        app.after_messages(a + (seq![MsgView::AppUpdateReady(plan)] + b)) == app.after_messages(a),
        first_plan(a + (seq![MsgView::AppUpdateReady(plan)] + b)) == Some(plan),
{
    law_messages_in_batches(app, a, seq![MsgView::AppUpdateReady(plan)] + b);
}

/// The number of messages that are taken in: those before the first plan to
/// update the launcher.
pub open spec fn taken(msgs: Seq<MsgView>) -> nat
    decreases msgs.len(),
{
    if msgs.len() == 0 || msgs[0] is AppUpdateReady {
        0
    } else {
        1 + taken(msgs.drop_first())
    }
}

/// Whether one of the messages that are taken in is of a kind.
pub open spec fn takes(msgs: Seq<MsgView>, kind: spec_fn(MsgView) -> bool) -> bool {
    exists|i: int| 0 <= i < taken(msgs) && kind(#[trigger] msgs[i])
}

/// A message of a kind is taken in if it is the first one, or among the others.
proof fn lemma_takes(msgs: Seq<MsgView>, kind: spec_fn(MsgView) -> bool)
    ensures
        taken(msgs) <= msgs.len(),
        msgs.len() > 0 && !(msgs[0] is AppUpdateReady) ==> (takes(msgs, kind) <==> kind(msgs[0])
            || takes(msgs.drop_first(), kind)),
    decreases msgs.len(),
{
    if msgs.len() > 0 && !(msgs[0] is AppUpdateReady) {
        let rest = msgs.drop_first();
        lemma_takes(rest, kind);
        if takes(msgs, kind) && !kind(msgs[0]) {
            let i = choose|i: int| 0 <= i < taken(msgs) && kind(#[trigger] msgs[i]);
            assert(kind(rest[i - 1]));
        }
        if takes(rest, kind) {
            let i = choose|i: int| 0 <= i < taken(rest) && kind(#[trigger] rest[i]);
            assert(kind(msgs[i + 1]));
        }
    }
}

/// Of all that waits in the queue, an installation that is under way is ended by
/// the message that it is complete or has failed, an update of the launcher by
/// the message that it has failed, and a check for a new version by its reply,
/// and by nothing else; none of them is begun.
pub proof fn law_queue_ends_what_is_under_way(app: AppView, msgs: Seq<MsgView>)
    ensures
        app.after_messages(msgs).is_downloading <==> app.is_downloading && !takes(
            msgs,
            |m: MsgView| m is DownloadComplete || m is DownloadError,
        ),
        app.after_messages(msgs).app_update_downloading <==> app.app_update_downloading && !takes(
            msgs,
            |m: MsgView| m is AppUpdateError,
        ),
        app.after_messages(msgs).checking_update <==> app.checking_update && !takes(
            msgs,
            |m: MsgView| m is AppUpdateFetched,
        ),
    decreases msgs.len(),
{
    lemma_takes(msgs, |m: MsgView| m is DownloadComplete || m is DownloadError);
    lemma_takes(msgs, |m: MsgView| m is AppUpdateError);
    lemma_takes(msgs, |m: MsgView| m is AppUpdateFetched);
    if msgs.len() > 0 && !(msgs[0] is AppUpdateReady) {
        law_queue_ends_what_is_under_way(app.after_message(msgs[0]), msgs.drop_first());
    }
}

/// No message changes who is signed in, what was typed, which page is shown, or
/// the settings.
pub proof fn law_queue_keeps_what_the_user_chose(app: AppView, msgs: Seq<MsgView>)
    ensures
        app.after_messages(msgs).state == app.state,
        app.after_messages(msgs).tab == app.tab,
        app.after_messages(msgs).previous_tab == app.previous_tab,
        app.after_messages(msgs).tab_switch_counter == app.tab_switch_counter,
        app.after_messages(msgs).selected_release_idx == app.selected_release_idx,
        app.after_messages(msgs).login_username == app.login_username,
        app.after_messages(msgs).login_password == app.login_password,
        app.after_messages(msgs).remember_me == app.remember_me,
        app.after_messages(msgs).login_error == app.login_error,
        app.after_messages(msgs).config == app.config,
        app.after_messages(msgs).search_query == app.search_query,
    decreases msgs.len(),
{
    if msgs.len() > 0 && !(msgs[0] is AppUpdateReady) {
        law_queue_keeps_what_the_user_chose(app.after_message(msgs[0]), msgs.drop_first());
    }
}

/// Only a newer version is offered as an update after all that waits in the
/// queue, if it was so before.
pub proof fn law_queue_offers_newer_versions(app: AppView, msgs: Seq<MsgView>)
    requires
        app.offers_newer(),
    ensures
        app.after_messages(msgs).offers_newer(),
    decreases msgs.len(),
{
    if msgs.len() > 0 && !(msgs[0] is AppUpdateReady) {
        law_queue_offers_newer_versions(app.after_message(msgs[0]), msgs.drop_first());
    }
}

/// This launcher is version 3.0.
pub proof fn law_version_of_this_launcher()
    ensures
        APP_VERSION@ == seq!['v', '3', '.', '0'],
{
    reveal_strlit("v3.0");
    assert("v3.0"@ == seq!['v', '3', '.', '0']);
}

/// How the launcher starts: on the store, with nothing typed but the name of
/// whoever is remembered, with nothing known, shown or under way. Whoever is
/// remembered is signed in, and then the games and the latest version are asked
/// for.
pub proof fn law_how_the_launcher_starts(config: ConfigView)
    ensures
        ({
            let app = started(Some(config));
            let effects = start_effects(Some(config));
            &&& app.config == config
            &&& app.tab == LauncherTab::Store && app.previous_tab == LauncherTab::Store
            &&& app.tab_switch_counter == 0
            &&& app.selected_release_idx is None
            &&& app.login_password.len() == 0
            &&& app.login_error is None
            &&& app.releases is None && app.fetch_error is None
            &&& app.latest_app_release is None
            &&& !app.show_update_modal && !app.app_update_downloading && !app.is_downloading
            &&& app.app_update_progress == (Progress::At { percent: 0 })
            &&& app.download_progress == (Progress::At { percent: 0 })
            &&& app.app_update_status.len() == 0 && app.download_status.len() == 0
            &&& app.search_query.len() == 0
            &&& config.remembered_username matches Some(user) ==> app.state == AppState::Launcher
                && app.login_username == user && app.remember_me && app.checking_update
                && app.app_update_info == "Checking for updates..."@ && effects
                == seq![EffectView::ApplyTheme, EffectView::FetchReleases, EffectView::RequestLatestRelease]
            &&& config.remembered_username is None ==> app.state == AppState::Login
                && app.login_username.len() == 0 && !app.remember_me && !app.checking_update
                && app.app_update_info.len() == 0 && effects == seq![EffectView::ApplyTheme]
        }),
        started(None) == started(
            Some(ConfigView { remembered_username: None, library: seq![], theme: AppTheme::Dark }),
        ),
        start_effects(None) == seq![EffectView::ApplyTheme],
{
    assert(default_config() == (ConfigView {
        remembered_username: None,
        library: seq![],
        theme: AppTheme::Dark,
    }));
}

/// What signing in changes and has done: the name is remembered if that was asked
/// for, and else nobody is; the settings are saved, the games are asked for, and
/// the latest version unless it is being asked for. Nothing else changes.
pub proof fn law_what_signing_in_does(app: AppView)
    requires
        app.login_username == seq!['g', 'u', 'e', 's', 't'],
        app.login_password == seq!['1', '2', '3', '4'],
    ensures
        app.login_attempted() == (AppView {
            state: AppState::Launcher,
            login_error: None,
            config: ConfigView {
                remembered_username: if app.remember_me {
                    Some(app.login_username)
                } else {
                    None
                },
                library: app.config.library,
                theme: app.config.theme,
            },
            tab_switch_counter: app.tab_switch_counter + 1,
            checking_update: true,
            app_update_info: if app.checking_update {
                app.app_update_info
            } else {
                "Checking for updates..."@
            },
            ..app
        }),
        app.checking_update ==> app.login_effects() == seq![
            EffectView::SaveConfig,
            EffectView::FetchReleases,
        ],
        !app.checking_update ==> app.login_effects() == seq![
            EffectView::SaveConfig,
            EffectView::FetchReleases,
            EffectView::RequestLatestRelease,
        ],
{
    law_guest_is_the_only_account(app.login_username, app.login_password);
}

/// What signing out changes: nobody is remembered or signed in, the password is
/// forgotten, and the store is the page; the name that was typed stays, and so
/// does all else.
pub proof fn law_what_signing_out_does(app: AppView)
    ensures
        app.logged_out() == (AppView {
            state: AppState::Login,
            tab: LauncherTab::Store,
            tab_switch_counter: app.tab_switch_counter + 1,
            login_password: seq![],
            config: ConfigView {
                remembered_username: None,
                library: app.config.library,
                theme: app.config.theme,
            },
            ..app
        }),
{
}

/// What the steps of the launcher change, and that they change nothing else.
pub proof fn law_what_steps_change(
    app: AppView,
    tab: LauncherTab,
    index: usize,
    game: Seq<char>,
    e: Seq<char>,
)
    ensures
        app.tab == tab ==> app.with_tab(tab) == app,
        app.tab != tab ==> app.with_tab(tab) == (AppView {
            tab,
            previous_tab: app.tab,
            tab_switch_counter: app.tab_switch_counter + 1,
            ..app
        }),
        app.tab == LauncherTab::GameDetails ==> app.details_shown(index) == (AppView {
            selected_release_idx: Some(index),
            ..app
        }),
        app.tab != LauncherTab::GameDetails ==> app.details_shown(index) == (AppView {
            selected_release_idx: Some(index),
            tab: LauncherTab::GameDetails,
            previous_tab: app.tab,
            tab_switch_counter: app.tab_switch_counter + 1,
            ..app
        }),
        app.update_started() == (AppView {
            app_update_downloading: true,
            app_update_progress: Progress::At { percent: 0 },
            app_update_status: "Preparing update..."@,
            ..app
        }),
        app.install_started() == (AppView {
            is_downloading: true,
            download_progress: Progress::At { percent: 0 },
            download_status: "Starting download..."@,
            ..app
        }),
        app.checking_update ==> app.update_check_begun() == app,
        !app.checking_update ==> app.update_check_begun() == (AppView {
            checking_update: true,
            app_update_info: "Checking for updates..."@,
            ..app
        }),
        app.search_cleared() == (AppView { search_query: seq![], ..app }),
        app.fetch_retried() == (AppView { fetch_error: None, ..app }),
        app.launch_attempted(LaunchView::Started) == (AppView { download_status: seq![], ..app }),
        app.launch_attempted(LaunchView::Failed(e)) == (AppView {
            download_status: "Error launching game: "@ + e,
            ..app
        }),
        app.launch_attempted(LaunchView::NoExecutable) == (AppView {
            download_status: "No executable found in game folder"@,
            ..app
        }),
        app.config.library.contains(game) ==> app.game_added(game) == app
            && app.game_added_effects(game).len() == 0,
        !app.config.library.contains(game) ==> app.game_added(game) == (AppView {
            config: ConfigView { library: app.config.library.push(game), ..app.config },
            ..app
        }) && app.game_added_effects(game) == seq![EffectView::SaveConfig],
        app.game_removed(game).config.library == library_without(app.config.library, game),
        app.game_removed(game) == (AppView {
            config: ConfigView {
                library: app.game_removed(game).config.library,
                remembered_username: app.config.remembered_username,
                theme: app.config.theme,
            },
            ..app
        }),
{
}

/// What the messages of the server change, and that they change nothing else.
pub proof fn law_what_replies_change(
    app: AppView,
    list: Seq<ReleaseView>,
    release: ReleaseView,
    e: Seq<char>,
)
    ensures
        app.after_message(MsgView::ReleasesFetched(Ok(list))) == (AppView {
            releases: Some(list),
            fetch_error: None,
            ..app
        }),
        app.after_message(MsgView::ReleasesFetched(Err(e))) == (AppView {
            fetch_error: Some(e),
            ..app
        }),
        newer(release.tag_name, APP_VERSION@) ==> app.after_message(
            MsgView::AppUpdateFetched(Ok(release)),
        ) == (AppView {
            checking_update: false,
            latest_app_release: Some(release),
            show_update_modal: true,
            app_update_info: "Version "@ + release.tag_name + " is available."@,
            ..app
        }),
        !newer(release.tag_name, APP_VERSION@) ==> app.after_message(
            MsgView::AppUpdateFetched(Ok(release)),
        ) == (AppView {
            checking_update: false,
            latest_app_release: None,
            app_update_info: "Launcher is up to date."@,
            ..app
        }),
        app.after_message(MsgView::AppUpdateFetched(Err(e))) == (AppView {
            checking_update: false,
            app_update_info: "Update check failed: "@ + e,
            ..app
        }),
{
}

/// What the messages of the jobs change, and that they change nothing else.
pub proof fn law_what_reports_change(
    app: AppView,
    progress: Progress,
    text: Seq<char>,
    plan: PlanView,
)
    ensures
        app.after_message(MsgView::AppUpdateProgress(progress, text)) == (AppView {
            app_update_progress: progress,
            app_update_status: text,
            ..app
        }),
        app.after_message(MsgView::AppUpdateReady(plan)) == app,
        app.after_message(MsgView::AppUpdateError(text)) == (AppView {
            app_update_downloading: false,
            app_update_status: "Update error: "@ + text,
            app_update_info: "\u{274c} "@ + text,
            ..app
        }),
        app.after_message(MsgView::DownloadProgress(progress, text)) == (AppView {
            download_progress: progress,
            download_status: text,
            ..app
        }),
        app.after_message(MsgView::DownloadComplete(text)) == (AppView {
            is_downloading: false,
            download_progress: Progress::At { percent: 100 },
            download_status: text,
            ..app
        }),
        app.after_message(MsgView::DownloadError(text)) == (AppView {
            is_downloading: false,
            download_status: "Error: "@ + text,
            ..app
        }),
{
}

/// A queue of no message changes nothing, and a queue of one changes what the
/// message changes; a plan is found in the message that carries it, and in no
/// other.
pub proof fn law_queue_of_one_message(app: AppView, msg: MsgView, plan: PlanView)
    ensures
        app.after_messages(seq![]) == app,
        first_plan(seq![]) is None,
        app.after_messages(seq![msg]) == app.after_message(msg),
        msg == MsgView::AppUpdateReady(plan) ==> first_plan(seq![msg]) == Some(plan) && plan_in(msg)
            == Some(plan),
        !(msg is AppUpdateReady) ==> first_plan(seq![msg]) is None && plan_in(msg) is None,
{
    let rest = seq![msg].drop_first();
    assert(rest == Seq::<MsgView>::empty());
    assert(app.after_message(msg).after_messages(rest) == app.after_message(msg));
    assert(first_plan(rest) is None);
}

/// Going back leads to the page before, and from there back again; where the page
/// before is the page that is shown, nothing changes.
pub proof fn law_what_going_back_does(app: AppView)
    ensures
        app.tab == app.previous_tab ==> app.gone_back() == app,
        app.tab != app.previous_tab ==> app.gone_back() == (AppView {
            tab: app.previous_tab,
            previous_tab: app.tab,
            tab_switch_counter: app.tab_switch_counter + 1,
            ..app
        }),
        app.gone_back().gone_back().tab == app.tab,
{
}

} // verus!
