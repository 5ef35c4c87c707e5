//! The bars, the page of one game, and the window that tells of a new version.
use crate::games::{control_of, GameControl};
use crate::install::{game_folder, game_location};
use crate::launcher::{
    AppView, Effect, EffectView, LaunchView, LauncherTab, Vault64App, APP_VERSION,
};
use crate::location::{Base, Location, LocationView};
use crate::message::MsgView;
use crate::naming::{hue_of, safe};
use crate::progress::Progress;
use crate::release::{
    clone_opt, package_of, update_asset_of, AssetView, GithubAsset, GithubRelease, ReleaseView,
};
use crate::text::{begins_with, join, join3, opt_view, starts_with, views};
use vstd::prelude::*;

verus! {

/// The bar at the bottom.
#[derive(Debug)]
pub enum BottomBar {
    /// An update of the launcher is being prepared.
    AppUpdate(String),
    /// A game is being installed.
    Installing(String),
    /// What happened last; whether it went wrong.
    Status { text: String, failure: bool },
    Blank,
}

/// What a `BottomBar` shows.
#[verifier::ext_equal]
pub enum BottomBarView {
    AppUpdate(Seq<char>),
    Installing(Seq<char>),
    Status { text: Seq<char>, failure: bool },
    Blank,
}

impl View for BottomBar {
    type V = BottomBarView;

    open spec fn view(&self) -> BottomBarView {
        match *self {
            BottomBar::AppUpdate(text) => BottomBarView::AppUpdate(text@),
            BottomBar::Installing(text) => BottomBarView::Installing(text@),
            BottomBar::Status { text, failure } => BottomBarView::Status { text: text@, failure },
            BottomBar::Blank => BottomBarView::Blank,
        }
    }
}

/// The window that tells of a new version.
#[derive(Debug)]
pub enum UpdateModal {
    Hidden,
    /// Nothing is known of a new version; the window closes.
    NoInformation,
    /// The new version is being downloaded.
    Downloading { title: String, current: String, status: String },
    /// The new version can be installed, if it has a package.
    Available {
        title: String,
        current: String,
        notes: Option<String>,
        package: Option<GithubAsset>,
        failure: Option<String>,
    },
}

/// What an `UpdateModal` shows.
#[verifier::ext_equal]
pub enum ModalView {
    Hidden,
    NoInformation,
    Downloading { title: Seq<char>, current: Seq<char>, status: Seq<char> },
    Available {
        title: Seq<char>,
        current: Seq<char>,
        notes: Option<Seq<char>>,
        package: Option<AssetView>,
        failure: Option<Seq<char>>,
    },
}

impl View for UpdateModal {
    type V = ModalView;

    open spec fn view(&self) -> ModalView {
        match *self {
            UpdateModal::Hidden => ModalView::Hidden,
            UpdateModal::NoInformation => ModalView::NoInformation,
            UpdateModal::Downloading { title, current, status } => ModalView::Downloading {
                title: title@,
                current: current@,
                status: status@,
            },
            UpdateModal::Available { title, current, notes, package, failure } => ModalView::Available {
                title: title@,
                current: current@,
                notes: opt_view(notes),
                package: opt_view(package),
                failure: opt_view(failure),
            },
        }
    }
}

/// The page of one game.
#[derive(Debug)]
pub struct GameDetails {
    pub game_name: String,
    /// The name under which the library knows the game.
    pub safe_name: String,
    /// Where the game is installed, if it is.
    pub folder: Location,
    pub in_library: bool,
    /// What the game is installed from.
    pub package: Option<GithubAsset>,
    pub description: Option<String>,
    /// The hue of the game's colour, in degrees.
    pub hue: u32,
}

/// What a `GameDetails` shows.
#[verifier::ext_equal]
pub struct DetailsView {
    pub game_name: Seq<char>,
    pub safe_name: Seq<char>,
    pub folder: LocationView,
    pub in_library: bool,
    pub package: Option<AssetView>,
    pub description: Option<Seq<char>>,
    pub hue: int,
}

impl View for GameDetails {
    type V = DetailsView;

    open spec fn view(&self) -> DetailsView {
        DetailsView {
            game_name: self.game_name@,
            safe_name: self.safe_name@,
            folder: self.folder@,
            in_library: self.in_library,
            package: opt_view(self.package),
            description: opt_view(self.description),
            hue: self.hue as int,
        }
    }
}

/// What the settings page tells of updates of the launcher.
#[derive(Debug)]
pub struct UpdateSettings {
    pub version: String,
    /// What is known of a new version, if anything.
    pub info: Option<String>,
    /// Whether a check is under way.
    pub checking: bool,
    /// Whether the page offers to show the new version.
    pub can_view: bool,
}

/// What an `UpdateSettings` tells.
#[verifier::ext_equal]
pub struct UpdateSettingsView {
    pub version: Seq<char>,
    pub info: Option<Seq<char>>,
    pub checking: bool,
    pub can_view: bool,
}

impl View for UpdateSettings {
    type V = UpdateSettingsView;

    open spec fn view(&self) -> UpdateSettingsView {
        UpdateSettingsView {
            version: self.version@,
            info: opt_view(self.info),
            checking: self.checking,
            can_view: self.can_view,
        }
    }
}

impl AppView {
    /// The bar at the bottom.
    pub open spec fn bottom_bar(self) -> BottomBarView {
        if self.app_update_downloading {
            BottomBarView::AppUpdate(self.app_update_status)
        } else if self.is_downloading {
            BottomBarView::Installing(self.download_status)
        } else if self.download_status.len() > 0 {
            BottomBarView::Status {
                text: self.download_status,
                failure: begins_with(self.download_status, "Error"@),
            }
        } else {
            BottomBarView::Blank
        }
    }

    /// The window that tells of a new version, given the package of that version.
    pub open spec fn modal_for(self, package: Option<AssetView>) -> ModalView {
        match (self.show_update_modal, self.latest_app_release) {
            (false, _) => ModalView::Hidden,
            (true, None) => ModalView::NoInformation,
            (true, Some(release)) => {
                let title = "Version "@ + release.tag_name + " is available"@;
                let current = "Current version: "@ + APP_VERSION@;
                if self.app_update_downloading {
                    ModalView::Downloading { title, current, status: self.app_update_status }
                } else {
                    ModalView::Available {
                        title,
                        current,
                        notes: release.body,
                        package,
                        failure: if begins_with(self.app_update_status, "Update error"@) {
                            Some(self.app_update_status)
                        } else {
                            None
                        },
                    }
                }
            },
        }
    }

    /// The package of the new version.
    pub open spec fn update_package(self) -> Option<AssetView> {
        match self.latest_app_release {
            Some(release) => update_asset_of(release),
            None => None,
        }
    }

    /// The window that tells of a new version.
    pub open spec fn update_modal(self) -> ModalView {
        self.modal_for(self.update_package())
    }

    /// The state after the window that tells of a new version was shown, and
    /// what is done then: it may have been asked to install the package, or to
    /// close.
    pub open spec fn modal_answered(
        self,
        package: Option<AssetView>,
        install: bool,
        later: bool,
    ) -> (AppView, Seq<EffectView>) {
        match self.modal_for(package) {
            ModalView::Hidden => (self, seq![]),
            ModalView::NoInformation => (AppView { show_update_modal: false, ..self }, seq![]),
            ModalView::Downloading { .. } => (self, seq![]),
            ModalView::Available { .. } => {
                let closed = AppView { show_update_modal: !later, ..self };
                match package {
                    Some(package) if install => (
                        closed.update_started(),
                        seq![EffectView::StartAppUpdate(package)],
                    ),
                    _ => (closed, seq![]),
                }
            },
        }
    }

    /// The release whose page is open.
    pub open spec fn selected_release(self) -> Option<ReleaseView> {
        match (self.selected_release_idx, self.releases) {
            (Some(i), Some(releases)) => if i < releases.len() {
                Some(releases[i as int])
            } else {
                None
            },
            _ => None,
        }
    }

    /// The page of one game, given the package of that game; none where the
    /// game is not found.
    pub open spec fn details_for(self, package: Option<AssetView>) -> Option<DetailsView> {
        match self.selected_release() {
            Some(release) => {
                let name = release.game_name();
                Some(
                    DetailsView {
                        game_name: name,
                        safe_name: safe(name),
                        folder: game_folder(safe(name)),
                        in_library: self.config.library.contains(safe(name)),
                        package,
                        description: release.body,
                        hue: hue_of(name),
                    },
                )
            },
            None => None,
        }
    }

    /// The package of the game whose page is open.
    pub open spec fn selected_package(self) -> Option<AssetView> {
        match self.selected_release() {
            Some(release) => package_of(release),
            None => None,
        }
    }

    /// The page of one game.
    pub open spec fn details(self) -> Option<DetailsView> {
        self.details_for(self.selected_package())
    }

    /// What the settings page tells of updates of the launcher.
    pub open spec fn update_settings(self) -> UpdateSettingsView {
        UpdateSettingsView {
            version: APP_VERSION@,
            info: if self.app_update_info.len() > 0 {
                Some(self.app_update_info)
            } else {
                None
            },
            checking: self.checking_update,
            can_view: self.latest_app_release is Some && !self.app_update_downloading,
        }
    }

    /// Whether the bar at the top offers to go back, in place of the pages.
    pub open spec fn has_back(self) -> bool {
        self.tab == LauncherTab::GameDetails || self.tab == LauncherTab::Settings
    }
}

impl Vault64App {
    /// The bar at the bottom.
    pub fn bottom_bar(&self) -> (r: BottomBar)
        ensures
            r@ == self@.bottom_bar(),
    {
        if self.app_update_downloading {
            BottomBar::AppUpdate(self.app_update_status.clone())
        } else if self.is_downloading {
            BottomBar::Installing(self.download_status.clone())
        } else if !self.download_status.as_str().is_empty() {
            BottomBar::Status {
                text: self.download_status.clone(),
                failure: starts_with(self.download_status.as_str(), "Error"),
            }
        } else {
            BottomBar::Blank
        }
    }

    /// The window that tells of a new version, given the package of that version.
    pub fn modal_for(&self, package: Option<GithubAsset>) -> (r: UpdateModal)
        ensures
            r@ == self@.modal_for(opt_view(package)),
    {
        if !self.show_update_modal {
            return UpdateModal::Hidden;
        }
        match &self.latest_app_release {
            Some(release) => {
                let title: String = join3(
                    "Version ",
                    release.tag_name.as_str(),
                    " is available",
                );
                let current: String = join("Current version: ", APP_VERSION);
                if self.app_update_downloading {
                    UpdateModal::Downloading {
                        title,
                        current,
                        status: self.app_update_status.clone(),
                    }
                } else {
                    let failure: Option<String> = if starts_with(
                        self.app_update_status.as_str(),
                        "Update error",
                    ) {
                        Some(self.app_update_status.clone())
                    } else {
                        None
                    };
                    UpdateModal::Available {
                        title,
                        current,
                        notes: clone_opt(&release.body),
                        package,
                        failure,
                    }
                }
            },
            None => UpdateModal::NoInformation,
        }
    }

    /// The package of the new version.
    fn update_package(&self) -> (r: Option<GithubAsset>)
        ensures
            opt_view(r) == self@.update_package(),
    {
        match &self.latest_app_release {
            Some(release) => Self::find_update_asset(release),
            None => None,
        }
    }

    /// The window that tells of a new version.
    pub fn update_modal(&self) -> (r: UpdateModal)
        ensures
            r@ == self@.update_modal(),
    {
        self.modal_for(self.update_package())
    }

    /// Takes in how the window that tells of a new version was answered, given
    /// the package of that version.
    pub fn answer_modal_for(
        &mut self,
        package: Option<GithubAsset>,
        install: bool,
        later: bool,
    ) -> (effects: Vec<Effect>)
        ensures
            final(self)@ == old(self)@.modal_answered(opt_view(package), install, later).0,
            views(effects@) == old(self)@.modal_answered(opt_view(package), install, later).1,
    {
        let mut effects: Vec<Effect> = Vec::new();
        assert(views(effects@) == Seq::<EffectView>::empty());
        if !self.show_update_modal {
            return effects;
        }
        if self.latest_app_release.is_none() {
            self.show_update_modal = false;
            return effects;
        }
        if self.app_update_downloading {
            return effects;
        }
        self.show_update_modal = !later;
        if let Some(asset) = package {
            if install {
                effects.push(self.download_app_update(asset));
                assert(views(effects@) == seq![EffectView::StartAppUpdate(asset@)]);
            }
        }
        effects
    }

    /// Takes in how the window that tells of a new version was answered.
    pub fn answer_modal(&mut self, install: bool, later: bool) -> (effects: Vec<Effect>)
        ensures
            final(self)@ == old(self)@.modal_answered(
                old(self)@.update_package(),
                install,
                later,
            ).0,
            views(effects@) == old(self)@.modal_answered(
                old(self)@.update_package(),
                install,
                later,
            ).1,
    {
        let package: Option<GithubAsset> = self.update_package();
        self.answer_modal_for(package, install, later)
    }

    /// The release whose page is open.
    fn selected_release(&self) -> (r: Option<&GithubRelease>)
        ensures
            (match r {
                Some(release) => Some(release@),
                None => None,
            }) == self@.selected_release(),
    {
        match (self.selected_release_idx, &self.releases) {
            (Some(i), Some(releases)) => if i < releases.len() {
                assert(views(releases@)[i as int] == releases@[i as int]@);
                Some(&releases[i])
            } else {
                None
            },
            _ => None,
        }
    }

    /// The page of one game, given the package of that game; none where the
    /// game is not found.
    pub fn details_for(&self, package: Option<GithubAsset>) -> (r: Option<GameDetails>)
        ensures
            opt_view(r) == self@.details_for(opt_view(package)),
    {
        match self.selected_release() {
            Some(release) => {
                let game_name: String = release.game_name();
                let safe_name: String = Self::safe_name(game_name.as_str());
                let folder: Location = game_location(safe_name.as_str());
                let in_library: bool = self.config.in_library(safe_name.as_str());
                let hue: u32 = Self::hash_hue(game_name.as_str());
                Some(
                    GameDetails {
                        game_name,
                        safe_name,
                        folder,
                        in_library,
                        package,
                        description: clone_opt(&release.body),
                        hue,
                    },
                )
            },
            None => None,
        }
    }

    /// The page of one game; none where the game is not found.
    pub fn details(&self) -> (r: Option<GameDetails>)
        ensures
            opt_view(r) == self@.details(),
    {
        self.details_for(self.selected_package())
    }

    /// The package of the game whose page is open.
    pub(crate) fn selected_package(&self) -> (r: Option<GithubAsset>)
        ensures
            opt_view(r) == self@.selected_package(),
    {
        match self.selected_release() {
            Some(release) => release.game_package(),
            None => None,
        }
    }

    /// What the page of one game offers to do with it, given whether it is
    /// installed: nothing before it is in the library.
    pub fn details_control(&self, details: &GameDetails, installed: bool) -> (r: Option<GameControl>)
        ensures
            !details.in_library ==> r is None,
            details.in_library ==> opt_view(r) == Some(
                control_of(opt_view(details.package), installed, self@.is_downloading),
            ),
    {
        if details.in_library {
            Some(self.game_control(&details.package, installed))
        } else {
            None
        }
    }

    /// What the settings page tells of updates of the launcher.
    pub fn update_settings(&self) -> (r: UpdateSettings)
        ensures
            r@ == self@.update_settings(),
    {
        let info: Option<String> = if self.app_update_info.as_str().is_empty() {
            None
        } else {
            Some(self.app_update_info.clone())
        };
        UpdateSettings {
            version: APP_VERSION.to_owned(),
            info,
            checking: self.checking_update,
            can_view: self.latest_app_release.is_some() && !self.app_update_downloading,
        }
    }

    /// Whether something stands in the search box, so that it can be cleared.
    pub fn can_clear_search(&self) -> (r: bool)
        ensures
            r == (self@.search_query.len() > 0),
    {
        !self.search_query.as_str().is_empty()
    }

    /// Whether the bar at the top offers to go back, in place of the pages.
    pub fn has_back(&self) -> (r: bool)
        ensures
            r == self@.has_back(),
    {
        self.tab == LauncherTab::GameDetails || self.tab == LauncherTab::Settings
    }
}

/// A failure of an installation or of starting a game is shown as a failure,
/// unless an update of the launcher is shown in its place.
pub proof fn law_failures_are_marked(app: AppView, e: Seq<char>)
    requires
        !app.app_update_downloading,
    ensures
        app.after_message(MsgView::DownloadError(e)).bottom_bar() == (BottomBarView::Status {
            text: "Error: "@ + e,
            failure: true,
        }),
        !app.is_downloading ==> app.launch_attempted(LaunchView::Failed(e)).bottom_bar() == (
        BottomBarView::Status { text: "Error launching game: "@ + e, failure: true }),
{
    reveal_strlit("Error");
    reveal_strlit("Error: ");
    reveal_strlit("Error launching game: ");
    assert(("Error: "@ + e).subrange(0, 5) == "Error"@);
    assert(("Error launching game: "@ + e).subrange(0, 5) == "Error"@);
}

/// The name of a game that was installed is shown, and as no failure unless it
/// begins like one.
pub proof fn law_installed_game_is_announced(app: AppView, name: Seq<char>)
    requires
        !app.app_update_downloading,
        name.len() > 0,
        !begins_with(name, "Error"@),
    ensures
        app.after_message(MsgView::DownloadComplete(name)).bottom_bar() == (BottomBarView::Status {
            text: name,
            failure: false,
        }),
{
}

/// An update of the launcher that failed is told in the window that offers it,
/// and can be tried again there.
pub proof fn law_failed_update_is_told(app: AppView, e: Seq<char>, package: Option<AssetView>)
    requires
        app.show_update_modal,
        app.latest_app_release is Some,
    ensures
        app.after_message(MsgView::AppUpdateError(e)).modal_for(package) matches ModalView::Available {
            failure: Some(text),
            package: offered,
            ..
        } && text == "Update error: "@ + e && offered == package,
{
    reveal_strlit("Update error");
    reveal_strlit("Update error: ");
    assert(("Update error: "@ + e).subrange(0, 12) == "Update error"@);
}

/// An update of the launcher begins only where it is asked for, has a package
/// and is not under way already; then it begins with that package.
pub proof fn law_update_begins_on_request(
    app: AppView,
    package: Option<AssetView>,
    install: bool,
    later: bool,
)
    ensures
        app.modal_answered(package, install, later).1.len() > 0 <==> install && package is Some
            && app.show_update_modal && app.latest_app_release is Some
            && !app.app_update_downloading,
        app.modal_answered(package, install, later).1.len() > 0 ==> app.modal_answered(
            package,
            install,
            later,
        ).1 == seq![EffectView::StartAppUpdate(package->0)] && app.modal_answered(
            package,
            install,
            later,
        ).0.app_update_downloading,
{
}

/// What the bar at the bottom shows: an update of the launcher before all else,
/// then an installation, then what happened last, marked as a failure if and only
/// if it begins with the five letters of `Error`, and else nothing.
pub proof fn law_what_the_bottom_bar_shows(app: AppView)
    ensures
        app.app_update_downloading ==> app.bottom_bar() == BottomBarView::AppUpdate(
            app.app_update_status,
        ),
        !app.app_update_downloading && app.is_downloading ==> app.bottom_bar()
            == BottomBarView::Installing(app.download_status),
        !app.app_update_downloading && !app.is_downloading && app.download_status.len() == 0
            ==> app.bottom_bar() == BottomBarView::Blank,
        !app.app_update_downloading && !app.is_downloading && app.download_status.len() > 0
            ==> app.bottom_bar() == (BottomBarView::Status {
            text: app.download_status,
            failure: app.download_status.len() >= 5 && app.download_status.subrange(0, 5)
                == seq!['E', 'r', 'r', 'o', 'r'],
        }),
{
    reveal_strlit("Error");
    assert("Error"@ == seq!['E', 'r', 'r', 'o', 'r']);
}

/// What the window that tells of a new version shows: nothing while it is closed;
/// where no version is known, that; and else the version, this launcher's version,
/// and either how far the download has come, or the notes, the package, and what
/// went wrong with an earlier attempt.
pub proof fn law_what_the_update_window_shows(
    app: AppView,
    package: Option<AssetView>,
    release: ReleaseView,
    e: Seq<char>,
)
    ensures
        !app.show_update_modal ==> app.modal_for(package) == ModalView::Hidden,
        app.show_update_modal && app.latest_app_release is None ==> app.modal_for(package)
            == ModalView::NoInformation,
        app.show_update_modal && app.latest_app_release == Some(release) ==> {
            let title = "Version "@ + release.tag_name + " is available"@;
            let current = "Current version: "@ + APP_VERSION@;
            &&& app.app_update_downloading ==> app.modal_for(package) == (ModalView::Downloading {
                title,
                current,
                status: app.app_update_status,
            })
            &&& !app.app_update_downloading ==> (app.modal_for(package) matches ModalView::Available {
                title: shown,
                current: running,
                notes,
                package: offered,
                failure,
            } && shown == title && running == current && notes == release.body && offered == package
                && (app.app_update_status == "Update error"@ + e ==> failure == Some(
                app.app_update_status,
            )) && (failure is Some ==> failure == Some(app.app_update_status)
                && app.app_update_status.len() >= 12 && app.app_update_status.subrange(0, 12)
                == "Update error"@))
        },
        app.latest_app_release == Some(release) ==> app.update_package() == update_asset_of(
            release,
        ),
        app.latest_app_release is None ==> app.update_package() is None,
        app.update_modal() == app.modal_for(app.update_package()),
{
    reveal_strlit("Update error");
    let w = "Update error"@ + e;
    assert(w.subrange(0, 12) == "Update error"@);
}

/// How the window that tells of a new version is answered: where it is shown and
/// nothing is being downloaded, it closes if it was put off, and the update begins
/// if it was asked for and has a package; where no version is known it closes; and
/// otherwise nothing happens.
pub proof fn law_how_the_update_window_is_answered(
    app: AppView,
    package: Option<AssetView>,
    install: bool,
    later: bool,
)
    ensures
        ({
            let (after, effects) = app.modal_answered(package, install, later);
            let open = app.show_update_modal && app.latest_app_release is Some
                && !app.app_update_downloading;
            &&& app.show_update_modal && app.latest_app_release is None ==> after == (AppView {
                show_update_modal: false,
                ..app
            }) && effects.len() == 0
            &&& !app.show_update_modal || (app.latest_app_release is Some
                && app.app_update_downloading) ==> after == app && effects.len() == 0
            &&& open && install && package is Some ==> after == (AppView {
                show_update_modal: !later,
                app_update_downloading: true,
                app_update_progress: Progress::At { percent: 0 },
                app_update_status: "Preparing update..."@,
                ..app
            }) && effects == seq![EffectView::StartAppUpdate(package->0)]
            &&& open && !(install && package is Some) ==> after == (AppView {
                show_update_modal: !later,
                ..app
            }) && effects.len() == 0
        }),
{
}

/// The page of one game: there is one if and only if a game is chosen and the list
/// has it; it shows the name of the release or else its tag, and what belongs to
/// that name.
pub proof fn law_what_the_page_of_a_game_shows(
    app: AppView,
    package: Option<AssetView>,
    releases: Seq<ReleaseView>,
    i: usize,
)
    ensures
        app.selected_release_idx is None || app.releases is None ==> app.details_for(package) is None
            && app.selected_release() is None && app.selected_package() is None,
        app.selected_release_idx == Some(i) && app.releases == Some(releases) ==> {
            &&& i >= releases.len() ==> app.details_for(package) is None
                && app.selected_release() is None && app.selected_package() is None
            &&& i < releases.len() ==> {
                let release = releases[i as int];
                let name = match release.name {
                    Some(name) => name,
                    None => release.tag_name,
                };
                &&& app.selected_release() == Some(release)
                &&& app.selected_package() == package_of(release)
                &&& app.details_for(package) == Some(
                    DetailsView {
                        game_name: name,
                        safe_name: safe(name),
                        folder: LocationView {
                            base: Base::GamesDir,
                            parts: if name.len() > 0 {
                                seq![safe(name)]
                            } else {
                                seq![]
                            },
                        },
                        in_library: app.config.library.contains(safe(name)),
                        package,
                        description: release.body,
                        hue: hue_of(name),
                    },
                )
            }
        },
        app.details() == app.details_for(app.selected_package()),
{
    if let Some(release) = app.selected_release() {
        let name = release.game_name();
        assert(Seq::<Seq<char>>::empty().push(safe(name)) == seq![safe(name)]);
    }
}

/// What the settings page tells of updates, and on which pages one can go back.
pub proof fn law_what_the_settings_tell(app: AppView)
    ensures
        app.update_settings().version == APP_VERSION@,
        app.app_update_info.len() == 0 ==> app.update_settings().info is None,
        app.app_update_info.len() > 0 ==> app.update_settings().info == Some(app.app_update_info),
        app.update_settings().checking <==> app.checking_update,
        app.update_settings().can_view <==> app.latest_app_release is Some
            && !app.app_update_downloading,
        app.has_back() <==> app.tab != LauncherTab::Store && app.tab != LauncherTab::Library,
{
}

} // verus!
