//! What the clicks on the pages do.
use crate::config::{law_added_game_is_listed, library_without, AppTheme, ConfigView};
use crate::games::{
    control_of, law_library_lists_added_games, law_pages_show_what_they_list,
    law_store_lists_what_fits, opt_views, packages_of, ControlView, GameControl, Offer,
};
use crate::install::{game_folder, game_location};
use crate::launcher::{
    started, AppView, Effect, EffectView, LaunchView, LauncherTab, Vault64App,
};
use crate::location::{folder, Base, Location, LocationView};
use crate::naming::safe;
use crate::progress::Progress;
use crate::release::{AssetView, GithubAsset, ReleaseView};
use crate::screens::GameDetails;
use crate::text::{opt_view, views};
use vstd::prelude::*;

verus! {

/// A click on the card of a game.
#[derive(Clone, Copy, PartialEq, Eq, Structural, Debug)]
pub struct CardClick {
    /// The position of the game in the list of all games.
    pub index: usize,
    /// Whether the game is installed.
    pub installed: bool,
}

/// What was clicked in the store. Games are told by their position in the list
/// of all games.
#[derive(Clone, Copy, PartialEq, Eq, Debug)]
pub struct StoreClicks {
    pub clear_search: bool,
    pub retry_fetch: bool,
    /// The game to be added to the library.
    pub add: Option<usize>,
    /// The game whose page is to be opened.
    pub details: Option<usize>,
}

/// What was clicked in the library. Games are told by their position in the
/// list of all games.
#[derive(Clone, Copy, PartialEq, Eq, Debug)]
pub struct LibraryClicks {
    pub clear_search: bool,
    pub go_store: bool,
    /// The game to be removed from the library.
    pub remove: Option<usize>,
    /// The game whose page is to be opened.
    pub details: Option<usize>,
    /// The game to be installed.
    pub download: Option<CardClick>,
    /// The game to be played.
    pub launch: Option<CardClick>,
}

/// What was clicked on the page of one game.
#[derive(Clone, Copy, PartialEq, Eq, Debug)]
pub struct DetailsClicks {
    /// Whether the game is installed.
    pub installed: bool,
    pub add: bool,
    pub remove: bool,
    pub download: bool,
    pub launch: bool,
}

/// What was clicked on the settings page.
#[derive(Clone, Copy, PartialEq, Eq, Debug)]
pub struct SettingsClicks {
    pub theme: Option<AppTheme>,
    pub check_update: bool,
    pub open_games: bool,
    pub open_config: bool,
    pub view_update: bool,
}

/// A state and what is done with it.
pub type Outcome = (AppView, Seq<EffectView>);

/// What an order holds: a package and the name of the game that it installs.
pub open spec fn order_view(order: Option<(GithubAsset, String)>) -> Option<(AssetView, Seq<char>)> {
    match order {
        Some(o) => Some((o.0@, o.1@)),
        None => None,
    }
}

/// A further effect where it is asked for.
pub open spec fn if_asked(asked: bool, effect: EffectView) -> Seq<EffectView> {
    if asked {
        seq![effect]
    } else {
        seq![]
    }
}

/// What is ordered of a game, given what can be done with it: a package and the
/// name of the game that it installs.
pub open spec fn order_of(control: ControlView, name: Seq<char>, asked: bool) -> Option<
    (AssetView, Seq<char>),
> {
    match control {
        ControlView::Download { package, enabled } => if asked && enabled {
            Some((package, name))
        } else {
            None
        },
        _ => None,
    }
}

/// The folder of the game that is to be played, given what can be done with it.
pub open spec fn launch_of(control: ControlView, name: Seq<char>, asked: bool) -> Option<
    LocationView,
> {
    if asked && control == ControlView::Play {
        Some(game_folder(safe(name)))
    } else {
        None
    }
}

impl AppView {
    /// The state after a game may have been ordered.
    pub open spec fn ordered(self, order: Option<(AssetView, Seq<char>)>) -> AppView {
        match order {
            Some(_) => self.install_started(),
            None => self,
        }
    }

    /// The state after the page of a game may have been asked for.
    pub open spec fn details_asked(self, details: Option<usize>) -> AppView {
        match details {
            Some(index) => self.details_shown(index),
            None => self,
        }
    }

    /// The name under which the library knows the game at a position.
    pub open spec fn library_name(self, i: int) -> Seq<char> {
        safe(self.known_releases()[i].game_name())
    }

    /// The game that is added by clicks in the store, if one is.
    pub open spec fn added_in_store(self, fits: Seq<bool>, clicks: StoreClicks) -> Option<Seq<char>> {
        match clicks.add {
            Some(i) => if self.store_lists(fits, i as int) {
                Some(self.library_name(i as int))
            } else {
                None
            },
            None => None,
        }
    }

    /// What comes of the clicks in the store, given which releases fit the
    /// search and whether something is searched for. What the store does not
    /// offer cannot be clicked.
    pub open spec fn store_clicked_for(
        self,
        fits: Seq<bool>,
        searching: bool,
        clicks: StoreClicks,
    ) -> Outcome {
        let offer = self.store_page_for(fits, searching).offer();
        let added = self.added_in_store(fits, clicks);
        let retried = clicks.retry_fetch && offer == Offer::Retry;
        let a = if clicks.clear_search && offer == Offer::ClearSearch {
            self.search_cleared()
        } else {
            self
        };
        let b = if retried {
            a.fetch_retried()
        } else {
            a
        };
        let c = match added {
            Some(game) => b.game_added(game),
            None => b,
        };
        (
            c.details_asked(
                match clicks.details {
                    Some(i) => if self.store_lists(fits, i as int) {
                        Some(i)
                    } else {
                        None
                    },
                    None => None,
                },
            ),
            if_asked(retried, EffectView::FetchReleases) + match added {
                Some(game) => self.game_added_effects(game),
                None => seq![],
            },
        )
    }

    /// What comes of the clicks in the store.
    pub open spec fn store_clicked(self, clicks: StoreClicks) -> Outcome {
        self.store_clicked_for(self.fitting(self.known_releases()), self.searching(), clicks)
    }

    /// What can be done with a game of the library that was clicked, if the
    /// library lists it.
    pub open spec fn clicked_control(
        self,
        fits: Seq<bool>,
        packages: Seq<Option<AssetView>>,
        click: CardClick,
    ) -> Option<ControlView> {
        if self.library_lists(fits, click.index as int) {
            Some(control_of(packages[click.index as int], click.installed, self.is_downloading))
        } else {
            None
        }
    }

    /// What is ordered by clicks in the library.
    pub open spec fn ordered_in_library(
        self,
        fits: Seq<bool>,
        packages: Seq<Option<AssetView>>,
        clicks: LibraryClicks,
    ) -> Option<(AssetView, Seq<char>)> {
        match clicks.download {
            Some(click) => match self.clicked_control(fits, packages, click) {
                Some(control) => order_of(
                    control,
                    self.known_releases()[click.index as int].game_name(),
                    true,
                ),
                None => None,
            },
            None => None,
        }
    }

    /// The folder of the game that is played by clicks in the library.
    pub open spec fn launched_in_library(
        self,
        fits: Seq<bool>,
        packages: Seq<Option<AssetView>>,
        clicks: LibraryClicks,
    ) -> Option<LocationView> {
        match clicks.launch {
            Some(click) => match self.clicked_control(fits, packages, click) {
                Some(control) => launch_of(
                    control,
                    self.known_releases()[click.index as int].game_name(),
                    true,
                ),
                None => None,
            },
            None => None,
        }
    }

    /// The game that is removed by clicks in the library, if one is.
    pub open spec fn removed_in_library(self, fits: Seq<bool>, clicks: LibraryClicks) -> Option<
        Seq<char>,
    > {
        match clicks.remove {
            Some(i) => if self.library_lists(fits, i as int) {
                Some(self.library_name(i as int))
            } else {
                None
            },
            None => None,
        }
    }

    /// What comes of the clicks in the library, given which releases fit the
    /// search, the package of each, and whether something is searched for. What
    /// the library does not offer cannot be clicked.
    pub open spec fn library_clicked_for(
        self,
        fits: Seq<bool>,
        packages: Seq<Option<AssetView>>,
        searching: bool,
        clicks: LibraryClicks,
    ) -> Outcome {
        let offer = self.library_page_for(fits, packages, searching).offer();
        let removed = self.removed_in_library(fits, clicks);
        let order = self.ordered_in_library(fits, packages, clicks);
        let launch = self.launched_in_library(fits, packages, clicks);
        let a = if clicks.clear_search && offer == Offer::ClearSearch {
            self.search_cleared()
        } else {
            self
        };
        let b = if clicks.go_store && offer == Offer::GoToStore {
            a.with_tab(LauncherTab::Store)
        } else {
            a
        };
        let c = match removed {
            Some(game) => b.game_removed(game),
            None => b,
        };
        (
            c.details_asked(
                match clicks.details {
                    Some(i) => if self.library_lists(fits, i as int) {
                        Some(i)
                    } else {
                        None
                    },
                    None => None,
                },
            ).ordered(order),
            if_asked(removed is Some, EffectView::SaveConfig) + play_effects(order, launch),
        )
    }

    /// What comes of the clicks in the library.
    pub open spec fn library_clicked(self, clicks: LibraryClicks) -> Outcome {
        self.library_clicked_for(
            self.fitting(self.known_releases()),
            packages_of(self.known_releases()),
            self.searching(),
            clicks,
        )
    }

    /// What comes of the clicks on the page of one game, given its package. What
    /// the page does not offer cannot be clicked.
    pub open spec fn details_clicked_for(
        self,
        package: Option<AssetView>,
        clicks: DetailsClicks,
    ) -> Outcome {
        match self.details_for(package) {
            Some(details) => if details.in_library {
                let control = control_of(package, clicks.installed, self.is_downloading);
                let order = order_of(control, details.game_name, clicks.download);
                let launch = launch_of(control, details.game_name, clicks.launch);
                let a = if clicks.remove {
                    self.game_removed(details.safe_name)
                } else {
                    self
                };
                (
                    a.ordered(order),
                    if_asked(clicks.remove, EffectView::SaveConfig) + play_effects(order, launch),
                )
            } else if clicks.add {
                (self.game_added(details.safe_name), seq![EffectView::SaveConfig])
            } else {
                (self, seq![])
            },
            None => (self, seq![]),
        }
    }

    /// What comes of the clicks on the page of one game.
    pub open spec fn details_clicked(self, clicks: DetailsClicks) -> Outcome {
        self.details_clicked_for(self.selected_package(), clicks)
    }

    /// What comes of the clicks on the settings page. A new version can be viewed
    /// only where the page offers it.
    pub open spec fn settings_clicked(self, clicks: SettingsClicks) -> Outcome {
        let a = match clicks.theme {
            Some(theme) => AppView { config: ConfigView { theme, ..self.config }, ..self },
            None => self,
        };
        let b = if clicks.check_update {
            a.update_check_begun()
        } else {
            a
        };
        let c = if clicks.view_update && self.update_settings().can_view {
            AppView { show_update_modal: true, ..b }
        } else {
            b
        };
        (
            c,
            (if clicks.theme is Some {
                seq![EffectView::ApplyTheme, EffectView::SaveConfig]
            } else {
                seq![]
            }) + if_asked(
                clicks.check_update && !self.checking_update,
                EffectView::RequestLatestRelease,
            ) + if_asked(clicks.open_games, EffectView::OpenFolder(folder(Base::GamesDir)))
                + if_asked(clicks.open_config, EffectView::OpenFolder(folder(Base::ConfigDir))),
        )
    }
}

/// What is done where a game was ordered, or is to be played.
pub open spec fn play_effects(
    order: Option<(AssetView, Seq<char>)>,
    launch: Option<LocationView>,
) -> Seq<EffectView> {
    (match order {
        Some(o) => seq![EffectView::StartInstall(o.0, o.1)],
        None => seq![],
    }) + match launch {
        Some(place) => seq![EffectView::LaunchGame(place)],
        None => seq![],
    }
}

/// Appends an effect.
fn push_effect(effects: &mut Vec<Effect>, effect: Effect)
    ensures
        views(final(effects)@) == views(old(effects)@) + seq![effect@],
{
    effects.push(effect);
    assert(views(effects@) == views(old(effects)@) + seq![effect@]);
}

impl Vault64App {
    /// The name of the game at a position.
    fn name_at(&self, i: usize) -> (r: String)
        requires
            i < self@.known_releases().len(),
        ensures
            r@ == self@.known_releases()[i as int].game_name(),
    {
        match &self.releases {
            Some(releases) => {
                assert(views(releases@)[i as int] == releases@[i as int]@);
                releases[i].game_name()
            },
            None => String::new(),
        }
    }

    /// Adds a game to the library; the settings are saved if it is new there.
    fn add_game(&mut self, game: &str, effects: &mut Vec<Effect>)
        ensures
            final(self)@ == old(self)@.game_added(game@),
            views(final(effects)@) == views(old(effects)@) + old(self)@.game_added_effects(game@),
    {
        if self.config.add_to_library(game) {
            push_effect(effects, Effect::SaveConfig);
        } else {
            assert(views(effects@) == views(old(effects)@) + Seq::<EffectView>::empty());
        }
    }

    /// Removes a game from the library and has the settings saved.
    fn remove_game(&mut self, game: &str, effects: &mut Vec<Effect>)
        ensures
            final(self)@ == old(self)@.game_removed(game@),
            views(final(effects)@) == views(old(effects)@) + seq![EffectView::SaveConfig],
    {
        self.config.remove_from_library(game);
        push_effect(effects, Effect::SaveConfig);
    }

    /// The package that is ordered, given what can be done with a game.
    fn take_order(control: GameControl, name: &str) -> (r: Option<(GithubAsset, String)>)
        ensures
            order_view(r) == order_of(control@, name@, true),
    {
        match control {
            GameControl::Download { package, enabled } => if enabled {
                Some((package, name.to_owned()))
            } else {
                None
            },
            _ => None,
        }
    }

    /// The folder of the game that is to be played, given what can be done with it.
    fn take_launch(control: GameControl, name: &str) -> (r: Option<Location>)
        ensures
            opt_view(r) == launch_of(control@, name@, true),
    {
        match control {
            GameControl::Play => {
                let safe_name: String = Self::safe_name(name);
                Some(game_location(safe_name.as_str()))
            },
            _ => None,
        }
    }

    /// Has a game installed or played where that was asked for.
    fn play(
        &mut self,
        order: Option<(GithubAsset, String)>,
        launch: Option<Location>,
        effects: &mut Vec<Effect>,
    )
        ensures
            final(self)@ == old(self)@.ordered(order_view(order)),
            views(final(effects)@) == views(old(effects)@) + play_effects(
                order_view(order),
                opt_view(launch),
            ),
    {
        if let Some(o) = order {
            let effect: Effect = self.download_and_install(o.0, o.1);
            push_effect(effects, effect);
        }
        if let Some(place) = launch {
            push_effect(effects, Effect::LaunchGame(place));
        }
        assert(views(effects@) == views(old(effects)@) + play_effects(
            order_view(order),
            opt_view(launch),
        ));
    }

    /// The game that is added by clicks in the store, if one is.
    fn added_in_store(&self, fits: &Vec<bool>, clicks: StoreClicks) -> (r: Option<String>)
        requires
            fits@.len() == self@.known_releases().len(),
        ensures
            opt_view(r) == self@.added_in_store(fits@, clicks),
    {
        match clicks.add {
            Some(i) => if self.store_lists(fits, i) {
                let name: String = self.name_at(i);
                Some(Self::safe_name(name.as_str()))
            } else {
                None
            },
            None => None,
        }
    }

    /// Takes in the clicks in the store, given which releases fit the search and
    /// whether something is searched for.
    pub fn click_store_for(&mut self, fits: &Vec<bool>, searching: bool, clicks: StoreClicks) -> (
        effects: Vec<Effect>)
        requires
            fits@.len() == old(self)@.known_releases().len(),
            clicks.details is Some ==> old(self)@.with_tab(
                LauncherTab::GameDetails,
            ).tab_switch_counter <= u64::MAX,
        ensures
            final(self)@ == old(self)@.store_clicked_for(fits@, searching, clicks).0,
            views(effects@) == old(self)@.store_clicked_for(fits@, searching, clicks).1,
    {
        let offer: Offer = self.store_page_for(fits, searching).offer();
        let added: Option<String> = self.added_in_store(fits, clicks);
        let opened: Option<usize> = match clicks.details {
            Some(i) => if self.store_lists(fits, i) {
                Some(i)
            } else {
                None
            },
            None => None,
        };
        let mut effects: Vec<Effect> = Vec::new();
        if clicks.clear_search && offer == Offer::ClearSearch {
            self.clear_search();
        }
        if clicks.retry_fetch && offer == Offer::Retry {
            self.retry_fetch();
            push_effect(&mut effects, Effect::FetchReleases);
        }
        let ghost retried = clicks.retry_fetch && offer == Offer::Retry;
        let ghost added_game = opt_view(added);
        assert(views(effects@) == if_asked(retried, EffectView::FetchReleases));
        if let Some(game) = added {
            self.add_game(game.as_str(), &mut effects);
        }
        assert(views(effects@) == if_asked(retried, EffectView::FetchReleases) + match added_game {
            Some(game) => old(self)@.game_added_effects(game),
            None => seq![],
        });
        if let Some(index) = opened {
            self.show_details(index);
        }
        effects
    }

    /// Takes in the clicks in the store.
    pub fn click_store(&mut self, clicks: StoreClicks) -> (effects: Vec<Effect>)
        requires
            clicks.details is Some ==> old(self)@.with_tab(
                LauncherTab::GameDetails,
            ).tab_switch_counter <= u64::MAX,
        ensures
            final(self)@ == old(self)@.store_clicked(clicks).0,
            views(effects@) == old(self)@.store_clicked(clicks).1,
    {
        let query: String = self.query();
        let fits: Vec<bool> = self.fits(query.as_str());
        self.click_store_for(&fits, !query.as_str().is_empty(), clicks)
    }

    /// What can be done with a game of the library that was clicked, if the
    /// library lists it.
    fn clicked_control(
        &self,
        fits: &Vec<bool>,
        packages: &Vec<Option<GithubAsset>>,
        click: CardClick,
    ) -> (r: Option<GameControl>)
        requires
            fits@.len() == self@.known_releases().len(),
            packages@.len() == self@.known_releases().len(),
        ensures
            opt_view(r) == self@.clicked_control(fits@, opt_views(packages@), click),
    {
        if self.library_lists(fits, click.index) {
            assert(opt_views(packages@)[click.index as int] == opt_view(
                packages@[click.index as int],
            ));
            Some(self.game_control(&packages[click.index], click.installed))
        } else {
            None
        }
    }

    /// Takes in the clicks in the library, given which releases fit the search,
    /// the package of each, and whether something is searched for.
    pub fn click_library_for(
        &mut self,
        fits: &Vec<bool>,
        packages: Vec<Option<GithubAsset>>,
        searching: bool,
        clicks: LibraryClicks,
    ) -> (effects: Vec<Effect>)
        requires
            fits@.len() == old(self)@.known_releases().len(),
            packages@.len() == old(self)@.known_releases().len(),
            clicks.go_store ==> old(self)@.with_tab(LauncherTab::Store).tab_switch_counter
                <= u64::MAX,
            clicks.details is Some ==> old(self)@.with_tab(
                LauncherTab::GameDetails,
            ).tab_switch_counter <= u64::MAX,
        ensures
            final(self)@ == old(self)@.library_clicked_for(
                fits@,
                opt_views(packages@),
                searching,
                clicks,
            ).0,
            views(effects@) == old(self)@.library_clicked_for(
                fits@,
                opt_views(packages@),
                searching,
                clicks,
            ).1,
    {
        let ghost given = opt_views(packages@);
        let removed: Option<String> = match clicks.remove {
            Some(i) => if self.library_lists(fits, i) {
                let name: String = self.name_at(i);
                Some(Self::safe_name(name.as_str()))
            } else {
                None
            },
            None => None,
        };
        let opened: Option<usize> = match clicks.details {
            Some(i) => if self.library_lists(fits, i) {
                Some(i)
            } else {
                None
            },
            None => None,
        };
        let order: Option<(GithubAsset, String)> = match clicks.download {
            Some(click) => match self.clicked_control(fits, &packages, click) {
                Some(control) => {
                    let name: String = self.name_at(click.index);
                    Self::take_order(control, name.as_str())
                },
                None => None,
            },
            None => None,
        };
        let launch: Option<Location> = match clicks.launch {
            Some(click) => match self.clicked_control(fits, &packages, click) {
                Some(control) => {
                    let name: String = self.name_at(click.index);
                    Self::take_launch(control, name.as_str())
                },
                None => None,
            },
            None => None,
        };
        let offer: Offer = self.library_page_for(fits, packages, searching).offer();
        proof {
            if let Some(i) = opened {
                law_pages_show_what_they_list(self@, fits@, given, searching, i as int);
            }
        }
        let mut effects: Vec<Effect> = Vec::new();
        if clicks.clear_search && offer == Offer::ClearSearch {
            self.clear_search();
        }
        if clicks.go_store && offer == Offer::GoToStore {
            self.change_tab(LauncherTab::Store);
        }
        let ghost gone = opt_view(removed);
        if let Some(game) = removed {
            self.remove_game(game.as_str(), &mut effects);
        }
        assert(views(effects@) == if_asked(gone is Some, EffectView::SaveConfig));
        if let Some(index) = opened {
            self.show_details(index);
        }
        self.play(order, launch, &mut effects);
        effects
    }

    /// Takes in the clicks in the library.
    pub fn click_library(&mut self, clicks: LibraryClicks) -> (effects: Vec<Effect>)
        requires
            clicks.go_store ==> old(self)@.with_tab(LauncherTab::Store).tab_switch_counter
                <= u64::MAX,
            clicks.details is Some ==> old(self)@.with_tab(
                LauncherTab::GameDetails,
            ).tab_switch_counter <= u64::MAX,
        ensures
            final(self)@ == old(self)@.library_clicked(clicks).0,
            views(effects@) == old(self)@.library_clicked(clicks).1,
    {
        let query: String = self.query();
        let fits: Vec<bool> = self.fits(query.as_str());
        let packages: Vec<Option<GithubAsset>> = self.packages();
        assert(opt_views(packages@).len() == packages@.len());
        self.click_library_for(&fits, packages, !query.as_str().is_empty(), clicks)
    }

    /// Takes in the clicks on the page of one game, given its package.
    pub fn click_details_for(&mut self, package: Option<GithubAsset>, clicks: DetailsClicks) -> (
        effects: Vec<Effect>)
        ensures
            final(self)@ == old(self)@.details_clicked_for(opt_view(package), clicks).0,
            views(effects@) == old(self)@.details_clicked_for(opt_view(package), clicks).1,
    {
        let mut effects: Vec<Effect> = Vec::new();
        assert(views(effects@) == Seq::<EffectView>::empty());
        let details: GameDetails = match self.details_for(package) {
            Some(details) => details,
            None => {
                return effects;
            },
        };
        if !details.in_library {
            if clicks.add {
                self.add_game(details.safe_name.as_str(), &mut effects);
                assert(views(effects@) == seq![EffectView::SaveConfig]);
            }
            return effects;
        }
        let order: Option<(GithubAsset, String)> = if clicks.download {
            match self.details_control(&details, clicks.installed) {
                Some(control) => Self::take_order(control, details.game_name.as_str()),
                None => None,
            }
        } else {
            None
        };
        let launch: Option<Location> = if clicks.launch {
            match self.details_control(&details, clicks.installed) {
                Some(control) => Self::take_launch(control, details.game_name.as_str()),
                None => None,
            }
        } else {
            None
        };
        if clicks.remove {
            self.remove_game(details.safe_name.as_str(), &mut effects);
        }
        assert(views(effects@) == if_asked(clicks.remove, EffectView::SaveConfig));
        self.play(order, launch, &mut effects);
        effects
    }

    /// Takes in the clicks on the page of one game.
    pub fn click_details(&mut self, clicks: DetailsClicks) -> (effects: Vec<Effect>)
        ensures
            final(self)@ == old(self)@.details_clicked(clicks).0,
            views(effects@) == old(self)@.details_clicked(clicks).1,
    {
        let package: Option<GithubAsset> = self.selected_package();
        self.click_details_for(package, clicks)
    }

    /// Takes in the clicks on the settings page.
    pub fn click_settings(&mut self, clicks: SettingsClicks) -> (effects: Vec<Effect>)
        ensures
            final(self)@ == old(self)@.settings_clicked(clicks).0,
            views(effects@) == old(self)@.settings_clicked(clicks).1,
    {
        let can_view: bool = self.update_settings().can_view;
        let mut effects: Vec<Effect> = Vec::new();
        if let Some(theme) = clicks.theme {
            self.config.theme = theme;
            push_effect(&mut effects, Effect::ApplyTheme);
            push_effect(&mut effects, Effect::SaveConfig);
        }
        if clicks.check_update && self.check_app_updates() {
            push_effect(&mut effects, Effect::RequestLatestRelease);
        }
        if clicks.open_games {
            push_effect(&mut effects, Effect::OpenFolder(Location::folder(Base::GamesDir)));
        }
        if clicks.open_config {
            push_effect(&mut effects, Effect::OpenFolder(Location::folder(Base::ConfigDir)));
        }
        if clicks.view_update && can_view {
            self.show_update_modal = true;
        }
        assert(views(effects@) == old(self)@.settings_clicked(clicks).1);
        effects
    }
}

/// Only messages change which version is offered as an update: nothing that is
/// done in the window does.
pub proof fn law_only_messages_change_the_offer(
    app: AppView,
    store: StoreClicks,
    library: LibraryClicks,
    details: DetailsClicks,
    settings: SettingsClicks,
    package: Option<AssetView>,
    install: bool,
    later: bool,
    outcome: LaunchView,
    tab: LauncherTab,
)
    ensures
        app.store_clicked(store).0.latest_app_release == app.latest_app_release,
        app.library_clicked(library).0.latest_app_release == app.latest_app_release,
        app.details_clicked(details).0.latest_app_release == app.latest_app_release,
        app.settings_clicked(settings).0.latest_app_release == app.latest_app_release,
        app.modal_answered(package, install, later).0.latest_app_release == app.latest_app_release,
        app.launch_attempted(outcome).latest_app_release == app.latest_app_release,
        app.with_tab(tab).latest_app_release == app.latest_app_release,
        app.login_attempted().latest_app_release == app.latest_app_release,
        app.logged_out().latest_app_release == app.latest_app_release,
{
}

/// A theme that is chosen is saved, and is the theme when the launcher is
/// started again.
pub proof fn law_chosen_theme_survives_restart(app: AppView, clicks: SettingsClicks, theme: AppTheme)
    requires
        clicks.theme == Some(theme),
    ensures
        app.settings_clicked(clicks).1.contains(EffectView::SaveConfig),
        app.settings_clicked(clicks).1.contains(EffectView::ApplyTheme),
        started(Some(app.settings_clicked(clicks).0.config)).config.theme == theme,
{
    let effects = app.settings_clicked(clicks).1;
    assert(effects[0] == EffectView::ApplyTheme);
    assert(effects[1] == EffectView::SaveConfig);
}

/// Whatever changes the library has the settings saved.
pub proof fn law_library_changes_are_saved(
    app: AppView,
    store: StoreClicks,
    library: LibraryClicks,
    details: DetailsClicks,
)
    ensures
        app.store_clicked(store).0.config != app.config ==> app.store_clicked(store).1.contains(
            EffectView::SaveConfig,
        ),
        app.library_clicked(library).0.config != app.config ==> app.library_clicked(
            library,
        ).1.contains(EffectView::SaveConfig),
        app.details_clicked(details).0.config != app.config ==> app.details_clicked(
            details,
        ).1.contains(EffectView::SaveConfig),
{
    let s = app.store_clicked(store);
    if s.0.config != app.config {
        assert(s.1.last() == EffectView::SaveConfig);
    }
    let l = app.library_clicked(library);
    if l.0.config != app.config {
        assert(l.1[0] == EffectView::SaveConfig);
    }
    let d = app.details_clicked(details);
    if d.0.config != app.config {
        assert(d.1[0] == EffectView::SaveConfig);
    }
}

/// Whatever is clicked in the store, the library keeps what it has in its order
/// and gets at most one game more, at its end: that of a release which the store
/// lists and whose addition was clicked. Then the settings are saved. A library
/// that lists no game twice goes on to list none twice.
pub proof fn law_store_adds_one_game(
    app: AppView,
    fits: Seq<bool>,
    searching: bool,
    clicks: StoreClicks,
)
    ensures
        ({
            let before = app.config.library;
            let after = app.store_clicked_for(fits, searching, clicks).0.config.library;
            &&& before.is_prefix_of(after)
            &&& after.len() <= before.len() + 1
            &&& before.no_duplicates() ==> after.no_duplicates()
            &&& after.len() > before.len() ==> (clicks.add matches Some(i) && app.store_lists(
                fits,
                i as int,
            ) && after.last() == safe(app.known_releases()[i as int].game_name()))
            &&& after.len() > before.len() ==> app.store_clicked_for(
                fits,
                searching,
                clicks,
            ).1.contains(EffectView::SaveConfig)
        }),
{
    let effects = app.store_clicked_for(fits, searching, clicks).1;
    if let Some(game) = app.added_in_store(fits, clicks) {
        law_added_game_is_listed(app.config.library, game);
        if !app.config.library.contains(game) {
            assert(effects.last() == EffectView::SaveConfig);
        }
    }
}

/// What is installed by a click in the library is the package of a game that the
/// library lists and that is not installed, and no other installation is under
/// way; what is played is the folder of a listed game that is installed.
pub proof fn law_library_orders_what_it_lists(
    app: AppView,
    fits: Seq<bool>,
    packages: Seq<Option<AssetView>>,
    searching: bool,
    clicks: LibraryClicks,
    package: AssetView,
    name: Seq<char>,
    place: LocationView,
)
    ensures
        ({
            let effects = app.library_clicked_for(fits, packages, searching, clicks).1;
            &&& effects.contains(EffectView::StartInstall(package, name)) ==> (
            clicks.download matches Some(click) && app.library_lists(fits, click.index as int)
                && packages[click.index as int] == Some(package) && name
                == app.known_releases()[click.index as int].game_name() && !click.installed
                && !app.is_downloading)
            &&& effects.contains(EffectView::LaunchGame(place)) ==> (
            clicks.launch matches Some(click) && app.library_lists(fits, click.index as int)
                && place == game_folder(app.library_name(click.index as int)) && click.installed)
        }),
{
}

/// What is installed from the page of a game is that game's package, of a game in
/// the library that is not installed, while no other installation is under way;
/// where no game is found nothing is done.
pub proof fn law_details_order_the_game(
    app: AppView,
    given: Option<AssetView>,
    clicks: DetailsClicks,
    package: AssetView,
    name: Seq<char>,
    place: LocationView,
)
    ensures
        app.selected_release() is None ==> app.details_clicked_for(given, clicks) == (
            app,
            Seq::<EffectView>::empty(),
        ),
        ({
            let effects = app.details_clicked_for(given, clicks).1;
            &&& effects.contains(EffectView::StartInstall(package, name)) ==> (
            app.selected_release() matches Some(release) && app.has_game(release) && given == Some(
                package,
            ) && name == release.game_name() && clicks.download && !clicks.installed
                && !app.is_downloading)
            &&& effects.contains(EffectView::LaunchGame(place)) ==> (
            app.selected_release() matches Some(release) && app.has_game(release) && place
                == game_folder(safe(release.game_name())) && clicks.launch && clicks.installed)
        }),
{
}

/// The window that tells of a new version is opened from the settings page only
/// where there is a new version and its download is not under way.
pub proof fn law_settings_view_known_versions(app: AppView, clicks: SettingsClicks)
    requires
        !app.show_update_modal,
        app.settings_clicked(clicks).0.show_update_modal,
    ensures
        clicks.view_update,
        app.latest_app_release is Some,
        !app.app_update_downloading,
{
}

/// Opening the page of a game from the store or from the library, and going
/// back, leads to where it was opened.
pub proof fn law_details_lead_back(app: AppView, index: usize)
    ensures
        app.details_shown(index).tab == LauncherTab::GameDetails,
        app.details_shown(index).has_back(),
        app.tab != LauncherTab::GameDetails ==> app.details_shown(index).with_tab(
            app.details_shown(index).previous_tab,
        ).tab == app.tab,
{
}

/// What clicks in the store change and have done, and that they change nothing
/// else. The search is cleared only where nothing fits it; the list is asked for
/// anew only after a failure; only a game that fits is added or opened.
pub proof fn law_what_clicks_in_the_store_do(
    app: AppView,
    fits: Seq<bool>,
    searching: bool,
    clicks: StoreClicks,
)
    ensures
        ({
            let (after, effects) = app.store_clicked_for(fits, searching, clicks);
            let n = match app.releases {
                Some(list) => list.len() as int,
                None => 0,
            };
            let none_fits = forall|j: int| 0 <= j < n ==> !#[trigger] fits[j];
            let clears = clicks.clear_search && app.fetch_error is None && app.releases is Some
                && none_fits && searching;
            let retries = clicks.retry_fetch && app.fetch_error is Some;
            let adds = clicks.add matches Some(i) && app.fetch_error is None && i < n
                && fits[i as int];
            let opens = clicks.details matches Some(i) && app.fetch_error is None && i < n
                && fits[i as int];
            let game = safe(app.releases->0[clicks.add->0 as int].game_name());
            let new = adds && !app.config.library.contains(game);
            let moves = opens && app.tab != LauncherTab::GameDetails;
            &&& after == (AppView {
                search_query: if clears {
                    seq![]
                } else {
                    app.search_query
                },
                fetch_error: if retries {
                    None
                } else {
                    app.fetch_error
                },
                config: ConfigView {
                    library: if new {
                        app.config.library.push(game)
                    } else {
                        app.config.library
                    },
                    ..app.config
                },
                selected_release_idx: if opens {
                    clicks.details
                } else {
                    app.selected_release_idx
                },
                tab: if moves {
                    LauncherTab::GameDetails
                } else {
                    app.tab
                },
                previous_tab: if moves {
                    app.tab
                } else {
                    app.previous_tab
                },
                tab_switch_counter: if moves {
                    app.tab_switch_counter + 1
                } else {
                    app.tab_switch_counter
                },
                ..app
            })
            &&& retries ==> effects == seq![EffectView::FetchReleases]
            &&& !retries && new ==> effects == seq![EffectView::SaveConfig]
            &&& !retries && !new ==> effects.len() == 0
        }),
{
    let releases = app.known_releases();
    let listed = app.store_indices(releases, fits);
    law_store_lists_what_fits(app, releases, fits);
    if listed.len() > 0 {
        assert(listed.contains(listed[0]));
    }
    assert forall|j: int| 0 <= j < releases.len() && #[trigger] fits[j] implies listed.len()
        > 0 by {
        assert(listed.contains(j));
    }
    let effects = app.store_clicked_for(fits, searching, clicks).1;
    assert(Seq::<EffectView>::empty() + Seq::<EffectView>::empty() == Seq::<EffectView>::empty());
    assert(Seq::<EffectView>::empty() + seq![EffectView::SaveConfig] == seq![EffectView::SaveConfig]);
    assert(seq![EffectView::FetchReleases] + Seq::<EffectView>::empty()
        == seq![EffectView::FetchReleases]);
}

/// Whether the library is shown as blank: without a failure, with the list, and
/// with no game that was added and fits.
pub open spec fn library_blank(app: AppView, fits: Seq<bool>) -> bool {
    app.fetch_error is None && (app.releases matches Some(list) && forall|j: int|
        0 <= j < list.len() ==> !(#[trigger] fits[j] && app.config.library.contains(
            safe(list[j].game_name()),
        )))
}

/// The library offers something only where it is blank.
proof fn lemma_library_offer(
    app: AppView,
    fits: Seq<bool>,
    packages: Seq<Option<AssetView>>,
    searching: bool,
    i: int,
)
    ensures
        ({
            let offer = app.library_page_for(fits, packages, searching).offer();
            &&& offer == Offer::ClearSearch <==> library_blank(app, fits) && searching
            &&& offer == Offer::GoToStore <==> library_blank(app, fits) && !searching
            &&& app.library_lists(fits, i) ==> !library_blank(app, fits)
        }),
{
    let releases = app.known_releases();
    let listed = app.library_indices(releases, fits);
    law_library_lists_added_games(app, releases, fits);
    if listed.len() > 0 {
        assert(listed.contains(listed[0]));
        assert(fits[listed[0]]);
    }
    assert forall|j: int|
        0 <= j < releases.len() && #[trigger] fits[j] && app.config.library.contains(
            safe(releases[j].game_name()),
        ) implies listed.len() > 0 by {
        assert(listed.contains(j));
    }
    if app.library_lists(fits, i) {
        assert(fits[i]);
    }
}

/// What clicks in the library change, and that they change nothing else. The
/// search is cleared only where nothing fits it, and the store is offered only
/// where nothing is searched for; only a game that is listed is removed, opened or
/// installed, which needs a package, that the game is not installed, and that no
/// installation is under way.
pub proof fn law_what_clicks_in_the_library_change(
    app: AppView,
    fits: Seq<bool>,
    packages: Seq<Option<AssetView>>,
    searching: bool,
    clicks: LibraryClicks,
)
    ensures
        ({
            let after = app.library_clicked_for(fits, packages, searching, clicks).0;
            let list = app.known_releases();
            let blank = library_blank(app, fits);
            let clears = clicks.clear_search && blank && searching;
            let leaves = clicks.go_store && blank && !searching && app.tab != LauncherTab::Store;
            let removes = clicks.remove matches Some(i) && app.library_lists(fits, i as int);
            let opens = clicks.details matches Some(i) && app.library_lists(fits, i as int);
            let moves = opens && app.tab != LauncherTab::GameDetails;
            let installs = clicks.download matches Some(click) && app.library_lists(
                fits,
                click.index as int,
            ) && !click.installed && packages[click.index as int] is Some && !app.is_downloading;
            let gone = safe(list[clicks.remove->0 as int].game_name());
            after == (AppView {
                search_query: if clears {
                    seq![]
                } else {
                    app.search_query
                },
                config: ConfigView {
                    library: if removes {
                        library_without(app.config.library, gone)
                    } else {
                        app.config.library
                    },
                    ..app.config
                },
                selected_release_idx: if opens {
                    clicks.details
                } else {
                    app.selected_release_idx
                },
                tab: if moves {
                    LauncherTab::GameDetails
                } else if leaves {
                    LauncherTab::Store
                } else {
                    app.tab
                },
                previous_tab: if moves || leaves {
                    app.tab
                } else {
                    app.previous_tab
                },
                tab_switch_counter: if moves || leaves {
                    app.tab_switch_counter + 1
                } else {
                    app.tab_switch_counter
                },
                is_downloading: app.is_downloading || installs,
                download_progress: if installs {
                    Progress::At { percent: 0 }
                } else {
                    app.download_progress
                },
                download_status: if installs {
                    "Starting download..."@
                } else {
                    app.download_status
                },
                ..app
            })
        }),
{
    let i = match clicks.details {
        Some(i) => i as int,
        None => 0,
    };
    lemma_library_offer(app, fits, packages, searching, i);
}

/// What clicks in the library have done: the settings are saved where a listed
/// game is removed; then a listed game is installed, from its package and under
/// its name, if it is not installed and no installation is under way; then a listed
/// game is played, from its folder, if it is installed.
pub proof fn law_what_clicks_in_the_library_have_done(
    app: AppView,
    fits: Seq<bool>,
    packages: Seq<Option<AssetView>>,
    searching: bool,
    clicks: LibraryClicks,
)
    ensures
        ({
            let effects = app.library_clicked_for(fits, packages, searching, clicks).1;
            let list = app.known_releases();
            let removes = clicks.remove matches Some(i) && app.library_lists(fits, i as int);
            let installs = clicks.download matches Some(click) && app.library_lists(
                fits,
                click.index as int,
            ) && !click.installed && packages[click.index as int] is Some && !app.is_downloading;
            let plays = clicks.launch matches Some(click) && app.library_lists(
                fits,
                click.index as int,
            ) && click.installed;
            let wanted = clicks.download->0.index as int;
            let played = safe(list[clicks.launch->0.index as int].game_name());
            let saved = if removes {
                seq![EffectView::SaveConfig]
            } else {
                seq![]
            };
            let installed = if installs {
                seq![EffectView::StartInstall(packages[wanted]->0, list[wanted].game_name())]
            } else {
                seq![]
            };
            let started = if plays {
                seq![
                    EffectView::LaunchGame(
                        LocationView {
                            base: Base::GamesDir,
                            parts: if played.len() > 0 {
                                seq![played]
                            } else {
                                seq![]
                            },
                        },
                    ),
                ]
            } else {
                seq![]
            };
            effects == saved + (installed + started)
        }),
{
    if let Some(click) = clicks.launch {
        let played = safe(app.known_releases()[click.index as int].game_name());
        assert(Seq::<Seq<char>>::empty().push(played) == seq![played]);
    }
}

/// What clicks on the page of one game change and have done, and that they change
/// nothing else. A game outside the library can be added; one in it can be
/// removed, installed from its package if it is not installed and no installation
/// is under way, or played from its folder if it is installed.
pub proof fn law_what_clicks_on_a_game_do(
    app: AppView,
    package: Option<AssetView>,
    clicks: DetailsClicks,
    release: ReleaseView,
)
    requires
        app.selected_release() == Some(release),
    ensures
        ({
            let (after, effects) = app.details_clicked_for(package, clicks);
            let game = safe(release.game_name());
            let owned = app.config.library.contains(game);
            let installs = owned && clicks.download && !clicks.installed && package is Some
                && !app.is_downloading;
            let plays = owned && clicks.launch && clicks.installed;
            let saved = if (owned && clicks.remove) || (!owned && clicks.add) {
                seq![EffectView::SaveConfig]
            } else {
                seq![]
            };
            let installed = if installs {
                seq![EffectView::StartInstall(package->0, release.game_name())]
            } else {
                seq![]
            };
            let started = if plays {
                seq![
                    EffectView::LaunchGame(
                        LocationView {
                            base: Base::GamesDir,
                            parts: if game.len() > 0 {
                                seq![game]
                            } else {
                                seq![]
                            },
                        },
                    ),
                ]
            } else {
                seq![]
            };
            &&& after == (AppView {
                config: ConfigView {
                    library: if owned && clicks.remove {
                        library_without(app.config.library, game)
                    } else if !owned && clicks.add {
                        app.config.library.push(game)
                    } else {
                        app.config.library
                    },
                    ..app.config
                },
                is_downloading: app.is_downloading || installs,
                download_progress: if installs {
                    Progress::At { percent: 0 }
                } else {
                    app.download_progress
                },
                download_status: if installs {
                    "Starting download..."@
                } else {
                    app.download_status
                },
                ..app
            })
            &&& effects == saved + installed + started
        }),
{
    let game = safe(release.game_name());
    assert(Seq::<Seq<char>>::empty().push(game) == seq![game]);
}

/// What clicks on the settings page change and have done, in this order, and that
/// they change nothing else.
pub proof fn law_what_clicks_on_the_settings_do(app: AppView, clicks: SettingsClicks)
    ensures
        ({
            let (after, effects) = app.settings_clicked(clicks);
            let checks = clicks.check_update && !app.checking_update;
            let themed = if clicks.theme is Some {
                seq![EffectView::ApplyTheme, EffectView::SaveConfig]
            } else {
                seq![]
            };
            let checked = if checks {
                seq![EffectView::RequestLatestRelease]
            } else {
                seq![]
            };
            let games = if clicks.open_games {
                seq![
                    EffectView::OpenFolder(LocationView { base: Base::GamesDir, parts: seq![] }),
                ]
            } else {
                seq![]
            };
            let config = if clicks.open_config {
                seq![
                    EffectView::OpenFolder(LocationView { base: Base::ConfigDir, parts: seq![] }),
                ]
            } else {
                seq![]
            };
            &&& after == (AppView {
                config: ConfigView {
                    theme: match clicks.theme {
                        Some(theme) => theme,
                        None => app.config.theme,
                    },
                    ..app.config
                },
                checking_update: app.checking_update || clicks.check_update,
                app_update_info: if checks {
                    "Checking for updates..."@
                } else {
                    app.app_update_info
                },
                show_update_modal: app.show_update_modal || (clicks.view_update
                    && app.latest_app_release is Some && !app.app_update_downloading),
                ..app
            })
            &&& effects == themed + checked + games + config
        }),
{
}

/// Clicks are held against the pages as they are: with the search, the packages
/// and the chosen game of the state.
pub proof fn law_clicks_meet_the_pages(
    app: AppView,
    store: StoreClicks,
    library: LibraryClicks,
    details: DetailsClicks,
)
    ensures
        app.store_clicked(store) == app.store_clicked_for(
            app.fitting(app.known_releases()),
            app.searching(),
            store,
        ),
        app.library_clicked(library) == app.library_clicked_for(
            app.fitting(app.known_releases()),
            packages_of(app.known_releases()),
            app.searching(),
            library,
        ),
        app.details_clicked(details) == app.details_clicked_for(app.selected_package(), details),
        app.selected_release() is None ==> app.details_clicked(details) == (
            app,
            Seq::<EffectView>::empty(),
        ),
{
}

} // verus!
