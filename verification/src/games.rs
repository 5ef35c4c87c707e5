//! The pages that list games: the store and the library.
use crate::config::{law_added_game_is_listed, law_removed_game_is_gone};
use crate::install::{game_folder, game_location, install_begun};
use crate::launcher::{AppView, Vault64App};
use crate::location::{Base, Location, LocationView};
use crate::naming::{hue_of, safe};
use crate::release::{
    package_of, release_matches, AssetView, GithubAsset, GithubRelease, ReleaseView,
};
use crate::text::{
    first_line_head, join, law_trimming_leaves_the_inner_text, law_visible_text_stays, line_head,
    lowercase, opt_view, to_lowercase, trim, trimmed, views, white_space,
};
use vstd::prelude::*;

verus! {

/// What a page offers where it lists no games.
#[derive(Clone, Copy, PartialEq, Eq, Structural, Debug)]
pub enum Offer {
    Nothing,
    /// To ask for the list of games anew.
    Retry,
    /// To search for nothing any more.
    ClearSearch,
    /// To go to the store.
    GoToStore,
}

/// A page that lists games.
#[derive(Debug)]
pub enum Page<C> {
    /// The list is on its way.
    Loading(String),
    /// The list could not be had.
    Failed(String, Offer),
    /// No game is to be listed.
    Empty(String, Offer),
    Games(Vec<C>),
}

/// What a `Page` shows.
#[verifier::ext_equal]
pub enum PageView<V> {
    Loading(Seq<char>),
    Failed(Seq<char>, Offer),
    Empty(Seq<char>, Offer),
    Games(Seq<V>),
}

impl<C: View> View for Page<C> {
    type V = PageView<C::V>;

    open spec fn view(&self) -> PageView<C::V> {
        match *self {
            Page::Loading(text) => PageView::Loading(text@),
            Page::Failed(text, offer) => PageView::Failed(text@, offer),
            Page::Empty(text, offer) => PageView::Empty(text@, offer),
            Page::Games(cards) => PageView::Games(views(cards@)),
        }
    }
}

impl<V> PageView<V> {
    /// What the page offers in place of games.
    pub open spec fn offer(self) -> Offer {
        match self {
            PageView::Failed(_, offer) => offer,
            PageView::Empty(_, offer) => offer,
            _ => Offer::Nothing,
        }
    }
}

impl<C: View> Page<C> {
    /// What the page offers in place of games.
    pub fn offer(&self) -> (r: Offer)
        ensures
            r == self@.offer(),
    {
        match self {
            Page::Failed(_, offer) => *offer,
            Page::Empty(_, offer) => *offer,
            _ => Offer::Nothing,
        }
    }
}

/// A game as the store shows it.
#[derive(Debug)]
pub struct StoreCard {
    /// The position of the game in the list of all games.
    pub index: usize,
    pub game_name: String,
    /// The name under which the library knows the game.
    pub safe_name: String,
    pub in_library: bool,
    pub subtitle: String,
    /// The hue of the game's colour, in degrees.
    pub hue: u32,
}

/// What a `StoreCard` shows.
#[verifier::ext_equal]
pub struct StoreCardView {
    pub index: int,
    pub game_name: Seq<char>,
    pub safe_name: Seq<char>,
    pub in_library: bool,
    pub subtitle: Seq<char>,
    pub hue: int,
}

impl View for StoreCard {
    type V = StoreCardView;

    open spec fn view(&self) -> StoreCardView {
        StoreCardView {
            index: self.index as int,
            game_name: self.game_name@,
            safe_name: self.safe_name@,
            in_library: self.in_library,
            subtitle: self.subtitle@,
            hue: self.hue as int,
        }
    }
}

/// A game as the library shows it.
#[derive(Debug)]
pub struct LibraryCard {
    /// The position of the game in the list of all games.
    pub index: usize,
    pub game_name: String,
    /// The name under which the library knows the game.
    pub safe_name: String,
    /// Where the game is installed, if it is.
    pub folder: Location,
    /// What the game is installed from.
    pub package: Option<GithubAsset>,
    /// The hue of the game's colour, in degrees.
    pub hue: u32,
}

/// What a `LibraryCard` shows.
#[verifier::ext_equal]
pub struct LibraryCardView {
    pub index: int,
    pub game_name: Seq<char>,
    pub safe_name: Seq<char>,
    pub folder: LocationView,
    pub package: Option<AssetView>,
    pub hue: int,
}

impl View for LibraryCard {
    type V = LibraryCardView;

    open spec fn view(&self) -> LibraryCardView {
        LibraryCardView {
            index: self.index as int,
            game_name: self.game_name@,
            safe_name: self.safe_name@,
            folder: self.folder@,
            package: opt_view(self.package),
            hue: self.hue as int,
        }
    }
}

/// What can be done with a game of the library.
#[derive(Debug)]
pub enum GameControl {
    /// It is installed: play it, or open its folder.
    Play,
    /// It can be installed from a package, unless another one is being installed.
    Download { package: GithubAsset, enabled: bool },
    /// It has no package.
    MissingPackage,
}

/// What a `GameControl` offers.
#[verifier::ext_equal]
pub enum ControlView {
    Play,
    Download { package: AssetView, enabled: bool },
    MissingPackage,
}

impl View for GameControl {
    type V = ControlView;

    open spec fn view(&self) -> ControlView {
        match *self {
            GameControl::Play => ControlView::Play,
            GameControl::Download { package, enabled } => ControlView::Download {
                package: package@,
                enabled,
            },
            GameControl::MissingPackage => ControlView::MissingPackage,
        }
    }
}

/// What can be done with a game of the library, given what it is installed
/// from, whether it is installed, and whether some game is being installed.
pub open spec fn control_of(
    package: Option<AssetView>,
    installed: bool,
    busy: bool,
) -> ControlView {
    if installed {
        ControlView::Play
    } else {
        match package {
            Some(package) => ControlView::Download { package, enabled: !busy },
            None => ControlView::MissingPackage,
        }
    }
}

/// The line below a game's name: the beginning of its description, or its tag
/// where the description is blank.
pub open spec fn subtitle_of(release: ReleaseView) -> Seq<char> {
    match release.body {
        Some(body) => if trimmed(body).len() > 0 {
            first_line_head(body, 90) + "..."@
        } else {
            release.tag_name
        },
        None => release.tag_name,
    }
}

/// The numbers below `n` that are kept, in order.
pub open spec fn kept_below(n: nat, keep: spec_fn(int) -> bool) -> Seq<int>
    decreases n,
{
    if n == 0 {
        seq![]
    } else {
        let earlier = kept_below((n - 1) as nat, keep);
        if keep(n - 1) {
            earlier.push(n - 1)
        } else {
            earlier
        }
    }
}

/// What is searched for in a list: the text without the white space around it,
/// in lower case.
pub open spec fn query_of(typed: Seq<char>) -> Seq<char> {
    lowercase(trimmed(typed))
}

impl AppView {
    /// For each release, whether it fits the search.
    pub open spec fn fitting(self, releases: Seq<ReleaseView>) -> Seq<bool> {
        Seq::new(
            releases.len(),
            |i: int| release_matches(releases[i], query_of(self.search_query)),
        )
    }

    /// Whether something is searched for.
    pub open spec fn searching(self) -> bool {
        query_of(self.search_query).len() > 0
    }

    /// Whether a release belongs to a game of the library.
    pub open spec fn has_game(self, release: ReleaseView) -> bool {
        self.config.library.contains(safe(release.game_name()))
    }

    /// The positions of the releases that the store lists, given which fit the
    /// search.
    pub open spec fn store_indices(self, releases: Seq<ReleaseView>, fits: Seq<bool>) -> Seq<int> {
        kept_below(releases.len(), |i: int| fits[i])
    }

    /// The positions of the releases that the library lists, given which fit
    /// the search.
    pub open spec fn library_indices(self, releases: Seq<ReleaseView>, fits: Seq<bool>) -> Seq<int> {
        kept_below(releases.len(), |i: int| self.has_game(releases[i]) && fits[i])
    }

    /// Whether the store lists the release at a position, given which fit the
    /// search.
    pub open spec fn store_lists(self, fits: Seq<bool>, i: int) -> bool {
        self.fetch_error is None && 0 <= i < self.known_releases().len() && fits[i]
    }

    /// Whether the library lists the release at a position, given which fit the
    /// search.
    pub open spec fn library_lists(self, fits: Seq<bool>, i: int) -> bool {
        self.store_lists(fits, i) && self.has_game(self.known_releases()[i])
    }

    /// How the store shows the release at a position.
    pub open spec fn store_card(self, releases: Seq<ReleaseView>, i: int) -> StoreCardView {
        let name = releases[i].game_name();
        StoreCardView {
            index: i,
            game_name: name,
            safe_name: safe(name),
            in_library: self.has_game(releases[i]),
            subtitle: subtitle_of(releases[i]),
            hue: hue_of(name),
        }
    }

    /// How the library shows the release at a position, given its package.
    pub open spec fn library_card(
        self,
        releases: Seq<ReleaseView>,
        package: Option<AssetView>,
        i: int,
    ) -> LibraryCardView {
        let name = releases[i].game_name();
        LibraryCardView {
            index: i,
            game_name: name,
            safe_name: safe(name),
            folder: game_folder(safe(name)),
            package,
            hue: hue_of(name),
        }
    }

    /// The store, given which releases fit the search and whether something is
    /// searched for.
    pub open spec fn store_page_for(self, fits: Seq<bool>, searching: bool) -> PageView<
        StoreCardView,
    > {
        match (self.fetch_error, self.releases) {
            (Some(e), _) => PageView::Failed("Failed to fetch games: "@ + e, Offer::Retry),
            (None, None) => PageView::Loading("Loading store..."@),
            (None, Some(releases)) => {
                let listed = self.store_indices(releases, fits);
                if listed.len() > 0 {
                    PageView::Games(
                        Seq::new(listed.len(), |k: int| self.store_card(releases, listed[k])),
                    )
                } else if searching {
                    PageView::Empty("No results for this search."@, Offer::ClearSearch)
                } else {
                    PageView::Empty("No games found."@, Offer::Nothing)
                }
            },
        }
    }

    /// The library, given which releases fit the search, the package of each,
    /// and whether something is searched for.
    pub open spec fn library_page_for(
        self,
        fits: Seq<bool>,
        packages: Seq<Option<AssetView>>,
        searching: bool,
    ) -> PageView<LibraryCardView> {
        match (self.fetch_error, self.releases) {
            (Some(e), _) => PageView::Failed("Failed to fetch library data: "@ + e, Offer::Nothing),
            (None, None) => PageView::Loading("Loading library..."@),
            (None, Some(releases)) => {
                let listed = self.library_indices(releases, fits);
                if listed.len() > 0 {
                    PageView::Games(
                        Seq::new(
                            listed.len(),
                            |k: int| self.library_card(releases, packages[listed[k]], listed[k]),
                        ),
                    )
                } else if searching {
                    PageView::Empty("No library results for this search."@, Offer::ClearSearch)
                } else {
                    PageView::Empty(
                        "This library looks like a blank desert...you can fix that by adding a game from the store!"@,
                        Offer::GoToStore,
                    )
                }
            },
        }
    }

    /// The releases that were fetched; none before.
    pub open spec fn known_releases(self) -> Seq<ReleaseView> {
        match self.releases {
            Some(releases) => releases,
            None => Seq::empty(),
        }
    }

    /// The store.
    pub open spec fn store_page(self) -> PageView<StoreCardView> {
        self.store_page_for(self.fitting(self.known_releases()), self.searching())
    }

    /// The library.
    pub open spec fn library_page(self) -> PageView<LibraryCardView> {
        self.library_page_for(
            self.fitting(self.known_releases()),
            packages_of(self.known_releases()),
            self.searching(),
        )
    }
}

/// The views of optional values.
pub open spec fn opt_views<T: View>(s: Seq<Option<T>>) -> Seq<Option<T::V>> {
    Seq::new(s.len(), |i: int| opt_view(s[i]))
}

/// The package of each release.
pub open spec fn packages_of(releases: Seq<ReleaseView>) -> Seq<Option<AssetView>> {
    Seq::new(releases.len(), |i: int| package_of(releases[i]))
}

impl Vault64App {
    /// What can be done with a game of the library, given what it is installed
    /// from and whether it is installed.
    pub fn game_control(&self, package: &Option<GithubAsset>, installed: bool) -> (r: GameControl)
        ensures
            r@ == control_of(opt_view(*package), installed, self@.is_downloading),
    {
        if installed {
            GameControl::Play
        } else {
            match package {
                Some(package) => GameControl::Download {
                    package: package.clone(),
                    enabled: !self.is_downloading,
                },
                None => GameControl::MissingPackage,
            }
        }
    }

    /// What is searched for in a list. Nothing but white space searches for
    /// nothing.
    pub(crate) fn query(&self) -> (r: String)
        ensures
            r@ == query_of(self@.search_query),
            trimmed(self@.search_query).len() == 0 ==> r@.len() == 0,
    {
        let typed: String = trim(self.search_query.as_str());
        to_lowercase(typed.as_str())
    }

    /// The line below a game's name.
    fn subtitle(release: &GithubRelease) -> (r: String)
        ensures
            r@ == subtitle_of(release@),
    {
        match &release.body {
            Some(body) => {
                let inner: String = trim(body.as_str());
                if inner.as_str().is_empty() {
                    release.tag_name.clone()
                } else {
                    let head: String = line_head(body.as_str(), 90);
                    join(head.as_str(), "...")
                }
            },
            None => release.tag_name.clone(),
        }
    }

    /// How the store shows the release at a position.
    fn show_in_store(&self, releases: &Vec<GithubRelease>, i: usize) -> (r: StoreCard)
        requires
            i < releases@.len(),
        ensures
            r@ == self@.store_card(views(releases@), i as int),
    {
        let game_name: String = releases[i].game_name();
        let safe_name: String = Self::safe_name(game_name.as_str());
        let in_library: bool = self.config.in_library(safe_name.as_str());
        let hue: u32 = Self::hash_hue(game_name.as_str());
        StoreCard {
            index: i,
            game_name,
            safe_name,
            in_library,
            subtitle: Self::subtitle(&releases[i]),
            hue,
        }
    }

    /// How the library shows the release at a position, given its package.
    fn show_in_library(
        &self,
        releases: &Vec<GithubRelease>,
        package: Option<GithubAsset>,
        i: usize,
    ) -> (r: LibraryCard)
        requires
            i < releases@.len(),
        ensures
            r@ == self@.library_card(views(releases@), opt_view(package), i as int),
    {
        let game_name: String = releases[i].game_name();
        let safe_name: String = Self::safe_name(game_name.as_str());
        let folder: Location = game_location(safe_name.as_str());
        let hue: u32 = Self::hash_hue(game_name.as_str());
        LibraryCard { index: i, game_name, safe_name, folder, package, hue }
    }

    /// For each release that was fetched, whether it fits the search. All do
    /// where nothing is searched for.
    pub(crate) fn fits(&self, query: &str) -> (r: Vec<bool>)
        requires
            query@ == query_of(self@.search_query),
        ensures
            r@ == self@.fitting(self@.known_releases()),
            query@.len() == 0 ==> forall|i: int| 0 <= i < r@.len() ==> #[trigger] r@[i],
    {
        let mut r: Vec<bool> = Vec::new();
        if let Some(releases) = &self.releases {
            let n: usize = releases.len();
            let mut i: usize = 0;
            while i < n
                invariant
                    i <= n == releases@.len(),
                    query@ == query_of(self@.search_query),
                    r@.len() == i,
                    forall|k: int|
                        0 <= k < i ==> #[trigger] r@[k] == release_matches(
                            releases@[k]@,
                            query@,
                        ),
                    query@.len() == 0 ==> forall|k: int| 0 <= k < i ==> #[trigger] r@[k],
                decreases n - i,
            {
                r.push(Self::matches_release(&releases[i], query));
                i += 1;
            }
            assert(self@.known_releases() == views(releases@));
        }
        assert(r@ == self@.fitting(self@.known_releases()));
        r
    }

    /// The package of each release that was fetched.
    pub(crate) fn packages(&self) -> (r: Vec<Option<GithubAsset>>)
        ensures
            opt_views(r@) == packages_of(self@.known_releases()),
    {
        let mut r: Vec<Option<GithubAsset>> = Vec::new();
        if let Some(releases) = &self.releases {
            let n: usize = releases.len();
            let mut i: usize = 0;
            while i < n
                invariant
                    i <= n == releases@.len(),
                    r@.len() == i,
                    forall|k: int|
                        0 <= k < i ==> opt_view(#[trigger] r@[k]) == package_of(releases@[k]@),
                decreases n - i,
            {
                r.push(releases[i].game_package());
                i += 1;
            }
            assert(self@.known_releases() == views(releases@));
        }
        assert(opt_views(r@) == packages_of(self@.known_releases()));
        r
    }

    /// Whether the store lists the release at a position, given which fit the
    /// search.
    pub(crate) fn store_lists(&self, fits: &Vec<bool>, i: usize) -> (r: bool)
        requires
            fits@.len() == self@.known_releases().len(),
        ensures
            r == self@.store_lists(fits@, i as int),
    {
        self.fetch_error.is_none() && i < fits.len() && fits[i]
    }

    /// Whether the library lists the release at a position, given which fit the
    /// search.
    pub(crate) fn library_lists(&self, fits: &Vec<bool>, i: usize) -> (r: bool)
        requires
            fits@.len() == self@.known_releases().len(),
        ensures
            r == self@.library_lists(fits@, i as int),
    {
        if !self.store_lists(fits, i) {
            return false;
        }
        match &self.releases {
            Some(releases) => {
                assert(views(releases@)[i as int] == releases@[i as int]@);
                let game_name: String = releases[i].game_name();
                let safe_name: String = Self::safe_name(game_name.as_str());
                self.config.in_library(safe_name.as_str())
            },
            None => false,
        }
    }

    /// The store, given which releases fit the search and whether something is
    /// searched for.
    pub fn store_page_for(&self, fits: &Vec<bool>, searching: bool) -> (r: Page<StoreCard>)
        requires
            fits@.len() == self@.known_releases().len(),
        ensures
            r@ == self@.store_page_for(fits@, searching),
    {
        if let Some(e) = &self.fetch_error {
            return Page::Failed(join("Failed to fetch games: ", e.as_str()), Offer::Retry);
        }
        let releases: &Vec<GithubRelease> = match &self.releases {
            Some(releases) => releases,
            None => {
                return Page::Loading("Loading store...".to_owned());
            },
        };
        let n: usize = releases.len();
        let mut cards: Vec<StoreCard> = Vec::new();
        let mut i: usize = 0;
        let ghost all = views(releases@);
        let ghost keep = |i: int| fits@[i];
        let ghost mut listed = kept_below(0, keep);
        while i < n
            invariant
                i <= n == releases@.len() == fits@.len(),
                all == views(releases@),
                keep == (|i: int| fits@[i]),
                listed == kept_below(i as nat, keep),
                views(cards@) == Seq::new(
                    listed.len(),
                    |k: int| self@.store_card(all, listed[k]),
                ),
            decreases n - i,
        {
            if fits[i] {
                let ghost before = cards@;
                let ghost earlier = listed;
                cards.push(self.show_in_store(releases, i));
                proof {
                    listed = earlier.push(i as int);
                    assert(keep(i as int));
                    assert(views(cards@) == views(before).push(self@.store_card(all, i as int)));
                }
            }
            i += 1;
        }
        assert(self@.releases == Some(all));
        assert(listed == self@.store_indices(all, fits@));
        if cards.len() > 0 {
            Page::Games(cards)
        } else if searching {
            Page::Empty("No results for this search.".to_owned(), Offer::ClearSearch)
        } else {
            Page::Empty("No games found.".to_owned(), Offer::Nothing)
        }
    }

    /// The library, given which releases fit the search, the package of each,
    /// and whether something is searched for.
    pub fn library_page_for(
        &self,
        fits: &Vec<bool>,
        packages: Vec<Option<GithubAsset>>,
        searching: bool,
    ) -> (r: Page<LibraryCard>)
        requires
            fits@.len() == self@.known_releases().len(),
            packages@.len() == self@.known_releases().len(),
        ensures
            r@ == self@.library_page_for(fits@, opt_views(packages@), searching),
    {
        if let Some(e) = &self.fetch_error {
            return Page::Failed(join("Failed to fetch library data: ", e.as_str()), Offer::Nothing);
        }
        let releases: &Vec<GithubRelease> = match &self.releases {
            Some(releases) => releases,
            None => {
                return Page::Loading("Loading library...".to_owned());
            },
        };
        let n: usize = releases.len();
        let mut cards: Vec<LibraryCard> = Vec::new();
        let mut i: usize = 0;
        let ghost all = views(releases@);
        let ghost given = opt_views(packages@);
        let ghost keep = |i: int| self@.has_game(all[i]) && fits@[i];
        let ghost mut listed = kept_below(0, keep);
        while i < n
            invariant
                i <= n == releases@.len() == fits@.len() == packages@.len(),
                all == views(releases@),
                given == opt_views(packages@),
                keep == (|i: int| self@.has_game(all[i]) && fits@[i]),
                listed == kept_below(i as nat, keep),
                views(cards@) == Seq::new(
                    listed.len(),
                    |k: int| self@.library_card(all, given[listed[k]], listed[k]),
                ),
            decreases n - i,
        {
            let game_name: String = releases[i].game_name();
            let safe_name: String = Self::safe_name(game_name.as_str());
            assert(all[i as int] == releases@[i as int]@);
            if self.config.in_library(safe_name.as_str()) && fits[i] {
                let ghost before = cards@;
                let ghost earlier = listed;
                let package: Option<GithubAsset> = match &packages[i] {
                    Some(package) => Some(package.clone()),
                    None => None,
                };
                cards.push(self.show_in_library(releases, package, i));
                proof {
                    listed = earlier.push(i as int);
                    assert(keep(i as int));
                    assert(views(cards@) == views(before).push(
                        self@.library_card(all, given[i as int], i as int),
                    ));
                }
            }
            i += 1;
        }
        assert(self@.releases == Some(all));
        assert(listed == self@.library_indices(all, fits@));
        if cards.len() > 0 {
            Page::Games(cards)
        } else if searching {
            Page::Empty("No library results for this search.".to_owned(), Offer::ClearSearch)
        } else {
            Page::Empty(
                "This library looks like a blank desert...you can fix that by adding a game from the store!".to_owned(),
                Offer::GoToStore,
            )
        }
    }

    /// The store. Where nothing is searched for it lists every game.
    pub fn store_page(&self) -> (r: Page<StoreCard>)
        ensures
            r@ == self@.store_page(),
            trimmed(self@.search_query).len() == 0 ==> r@ == self@.store_page_for(
                Seq::new(self@.known_releases().len(), |i: int| true),
                false,
            ),
    {
        let query: String = self.query();
        let fits: Vec<bool> = self.fits(query.as_str());
        assert(query@.len() == 0 ==> fits@ == Seq::new(
            self@.known_releases().len(),
            |i: int| true,
        ));
        self.store_page_for(&fits, !query.as_str().is_empty())
    }

    /// The library. Where nothing is searched for it lists every game that was
    /// added to it.
    pub fn library_page(&self) -> (r: Page<LibraryCard>)
        ensures
            r@ == self@.library_page(),
            trimmed(self@.search_query).len() == 0 ==> r@ == self@.library_page_for(
                Seq::new(self@.known_releases().len(), |i: int| true),
                packages_of(self@.known_releases()),
                false,
            ),
    {
        let query: String = self.query();
        let fits: Vec<bool> = self.fits(query.as_str());
        assert(query@.len() == 0 ==> fits@ == Seq::new(
            self@.known_releases().len(),
            |i: int| true,
        ));
        let packages: Vec<Option<GithubAsset>> = self.packages();
        assert(opt_views(packages@).len() == packages@.len());
        self.library_page_for(&fits, packages, !query.as_str().is_empty())
    }
}

/// The numbers that are kept are those below `n` that are to be kept, in
/// increasing order.
pub proof fn lemma_kept_below(n: nat, keep: spec_fn(int) -> bool)
    ensures
        forall|i: int|
            #[trigger] kept_below(n, keep).contains(i) <==> 0 <= i < n && keep(i),
        forall|a: int, b: int|
            0 <= a < b < kept_below(n, keep).len() ==> kept_below(n, keep)[a] < kept_below(
                n,
                keep,
            )[b],
    decreases n,
{
    if n > 0 {
        let m = (n - 1) as nat;
        lemma_kept_below(m, keep);
        let earlier = kept_below(m, keep);
        let all = kept_below(n, keep);
        assert forall|i: int| #[trigger] all.contains(i) <==> 0 <= i < n && keep(i) by {
            if all.contains(i) {
                let k = choose|k: int| 0 <= k < all.len() && all[k] == i;
                if k < earlier.len() {
                    assert(earlier[k] == i);
                    assert(earlier.contains(i));
                }
            }
            if 0 <= i < n && keep(i) {
                if i < m {
                    assert(earlier.contains(i));
                    let k = choose|k: int| 0 <= k < earlier.len() && earlier[k] == i;
                    assert(all[k] == i);
                } else {
                    assert(all[earlier.len() as int] == i);
                }
            }
        }
        assert forall|a: int, b: int| 0 <= a < b < all.len() implies all[a] < all[b] by {
            assert(earlier.contains(earlier[a]));
        }
    }
}

/// The store lists the releases that fit the search, each once, in the order in
/// which they were fetched.
pub proof fn law_store_lists_what_fits(app: AppView, releases: Seq<ReleaseView>, fits: Seq<bool>)
    ensures
        forall|i: int|
            #[trigger] app.store_indices(releases, fits).contains(i) <==> 0 <= i < releases.len()
                && fits[i],
        forall|a: int, b: int|
            0 <= a < b < app.store_indices(releases, fits).len() ==> app.store_indices(
                releases,
                fits,
            )[a] < app.store_indices(releases, fits)[b],
{
    lemma_kept_below(releases.len(), |i: int| fits[i]);
}

/// The library lists the releases that fit the search and whose game was added
/// to it, in the order in which they were fetched; all of them are listed in
/// the store too.
pub proof fn law_library_lists_added_games(
    app: AppView,
    releases: Seq<ReleaseView>,
    fits: Seq<bool>,
)
    ensures
        forall|i: int|
            #[trigger] app.library_indices(releases, fits).contains(i) <==> 0 <= i < releases.len()
                && fits[i] && app.config.library.contains(safe(releases[i].game_name())),
        forall|a: int, b: int|
            0 <= a < b < app.library_indices(releases, fits).len() ==> app.library_indices(
                releases,
                fits,
            )[a] < app.library_indices(releases, fits)[b],
        forall|i: int|
            #[trigger] app.library_indices(releases, fits).contains(i) ==> app.store_indices(
                releases,
                fits,
            ).contains(i),
{
    lemma_kept_below(releases.len(), |i: int| fits[i]);
    lemma_kept_below(releases.len(), |i: int| app.has_game(releases[i]) && fits[i]);
}

/// After a game is added the library lists its releases that fit the search;
/// after it is removed the library lists none of them, and the store is the same
/// apart from its marks.
pub proof fn law_library_follows_additions(
    app: AppView,
    releases: Seq<ReleaseView>,
    fits: Seq<bool>,
    i: int,
)
    requires
        0 <= i < releases.len(),
    ensures
        fits[i] ==> app.game_added(safe(releases[i].game_name())).library_indices(
            releases,
            fits,
        ).contains(i),
        !app.game_removed(safe(releases[i].game_name())).library_indices(releases, fits).contains(i),
        app.game_added(safe(releases[i].game_name())).store_indices(releases, fits)
            == app.store_indices(releases, fits),
        app.game_removed(safe(releases[i].game_name())).store_indices(releases, fits)
            == app.store_indices(releases, fits),
{
    let game = safe(releases[i].game_name());
    law_added_game_is_listed(app.config.library, game);
    law_removed_game_is_gone(app.config.library, game);
    law_library_lists_added_games(app.game_added(game), releases, fits);
    law_library_lists_added_games(app.game_removed(game), releases, fits);
}

/// The folder that the library looks for is the one in which an installation
/// of the game ends.
pub proof fn law_installed_games_are_found(
    app: AppView,
    releases: Seq<ReleaseView>,
    package: AssetView,
    i: int,
)
    ensures
        app.library_card(releases, Some(package), i).folder == install_begun(
            package,
            releases[i].game_name(),
        ).target(),
{
}

/// A page lists a release if and only if a card on it leads to the release; it
/// then offers nothing else.
pub proof fn law_pages_show_what_they_list(
    app: AppView,
    fits: Seq<bool>,
    packages: Seq<Option<AssetView>>,
    searching: bool,
    i: int,
)
    ensures
        app.store_lists(fits, i) <==> (app.store_page_for(fits, searching) matches PageView::Games(
            cards,
        ) && exists|k: int| 0 <= k < cards.len() && (#[trigger] cards[k]).index == i),
        app.library_lists(fits, i) <==> (app.library_page_for(
            fits,
            packages,
            searching,
        ) matches PageView::Games(cards) && exists|k: int|
            0 <= k < cards.len() && (#[trigger] cards[k]).index == i),
        app.store_lists(fits, i) ==> app.store_page_for(fits, searching).offer() == Offer::Nothing,
        app.library_lists(fits, i) ==> app.library_page_for(fits, packages, searching).offer()
            == Offer::Nothing,
{
    let releases = app.known_releases();
    law_store_lists_what_fits(app, releases, fits);
    law_library_lists_added_games(app, releases, fits);
    let in_store = app.store_indices(releases, fits);
    let in_library = app.library_indices(releases, fits);
    assert(in_store.contains(i) <==> 0 <= i < releases.len() && fits[i]);
    assert(in_library.contains(i) <==> 0 <= i < releases.len() && fits[i] && app.has_game(
        releases[i],
    ));
    if app.fetch_error is None && app.releases is Some {
        if let PageView::Games(cards) = app.store_page_for(fits, searching) {
            if in_store.contains(i) {
                let k = choose|k: int| 0 <= k < in_store.len() && in_store[k] == i;
                assert(cards[k].index == i);
            }
            if exists|k: int| 0 <= k < cards.len() && (#[trigger] cards[k]).index == i {
                let k = choose|k: int| 0 <= k < cards.len() && (#[trigger] cards[k]).index == i;
                assert(in_store[k] == i);
            }
        }
        if let PageView::Games(cards) = app.library_page_for(fits, packages, searching) {
            if in_library.contains(i) {
                let k = choose|k: int| 0 <= k < in_library.len() && in_library[k] == i;
                assert(cards[k].index == i);
            }
            if exists|k: int| 0 <= k < cards.len() && (#[trigger] cards[k]).index == i {
                let k = choose|k: int| 0 <= k < cards.len() && (#[trigger] cards[k]).index == i;
                assert(in_library[k] == i);
            }
        }
    }
}

/// What can be done with a game: to play it if and only if it is installed; else
/// to install it from its package, if it has one, unless some game is being
/// installed.
pub proof fn law_what_can_be_done(package: AssetView, installed: bool, busy: bool)
    ensures
        control_of(Some(package), true, busy) == ControlView::Play,
        control_of(None, true, busy) == ControlView::Play,
        control_of(Some(package), false, true) == (ControlView::Download {
            package,
            enabled: false,
        }),
        control_of(Some(package), false, false) == (ControlView::Download {
            package,
            enabled: true,
        }),
        control_of(None, false, busy) == ControlView::MissingPackage,
{
}

/// The line below a game's name: of a description in which something can be seen,
/// at most the first 90 characters of the first line, and three dots; of any other
/// release the tag.
pub proof fn law_line_below_the_name(release: ReleaseView, body: Seq<char>, i: int)
    requires
        release.body == Some(body),
    ensures
        0 <= i < body.len() && !white_space(body[i]) ==> subtitle_of(release) == first_line_head(
            body,
            90,
        ) + seq!['.', '.', '.'],
        (forall|k: int| 0 <= k < body.len() ==> white_space(#[trigger] body[k])) ==> subtitle_of(
            release,
        ) == release.tag_name,
        subtitle_of(ReleaseView { body: None, ..release }) == release.tag_name,
{
    reveal_strlit("...");
    assert("..."@ == seq!['.', '.', '.']);
    if 0 <= i < body.len() && !white_space(body[i]) {
        law_visible_text_stays(body, i);
    }
    if forall|k: int| 0 <= k < body.len() ==> white_space(#[trigger] body[k]) {
        let none = Seq::<char>::empty();
        law_trimming_leaves_the_inner_text(body, none, none);
        assert(body + none + none == body);
    }
}

/// What is searched for: what was typed, without the white space around it, in
/// lower case; each release is held against it. Something is searched for if and
/// only if that leaves anything.
pub proof fn law_what_is_searched_for(
    app: AppView,
    releases: Seq<ReleaseView>,
    left: Seq<char>,
    inner: Seq<char>,
    right: Seq<char>,
    i: int,
)
    requires
        forall|k: int| 0 <= k < left.len() ==> white_space(#[trigger] left[k]),
        forall|k: int| 0 <= k < right.len() ==> white_space(#[trigger] right[k]),
        inner.len() > 0 ==> !white_space(inner[0]) && !white_space(inner[inner.len() - 1]),
        app.search_query == left + inner + right,
    ensures
        query_of(app.search_query) == lowercase(inner),
        app.searching() <==> lowercase(inner).len() > 0,
        app.fitting(releases).len() == releases.len(),
        0 <= i < releases.len() ==> app.fitting(releases)[i] == release_matches(
            releases[i],
            lowercase(inner),
        ),
        app.releases matches Some(list) ==> app.known_releases() == list,
        app.releases is None ==> app.known_releases().len() == 0,
        app.store_page() == app.store_page_for(
            app.fitting(app.known_releases()),
            lowercase(inner).len() > 0,
        ),
        app.library_page() == app.library_page_for(
            app.fitting(app.known_releases()),
            packages_of(app.known_releases()),
            lowercase(inner).len() > 0,
        ),
        packages_of(releases).len() == releases.len(),
        0 <= i < releases.len() ==> packages_of(releases)[i] == package_of(releases[i]),
{
    law_trimming_leaves_the_inner_text(left, inner, right);
}

/// What the card of a game shows: the name of the release or else its tag, and
/// what belongs to that name: its folder name, its mark, its folder and its hue.
pub proof fn law_cards_show_their_release(
    app: AppView,
    releases: Seq<ReleaseView>,
    package: Option<AssetView>,
    i: int,
)
    ensures
        ({
            let name = match releases[i].name {
                Some(name) => name,
                None => releases[i].tag_name,
            };
            let in_store = app.store_card(releases, i);
            let in_library = app.library_card(releases, package, i);
            &&& in_store.index == i && in_library.index == i
            &&& in_store.game_name == name && in_library.game_name == name
            &&& in_store.safe_name == safe(name) && in_library.safe_name == safe(name)
            &&& in_store.hue == hue_of(name) && in_library.hue == hue_of(name)
            &&& in_store.in_library <==> app.config.library.contains(safe(name))
            &&& app.has_game(releases[i]) <==> app.config.library.contains(safe(name))
            &&& in_store.subtitle == subtitle_of(releases[i])
            &&& in_library.package == package
            &&& name.len() > 0 ==> in_library.folder == (LocationView {
                base: Base::GamesDir,
                parts: seq![safe(name)],
            })
            &&& name.len() == 0 ==> in_library.folder == (LocationView {
                base: Base::GamesDir,
                parts: seq![],
            })
        }),
{
    let name = releases[i].game_name();
    assert(Seq::<Seq<char>>::empty().push(safe(name)) == seq![safe(name)]);
}

/// What the store shows: a failure, with the offer to try again; that the list is
/// on its way; the cards of the games that fit, in the order of the list; or that
/// there are none, with the offer to search for nothing where something is
/// searched for.
pub proof fn law_what_the_store_shows(
    app: AppView,
    fits: Seq<bool>,
    searching: bool,
    e: Seq<char>,
    releases: Seq<ReleaseView>,
    i: int,
    k: int,
    l: int,
)
    ensures
        app.fetch_error == Some(e) ==> app.store_page_for(fits, searching) == PageView::<
            StoreCardView,
        >::Failed("Failed to fetch games: "@ + e, Offer::Retry),
        app.fetch_error is None && app.releases is None ==> app.store_page_for(fits, searching)
            == PageView::<StoreCardView>::Loading("Loading store..."@),
        app.fetch_error is None && app.releases == Some(releases) ==> {
            let page = app.store_page_for(fits, searching);
            &&& (forall|j: int| 0 <= j < releases.len() ==> !#[trigger] fits[j]) ==> page == (
            if searching {
                PageView::<StoreCardView>::Empty(
                    "No results for this search."@,
                    Offer::ClearSearch,
                )
            } else {
                PageView::<StoreCardView>::Empty("No games found."@, Offer::Nothing)
            })
            &&& 0 <= i < releases.len() && fits[i] ==> page is Games
            &&& page matches PageView::Games(cards) ==> {
                &&& 0 <= k < cards.len() ==> cards[k] == app.store_card(releases, cards[k].index)
                    && 0 <= cards[k].index < releases.len() && fits[cards[k].index]
                &&& 0 <= k < l < cards.len() ==> cards[k].index < cards[l].index
            }
        },
{
    let listed = app.store_indices(releases, fits);
    law_store_lists_what_fits(app, releases, fits);
    if 0 <= i < releases.len() && fits[i] {
        assert(listed.contains(i));
    }
    if listed.len() > 0 {
        assert(listed.contains(listed[0]));
    }
    if 0 <= k < listed.len() {
        assert(listed.contains(listed[k]));
    }
}

/// What the library shows: a failure; that the list is on its way; the cards of
/// the games that were added and fit, each with its package, in the order of the
/// list; or that there are none, with the offer to search for nothing where
/// something is searched for, and else to go to the store.
pub proof fn law_what_the_library_shows(
    app: AppView,
    fits: Seq<bool>,
    packages: Seq<Option<AssetView>>,
    searching: bool,
    e: Seq<char>,
    releases: Seq<ReleaseView>,
    i: int,
    k: int,
    l: int,
)
    ensures
        app.fetch_error == Some(e) ==> app.library_page_for(fits, packages, searching)
            == PageView::<LibraryCardView>::Failed(
            "Failed to fetch library data: "@ + e,
            Offer::Nothing,
        ),
        app.fetch_error is None && app.releases is None ==> app.library_page_for(
            fits,
            packages,
            searching,
        ) == PageView::<LibraryCardView>::Loading("Loading library..."@),
        app.fetch_error is None && app.releases == Some(releases) ==> {
            let page = app.library_page_for(fits, packages, searching);
            &&& (forall|j: int|
                0 <= j < releases.len() ==> !(#[trigger] fits[j] && app.config.library.contains(
                    safe(releases[j].game_name()),
                ))) ==> page == (if searching {
                PageView::<LibraryCardView>::Empty(
                    "No library results for this search."@,
                    Offer::ClearSearch,
                )
            } else {
                PageView::<LibraryCardView>::Empty(
                    "This library looks like a blank desert...you can fix that by adding a game from the store!"@,
                    Offer::GoToStore,
                )
            })
            &&& 0 <= i < releases.len() && fits[i] && app.config.library.contains(
                safe(releases[i].game_name()),
            ) ==> page is Games
            &&& page matches PageView::Games(cards) ==> {
                &&& 0 <= k < cards.len() ==> cards[k] == app.library_card(
                    releases,
                    packages[cards[k].index],
                    cards[k].index,
                ) && 0 <= cards[k].index < releases.len() && fits[cards[k].index]
                    && app.config.library.contains(safe(releases[cards[k].index].game_name()))
                &&& 0 <= k < l < cards.len() ==> cards[k].index < cards[l].index
            }
        },
{
    let listed = app.library_indices(releases, fits);
    law_library_lists_added_games(app, releases, fits);
    if 0 <= i < releases.len() && fits[i] && app.config.library.contains(
        safe(releases[i].game_name()),
    ) {
        assert(listed.contains(i));
    }
    if listed.len() > 0 {
        assert(listed.contains(listed[0]));
    }
    if 0 <= k < listed.len() {
        assert(listed.contains(listed[k]));
    }
}

/// A page offers what it says it offers, and nothing beside games or while the
/// list is on its way. It lists a release only where there was no failure, among
/// those that were fetched, if it fits; the library only those that were added.
pub proof fn law_offers_of_the_pages<V>(
    app: AppView,
    fits: Seq<bool>,
    text: Seq<char>,
    offer: Offer,
    cards: Seq<V>,
    i: int,
)
    ensures
        PageView::<V>::Failed(text, offer).offer() == offer,
        PageView::<V>::Empty(text, offer).offer() == offer,
        PageView::<V>::Loading(text).offer() == Offer::Nothing,
        PageView::<V>::Games(cards).offer() == Offer::Nothing,
        app.store_lists(fits, i) <==> app.fetch_error is None && (app.releases matches Some(list)
            && 0 <= i < list.len() && fits[i]),
        app.library_lists(fits, i) <==> app.fetch_error is None && (app.releases matches Some(list)
            && 0 <= i < list.len() && fits[i] && app.config.library.contains(
            safe(list[i].game_name()),
        )),
{
}

} // verus!
