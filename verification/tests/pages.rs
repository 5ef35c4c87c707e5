use vault64::clicks::{CardClick, DetailsClicks, LibraryClicks, SettingsClicks, StoreClicks};
use vault64::config::{AppConfig, AppTheme};
use vault64::games::{GameControl, LibraryCard, Offer, Page, StoreCard};
use vault64::install::{game_location, InstallJob};
use vault64::job::JobAction;
use vault64::launcher::{Effect, LauncherTab, Vault64App};
use vault64::location::Location;
use vault64::message::AppMsg;
use vault64::release::{GithubAsset, GithubRelease};
use vault64::screens::{BottomBar, UpdateModal};

fn asset(name: &str) -> GithubAsset {
    GithubAsset {
        name: name.to_string(),
        browser_download_url: format!("https://example.org/{}", name),
        size: 5,
    }
}

fn game(name: Option<&str>, tag: &str, body: Option<&str>, package: bool) -> GithubRelease {
    GithubRelease {
        name: name.map(str::to_string),
        tag_name: tag.to_string(),
        body: body.map(str::to_string),
        assets: if package { vec![asset("readme.txt"), asset("pack.7z")] } else { vec![] },
        html_url: None,
    }
}

fn games() -> Vec<GithubRelease> {
    vec![
        game(Some("Doom: 1993"), "d1", Some("Shoot demons\nand more"), true),
        game(Some("Mario"), "m1", None, false),
        game(None, "zelda-1", Some("  \n "), true),
        game(Some("Mario Kart"), "mk", Some("Race"), true),
    ]
}

fn app(library: &[&str], search: &str, releases: Option<Vec<GithubRelease>>) -> Vault64App {
    let mut app = Vault64App::new(Some(AppConfig {
        remembered_username: Some("guest".into()),
        library: library.iter().map(|s| s.to_string()).collect(),
        theme: AppTheme::Dark,
    }))
    .0;
    app.search_query = search.to_string();
    app.releases = releases;
    app
}

fn store_cards(app: &Vault64App) -> Vec<StoreCard> {
    match app.store_page() {
        Page::Games(cards) => cards,
        other => panic!("{:?}", other),
    }
}

fn library_cards(app: &Vault64App) -> Vec<LibraryCard> {
    match app.library_page() {
        Page::Games(cards) => cards,
        other => panic!("{:?}", other),
    }
}

fn no_store_clicks() -> StoreClicks {
    StoreClicks { clear_search: false, retry_fetch: false, add: None, details: None }
}

fn no_library_clicks() -> LibraryClicks {
    LibraryClicks {
        clear_search: false,
        go_store: false,
        remove: None,
        details: None,
        download: None,
        launch: None,
    }
}

fn no_settings_clicks() -> SettingsClicks {
    SettingsClicks {
        theme: None,
        check_update: false,
        open_games: false,
        open_config: false,
        view_update: false,
    }
}

fn no_details_clicks() -> DetailsClicks {
    DetailsClicks { installed: false, add: false, remove: false, download: false, launch: false }
}

fn place(l: &Location) -> String {
    format!("{:?}/{}", l.base, l.parts.join("/"))
}

fn names(effects: &[Effect]) -> Vec<String> {
    effects
        .iter()
        .map(|e| match e {
            Effect::StartInstall(a, n) => format!("install {} from {}", n, a.name),
            Effect::StartAppUpdate(a) => format!("update from {}", a.name),
            Effect::LaunchGame(l) => format!("launch {}", place(l)),
            Effect::OpenFolder(l) => format!("open {}", place(l)),
            other => format!("{:?}", other),
        })
        .collect()
}

#[test]
fn the_store_lists_every_game() {
    let cards = store_cards(&app(&["Mario"], "  ", Some(games())));
    let shown: Vec<(usize, &str, &str, bool, &str)> = cards
        .iter()
        .map(|c| {
            (c.index, c.game_name.as_str(), c.safe_name.as_str(), c.in_library, c.subtitle.as_str())
        })
        .collect();
    assert_eq!(
        shown,
        vec![
            (0, "Doom: 1993", "Doom_ 1993", false, "Shoot demons..."),
            (1, "Mario", "Mario", true, "m1"),
            (2, "zelda-1", "zelda-1", false, "zelda-1"),
            (3, "Mario Kart", "Mario Kart", false, "Race..."),
        ]
    );
    assert_eq!(cards[1].hue, Vault64App::hash_hue("Mario"));
}

#[test]
fn long_descriptions_are_cut() {
    let body = "x".repeat(100);
    let cards = store_cards(&app(&[], "", Some(vec![game(Some("A"), "a", Some(&body), true)])));
    assert_eq!(cards[0].subtitle, format!("{}...", "x".repeat(90)));
}

#[test]
fn the_store_lists_what_fits_the_search() {
    let found: Vec<usize> =
        store_cards(&app(&[], " MARIO ", Some(games()))).iter().map(|c| c.index).collect();
    assert_eq!(found, vec![1, 3]);
}

#[test]
fn the_store_without_games() {
    assert!(matches!(
        app(&[], "x", None).store_page(),
        Page::Loading(t) if t == "Loading store..."
    ));
    assert!(matches!(
        app(&[], "", Some(vec![])).store_page(),
        Page::Empty(t, Offer::Nothing) if t == "No games found."
    ));
    assert!(matches!(
        app(&[], "tetris", Some(games())).store_page(),
        Page::Empty(t, Offer::ClearSearch) if t == "No results for this search."
    ));
    let mut app = app(&[], "", Some(games()));
    app.fetch_error = Some("offline".into());
    assert!(matches!(
        app.store_page(),
        Page::Failed(t, Offer::Retry) if t == "Failed to fetch games: offline"
    ));
}

#[test]
fn the_store_goes_by_what_fits() {
    let app = app(&[], "whatever", Some(games()));
    match app.store_page_for(&vec![false, true, false, false], true) {
        Page::Games(cards) => {
            assert_eq!(cards.len(), 1);
            assert_eq!(cards[0].index, 1);
        }
        other => panic!("{:?}", other),
    }
    assert!(matches!(
        app.store_page_for(&vec![false; 4], false),
        Page::Empty(t, Offer::Nothing) if t == "No games found."
    ));
}

#[test]
fn the_library_lists_added_games() {
    let cards = library_cards(&app(&["Doom_ 1993", "Mario", "gone"], "", Some(games())));
    let shown: Vec<(usize, &str, String, Option<&str>)> = cards
        .iter()
        .map(|c| {
            (
                c.index,
                c.safe_name.as_str(),
                place(&c.folder),
                c.package.as_ref().map(|p| p.name.as_str()),
            )
        })
        .collect();
    assert_eq!(
        shown,
        vec![
            (0, "Doom_ 1993", "GamesDir/Doom_ 1993".to_string(), Some("pack.7z")),
            (1, "Mario", "GamesDir/Mario".to_string(), None),
        ]
    );
    let found: Vec<usize> = library_cards(&app(&["Mario", "Mario Kart"], "kart", Some(games())))
        .iter()
        .map(|c| c.index)
        .collect();
    assert_eq!(found, vec![3]);
}

#[test]
fn the_library_goes_by_what_fits_and_the_packages() {
    let app = app(&["Mario", "Mario Kart"], "whatever", Some(games()));
    let packages = vec![None, Some(asset("m.7z")), None, None];
    match app.library_page_for(&vec![true, true, true, false], packages, true) {
        Page::Games(cards) => {
            assert_eq!(cards.len(), 1);
            assert_eq!(cards[0].index, 1);
            assert_eq!(cards[0].package.as_ref().unwrap().name, "m.7z");
        }
        other => panic!("{:?}", other),
    }
}

#[test]
fn the_library_without_games() {
    assert!(matches!(
        app(&["A"], "", None).library_page(),
        Page::Loading(t) if t == "Loading library..."
    ));
    assert!(matches!(
        app(&[], "", Some(games())).library_page(),
        Page::Empty(t, Offer::GoToStore)
            if t == "This library looks like a blank desert...you can fix that by adding a game from the store!"
    ));
    assert!(matches!(
        app(&["Mario"], "doom", Some(games())).library_page(),
        Page::Empty(t, Offer::ClearSearch) if t == "No library results for this search."
    ));
    let mut app = app(&["Mario"], "", Some(games()));
    app.fetch_error = Some("offline".into());
    assert!(matches!(
        app.library_page(),
        Page::Failed(t, Offer::Nothing) if t == "Failed to fetch library data: offline"
    ));
}

#[test]
fn what_can_be_done_with_a_game() {
    let mut app = app(&[], "", None);
    let package = Some(asset("pack.7z"));
    assert!(matches!(app.game_control(&package, true), GameControl::Play));
    assert!(matches!(app.game_control(&None, true), GameControl::Play));
    assert!(matches!(
        app.game_control(&package, false),
        GameControl::Download { package, enabled: true } if package.name == "pack.7z"
    ));
    assert!(matches!(app.game_control(&None, false), GameControl::MissingPackage));
    app.is_downloading = true;
    assert!(matches!(
        app.game_control(&package, false),
        GameControl::Download { enabled: false, .. }
    ));
}

#[test]
fn installed_games_are_looked_for_where_they_are_installed() {
    let card = library_cards(&app(&["Doom_ 1993"], "", Some(games()))).remove(0);
    let mut job = InstallJob::new(asset("pack.7z"), &card.game_name);
    job.phase = vault64::install::InstallPhase::CheckOld;
    match job.action() {
        JobAction::CheckExists(target) => assert_eq!(place(&target), place(&card.folder)),
        other => panic!("{:?}", other),
    }
    assert_eq!(place(&card.folder), place(&game_location(&card.safe_name)));
}

#[test]
fn clicks_in_the_store() {
    let mut app = app(&["Mario"], "", Some(games()));
    let effects =
        app.click_store(StoreClicks { add: Some(0), details: Some(2), ..no_store_clicks() });
    assert_eq!(names(&effects), vec!["SaveConfig"]);
    assert_eq!(app.config.library, vec!["Mario", "Doom_ 1993"]);
    assert_eq!(app.selected_release_idx, Some(2));
    assert_eq!(app.tab, LauncherTab::GameDetails);
    let again = app.click_store(StoreClicks { add: Some(1), ..no_store_clicks() });
    assert!(again.is_empty());
    assert_eq!(app.config.library, vec!["Mario", "Doom_ 1993"]);
}

#[test]
fn retrying_from_the_store() {
    let mut app = app(&[], "x", Some(games()));
    app.fetch_error = Some("offline".into());
    let retry =
        StoreClicks { retry_fetch: true, clear_search: true, add: Some(0), details: Some(0) };
    assert_eq!(names(&app.click_store(retry)), vec!["FetchReleases"]);
    assert_eq!(app.fetch_error, None);
    assert_eq!(app.search_query, "x");
    assert!(app.config.library.is_empty());
    assert_eq!(app.tab, LauncherTab::Store);
    assert!(app.click_store(retry).is_empty());
}

#[test]
fn clearing_a_search_that_finds_nothing() {
    let mut app = app(&["Mario"], "tetris", Some(games()));
    let clear = StoreClicks { clear_search: true, ..no_store_clicks() };
    assert!(app.click_store(clear).is_empty());
    assert_eq!(app.search_query, "");
    app.search_query = "mario".into();
    app.click_store(clear);
    assert_eq!(app.search_query, "mario");
    app.search_query = "doom".into();
    app.click_library(LibraryClicks { clear_search: true, ..no_library_clicks() });
    assert_eq!(app.search_query, "");
}

#[test]
fn what_the_store_does_not_list_cannot_be_clicked() {
    let mut app = app(&[], "mario", Some(games()));
    for i in [0, 2, 4, usize::MAX] {
        let clicks = StoreClicks { add: Some(i), details: Some(i), ..no_store_clicks() };
        assert!(app.click_store(clicks).is_empty());
    }
    assert!(app.config.library.is_empty());
    assert_eq!(app.tab, LauncherTab::Store);
    let fits = vec![true, false, false, false];
    let clicks = StoreClicks { add: Some(0), ..no_store_clicks() };
    assert_eq!(names(&app.click_store_for(&fits, true, clicks)), vec!["SaveConfig"]);
    assert_eq!(app.config.library, vec!["Doom_ 1993"]);
}

#[test]
fn no_clicks_do_nothing() {
    let mut app = app(&["Mario"], "x", Some(games()));
    let before = format!("{:?}", app);
    assert!(app.click_store(no_store_clicks()).is_empty());
    assert!(app.click_library(no_library_clicks()).is_empty());
    assert!(app.click_settings(no_settings_clicks()).is_empty());
    assert!(app.click_details(no_details_clicks()).is_empty());
    assert!(app.answer_modal(false, false).is_empty());
    assert_eq!(format!("{:?}", app), before);
}

#[test]
fn clicks_in_the_library() {
    let mut app = app(&["Mario", "Doom_ 1993", "Mario Kart"], "", Some(games()));
    app.change_tab(LauncherTab::Library);
    let effects = app.click_library(LibraryClicks {
        remove: Some(1),
        download: Some(CardClick { index: 0, installed: false }),
        launch: Some(CardClick { index: 3, installed: true }),
        ..no_library_clicks()
    });
    assert_eq!(
        names(&effects),
        vec!["SaveConfig", "install Doom: 1993 from pack.7z", "launch GamesDir/Mario Kart"]
    );
    assert_eq!(app.config.library, vec!["Doom_ 1993", "Mario Kart"]);
    assert!(app.is_downloading);
    app.click_library(LibraryClicks { details: Some(0), ..no_library_clicks() });
    assert_eq!(app.tab, LauncherTab::GameDetails);
    app.go_back();
    assert_eq!(app.tab, LauncherTab::Library);
}

#[test]
fn what_the_library_does_not_offer_cannot_be_clicked() {
    let mut app = app(&["Mario", "Doom_ 1993"], "", Some(games()));
    app.change_tab(LauncherTab::Library);
    let before = format!("{:?}", app);
    for (index, installed) in [(3, false), (3, true), (9, true), (1, false), (0, true)] {
        let click = Some(CardClick { index, installed });
        let download = LibraryClicks { download: click, go_store: true, ..no_library_clicks() };
        assert!(app.click_library(download).is_empty(), "{}", index);
    }
    let launch = Some(CardClick { index: 0, installed: false });
    assert!(app.click_library(LibraryClicks { launch, ..no_library_clicks() }).is_empty());
    let other = LibraryClicks { remove: Some(3), details: Some(3), ..no_library_clicks() };
    assert!(app.click_library(other).is_empty());
    assert_eq!(format!("{:?}", app), before);
    app.is_downloading = true;
    let download = Some(CardClick { index: 0, installed: false });
    assert!(app.click_library(LibraryClicks { download, ..no_library_clicks() }).is_empty());
}

#[test]
fn the_library_goes_by_what_is_handed_in() {
    let mut app = app(&["Mario"], "zzz", Some(games()));
    let fits = vec![false, true, false, false];
    let packages = vec![None, Some(asset("m.7z")), None, None];
    let download = Some(CardClick { index: 1, installed: false });
    let clicks = LibraryClicks { download, ..no_library_clicks() };
    let effects = app.click_library_for(&fits, packages, true, clicks);
    assert_eq!(names(&effects), vec!["install Mario from m.7z"]);
}

#[test]
fn an_empty_library_leads_to_the_store() {
    let mut app = app(&[], "", Some(games()));
    app.change_tab(LauncherTab::Library);
    app.click_library(LibraryClicks { go_store: true, ..no_library_clicks() });
    assert_eq!(app.tab, LauncherTab::Store);
}

#[test]
fn the_library_follows_additions() {
    let mut app = app(&[], "", Some(games()));
    app.click_store(StoreClicks { add: Some(3), ..no_store_clicks() });
    assert_eq!(library_cards(&app)[0].index, 3);
    app.click_library(LibraryClicks { remove: Some(3), ..no_library_clicks() });
    assert!(matches!(app.library_page(), Page::Empty(_, Offer::GoToStore)));
    assert_eq!(store_cards(&app).len(), 4);
}

#[test]
fn the_page_of_a_game() {
    let mut app = app(&["Doom_ 1993"], "", Some(games()));
    assert!(app.details().is_none());
    app.show_details(0);
    let details = app.details().unwrap();
    assert_eq!(details.game_name, "Doom: 1993");
    assert_eq!(details.safe_name, "Doom_ 1993");
    assert_eq!(place(&details.folder), "GamesDir/Doom_ 1993");
    assert!(details.in_library);
    assert_eq!(details.package.unwrap().name, "pack.7z");
    assert_eq!(details.description.as_deref(), Some("Shoot demons\nand more"));
    assert_eq!(details.hue, Vault64App::hash_hue("Doom: 1993"));
    assert!(app.details_for(None).unwrap().package.is_none());
    app.show_details(4);
    assert!(app.details().is_none());
}

#[test]
fn clicks_on_the_page_of_a_game() {
    let mut app = app(&[], "", Some(games()));
    app.show_details(0);
    let early = DetailsClicks { remove: true, download: true, ..no_details_clicks() };
    assert!(app.click_details(early).is_empty());
    let add = DetailsClicks { add: true, ..no_details_clicks() };
    assert_eq!(names(&app.click_details(add)), vec!["SaveConfig"]);
    assert_eq!(app.config.library, vec!["Doom_ 1993"]);
    assert!(app.click_details(add).is_empty());
    let play = DetailsClicks { installed: true, launch: true, download: true, ..no_details_clicks() };
    assert_eq!(names(&app.click_details(play)), vec!["launch GamesDir/Doom_ 1993"]);
    let order = DetailsClicks { remove: true, download: true, launch: true, ..no_details_clicks() };
    assert_eq!(
        names(&app.click_details(order)),
        vec!["SaveConfig", "install Doom: 1993 from pack.7z"]
    );
    assert!(app.config.library.is_empty());
    assert!(app.is_downloading);
    app.selected_release_idx = None;
    let lost = DetailsClicks {
        installed: true,
        add: true,
        remove: true,
        download: true,
        launch: true,
    };
    assert!(app.click_details(lost).is_empty());
}

#[test]
fn what_the_page_of_a_game_offers() {
    let mut app = app(&["Doom_ 1993", "Mario"], "", Some(games()));
    app.show_details(0);
    let details = app.details().unwrap();
    assert!(matches!(app.details_control(&details, true), Some(GameControl::Play)));
    assert!(matches!(
        app.details_control(&details, false),
        Some(GameControl::Download { enabled: true, .. })
    ));
    app.show_details(1);
    let details = app.details().unwrap();
    assert!(matches!(
        app.details_control(&details, false),
        Some(GameControl::MissingPackage)
    ));
    let order = DetailsClicks { download: true, ..no_details_clicks() };
    assert!(app.click_details(order).is_empty());
    assert_eq!(
        names(&app.click_details_for(Some(asset("m.7z")), order)),
        vec!["install Mario from m.7z"]
    );
    app.show_details(3);
    let details = app.details().unwrap();
    assert!(app.details_control(&details, true).is_none());
}

#[test]
fn clicks_on_the_settings_page() {
    let mut app = app(&[], "", None);
    app.checking_update = false;
    let effects = app.click_settings(SettingsClicks {
        theme: Some(AppTheme::Light),
        check_update: true,
        open_games: true,
        open_config: true,
        view_update: true,
    });
    assert_eq!(
        names(&effects),
        vec!["ApplyTheme", "SaveConfig", "RequestLatestRelease", "open GamesDir/", "open ConfigDir/"]
    );
    assert_eq!(app.config.theme, AppTheme::Light);
    assert!(app.checking_update);
    assert!(!app.show_update_modal);
    let busy = app.click_settings(SettingsClicks { check_update: true, ..no_settings_clicks() });
    assert!(busy.is_empty());
    let (again, _) = Vault64App::new(Some(app.config));
    assert_eq!(again.config.theme, AppTheme::Light);
}

#[test]
fn the_bar_at_the_bottom() {
    let mut app = app(&[], "", None);
    assert!(matches!(app.bottom_bar(), BottomBar::Blank));
    app.download_status = "Doom".into();
    assert!(matches!(
        app.bottom_bar(),
        BottomBar::Status { text, failure: false } if text == "Doom"
    ));
    app.download_status = "Error: x".into();
    assert!(matches!(app.bottom_bar(), BottomBar::Status { failure: true, .. }));
    app.is_downloading = true;
    assert!(matches!(app.bottom_bar(), BottomBar::Installing(t) if t == "Error: x"));
    app.app_update_downloading = true;
    app.app_update_status = "half".into();
    assert!(matches!(app.bottom_bar(), BottomBar::AppUpdate(t) if t == "half"));
}

fn with_update(assets: &[&str]) -> Vault64App {
    let mut app = app(&[], "", None);
    app.process_message(AppMsg::AppUpdateFetched(Ok(GithubRelease {
        name: None,
        tag_name: "v4.0".into(),
        body: Some("Faster".into()),
        assets: assets.iter().map(|a| asset(a)).collect(),
        html_url: None,
    })));
    app
}

#[test]
fn the_window_of_a_new_version() {
    match with_update(&["a.exe", "b.7z"]).update_modal() {
        UpdateModal::Available { title, current, notes, package, failure } => {
            assert_eq!(title, "Version v4.0 is available");
            assert_eq!(current, "Current version: v3.0");
            assert_eq!(notes.as_deref(), Some("Faster"));
            assert_eq!(package.unwrap().name, "b.7z");
            assert_eq!(failure, None);
        }
        other => panic!("{:?}", other),
    }
    assert!(matches!(
        with_update(&["notes.txt"]).update_modal(),
        UpdateModal::Available { package: None, .. }
    ));
    assert!(matches!(app(&[], "", None).update_modal(), UpdateModal::Hidden));
}

#[test]
fn answering_the_window_of_a_new_version() {
    let mut app = with_update(&["b.7z"]);
    assert!(app.answer_modal(false, true).is_empty());
    assert!(!app.show_update_modal);
    assert!(app.update_settings().can_view);
    app.click_settings(SettingsClicks { view_update: true, ..no_settings_clicks() });
    assert!(app.show_update_modal);
    assert_eq!(names(&app.answer_modal(true, false)), vec!["update from b.7z"]);
    assert!(app.app_update_downloading);
    assert!(app.show_update_modal);
    assert!(!app.update_settings().can_view);
    assert!(matches!(
        app.update_modal(),
        UpdateModal::Downloading { status, .. } if status == "Preparing update..."
    ));
    assert!(app.answer_modal(true, true).is_empty());
    assert!(app.show_update_modal);
}

#[test]
fn an_update_without_a_package_cannot_be_installed() {
    let mut app = with_update(&["notes.txt"]);
    assert!(app.answer_modal(true, false).is_empty());
    assert!(!app.app_update_downloading);
    assert_eq!(names(&app.answer_modal_for(Some(asset("x.zip")), true, false)), vec!["update from x.zip"]);
}

#[test]
fn a_failed_update_is_told_in_the_window() {
    let mut app = with_update(&["b.7z"]);
    app.answer_modal(true, false);
    app.process_message(AppMsg::AppUpdateError("disk full".into()));
    assert!(matches!(
        app.update_modal(),
        UpdateModal::Available { failure: Some(f), package: Some(_), .. }
            if f == "Update error: disk full"
    ));
}

#[test]
fn a_window_without_information_closes() {
    let mut app = app(&[], "", None);
    app.show_update_modal = true;
    assert!(matches!(app.update_modal(), UpdateModal::NoInformation));
    assert!(app.answer_modal(false, false).is_empty());
    assert!(!app.show_update_modal);
}

#[test]
fn what_the_settings_page_tells_of_updates() {
    let mut app = app(&[], "", None);
    let shown = app.update_settings();
    assert_eq!(shown.version, "v3.0");
    assert_eq!(shown.info.as_deref(), Some("Checking for updates..."));
    assert!(shown.checking);
    assert!(!shown.can_view);
    app.app_update_info = String::new();
    assert_eq!(app.update_settings().info, None);
}

#[test]
fn the_search_box_can_be_cleared() {
    let mut app = app(&[], " ", None);
    assert!(app.can_clear_search());
    app.clear_search();
    assert!(!app.can_clear_search());
    assert_eq!(app.search_query, "");
}
