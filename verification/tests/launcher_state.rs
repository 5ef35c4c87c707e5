use vault64::config::{AppConfig, AppTheme};
use vault64::install::InstallJob;
use vault64::job::{EntryKind, JobEvent};
use vault64::launcher::{
    AppState, Effect, LaunchOutcome, LauncherTab, Vault64App, APP_VERSION,
};
use vault64::location::{Base, Location};
use vault64::message::{AppMsg, UpdatePlan};
use vault64::net::HttpStatus;
use vault64::progress::Progress;
use vault64::release::{GithubAsset, GithubRelease};
use vault64::screens::BottomBar;
use vault64::update::UpdateJob;

fn config(user: Option<&str>) -> AppConfig {
    AppConfig {
        remembered_username: user.map(str::to_string),
        library: vec!["Doom".to_string()],
        theme: AppTheme::Neon,
    }
}

fn app(user: Option<&str>) -> Vault64App {
    Vault64App::new(Some(config(user))).0
}

fn asset() -> GithubAsset {
    GithubAsset { name: "a.7z".into(), browser_download_url: "https://example.org/a".into(), size: 9 }
}

fn release(tag: &str) -> GithubRelease {
    GithubRelease {
        name: None,
        tag_name: tag.to_string(),
        body: None,
        assets: Vec::new(),
        html_url: None,
    }
}

fn plan(mode: &str) -> UpdatePlan {
    let temp = Location::folder(Base::SystemTemp);
    UpdatePlan {
        script: temp.child("s"),
        source: temp.child("w"),
        dest: Location::folder(Base::ProgramDir),
        exe: "x.exe".into(),
        cleanup: temp.child("w"),
        mode: mode.to_string(),
    }
}

fn names(effects: &[Effect]) -> Vec<String> {
    effects.iter().map(|e| format!("{:?}", e)).collect()
}

#[test]
fn a_first_start_asks_to_sign_in() {
    let (app, effects) = Vault64App::new(None);
    assert_eq!(app.state, AppState::Login);
    assert_eq!(app.tab, LauncherTab::Store);
    assert_eq!(app.login_username, "");
    assert!(!app.remember_me);
    assert!(!app.checking_update);
    assert_eq!(app.config.theme, AppTheme::Dark);
    assert_eq!(names(&effects), vec!["ApplyTheme"]);
}

#[test]
fn a_remembered_user_is_signed_in_at_the_start() {
    let (app, effects) = Vault64App::new(Some(config(Some("guest"))));
    assert_eq!(app.state, AppState::Launcher);
    assert_eq!(app.login_username, "guest");
    assert!(app.remember_me);
    assert!(app.checking_update);
    assert_eq!(app.app_update_info, "Checking for updates...");
    assert_eq!(app.config.theme, AppTheme::Neon);
    assert_eq!(app.config.library, vec!["Doom"]);
    assert_eq!(names(&effects), vec!["ApplyTheme", "FetchReleases", "RequestLatestRelease"]);
}

#[test]
fn signing_in_with_a_wrong_password() {
    let mut app = app(None);
    app.login_username = "guest".into();
    app.login_password = "4321".into();
    assert!(app.login().is_empty());
    assert_eq!(app.state, AppState::Login);
    assert_eq!(app.login_error.as_deref(), Some("Invalid username or password"));
    assert_eq!(app.tab_switch_counter, 0);
}

#[test]
fn signing_in_and_being_remembered() {
    let mut app = app(None);
    app.login_error = Some("old".into());
    app.login_username = "guest".into();
    app.login_password = "1234".into();
    app.remember_me = true;
    assert_eq!(
        names(&app.login()),
        vec!["SaveConfig", "FetchReleases", "RequestLatestRelease"]
    );
    assert_eq!(app.state, AppState::Launcher);
    assert_eq!(app.login_error, None);
    assert_eq!(app.config.remembered_username.as_deref(), Some("guest"));
    assert_eq!(app.tab_switch_counter, 1);
    let (again, _) = Vault64App::new(Some(app.config));
    assert_eq!(again.state, AppState::Launcher);
    assert_eq!(again.login_username, "guest");
}

#[test]
fn signing_in_without_being_remembered() {
    let mut app = app(Some("guest"));
    app.login_password = "1234".into();
    app.remember_me = false;
    assert_eq!(names(&app.login()), vec!["SaveConfig", "FetchReleases"]);
    assert_eq!(app.config.remembered_username, None);
    assert_eq!(app.config.library, vec!["Doom"]);
    let (again, _) = Vault64App::new(Some(app.config));
    assert_eq!(again.state, AppState::Login);
}

#[test]
fn signing_out() {
    let mut app = app(Some("guest"));
    app.login_password = "1234".into();
    app.change_tab(LauncherTab::Library);
    assert_eq!(names(&app.logout()), vec!["SaveConfig"]);
    assert_eq!(app.state, AppState::Login);
    assert_eq!(app.tab, LauncherTab::Store);
    assert_eq!(app.login_password, "");
    assert_eq!(app.login_username, "guest");
    assert_eq!(app.tab_switch_counter, 2);
    assert_eq!(app.config.theme, AppTheme::Neon);
    let (again, _) = Vault64App::new(Some(app.config));
    assert_eq!(again.state, AppState::Login);
}

#[test]
fn back_leads_to_the_page_before() {
    let mut app = app(Some("guest"));
    app.change_tab(LauncherTab::Library);
    app.show_details(3);
    assert_eq!(app.selected_release_idx, Some(3));
    assert_eq!(app.tab, LauncherTab::GameDetails);
    assert!(app.has_back());
    app.go_back();
    assert_eq!(app.tab, LauncherTab::Library);
    assert!(!app.has_back());
    assert_eq!(app.tab_switch_counter, 3);
    app.change_tab(LauncherTab::Library);
    assert_eq!(app.tab_switch_counter, 3);
    assert_eq!(app.previous_tab, LauncherTab::GameDetails);
}

#[test]
fn one_check_for_updates_at_a_time() {
    let mut app = app(None);
    assert!(app.check_app_updates());
    assert!(!app.check_app_updates());
    app.process_message(AppMsg::AppUpdateFetched(Err("offline".into())));
    assert_eq!(app.app_update_info, "Update check failed: offline");
    assert!(!app.checking_update);
    assert!(app.check_app_updates());
}

#[test]
fn a_newer_version_is_offered() {
    let mut app = app(Some("guest"));
    app.process_message(AppMsg::AppUpdateFetched(Ok(release("v3.5"))));
    assert!(app.show_update_modal);
    assert_eq!(app.app_update_info, "Version v3.5 is available.");
    assert_eq!(app.latest_app_release.as_ref().unwrap().tag_name, "v3.5");
    assert!(!app.checking_update);
}

#[test]
fn the_same_version_is_not_offered() {
    let mut app = app(Some("guest"));
    app.process_message(AppMsg::AppUpdateFetched(Ok(release(APP_VERSION))));
    assert!(!app.show_update_modal);
    assert!(app.latest_app_release.is_none());
    assert_eq!(app.app_update_info, "Launcher is up to date.");
}

#[test]
fn a_failed_fetch_keeps_the_games() {
    let mut app = app(Some("guest"));
    app.process_message(AppMsg::ReleasesFetched(Ok(vec![release("a")])));
    app.process_message(AppMsg::ReleasesFetched(Err("offline".into())));
    assert_eq!(app.fetch_error.as_deref(), Some("offline"));
    assert_eq!(app.releases.as_ref().unwrap().len(), 1);
    app.process_message(AppMsg::ReleasesFetched(Ok(vec![])));
    assert_eq!(app.fetch_error, None);
    assert_eq!(app.releases.as_ref().unwrap().len(), 0);
}

#[test]
fn an_installation_from_beginning_to_end() {
    let mut app = app(Some("guest"));
    let effect = app.download_and_install(asset(), "Doom".into());
    assert!(matches!(effect, Effect::StartInstall(a, n) if a.size == 9 && n == "Doom"));
    assert!(app.is_downloading);
    assert_eq!(app.download_progress, Progress::At { percent: 0 });
    assert_eq!(app.download_status, "Starting download...");
    app.process_message(AppMsg::DownloadProgress(Progress::At { percent: 70 }, "Unpacking".into()));
    assert!(app.is_downloading);
    assert_eq!(app.download_progress, Progress::At { percent: 70 });
    app.process_message(AppMsg::DownloadComplete("Doom".into()));
    assert!(!app.is_downloading);
    assert_eq!(app.download_progress, Progress::At { percent: 100 });
    assert_eq!(app.download_status, "Doom");
}

#[test]
fn a_failed_installation_is_told() {
    let mut app = app(Some("guest"));
    app.download_and_install(asset(), "Doom".into());
    app.process_message(AppMsg::DownloadError("no space".into()));
    assert!(!app.is_downloading);
    assert_eq!(app.download_status, "Error: no space");
    assert!(matches!(app.bottom_bar(), BottomBar::Status { failure: true, .. }));
}

#[test]
fn the_reports_of_a_job_end_the_installation() {
    let mut app = app(Some("guest"));
    app.download_and_install(asset(), "Doom".into());
    let mut job = InstallJob::new(asset(), "Doom");
    for event in [JobEvent::Done, JobEvent::Done, JobEvent::Done, JobEvent::Failed("x".into())] {
        assert!(app.is_downloading);
        let msgs = job.step(event).into_iter().map(|r| r.into_message("", "")).collect();
        assert!(app.process_messages(msgs).is_none());
    }
    assert!(!app.is_downloading);
    assert_eq!(app.download_status, "Error: Connection error: x");
}

#[test]
fn an_update_of_the_launcher() {
    let mut app = app(Some("guest"));
    let effect = app.download_app_update(asset());
    assert!(matches!(effect, Effect::StartAppUpdate(a) if a.name == "a.7z"));
    assert!(app.app_update_downloading);
    assert_eq!(app.app_update_status, "Preparing update...");
    app.process_message(AppMsg::AppUpdateProgress(Progress::At { percent: 60 }, "60".into()));
    assert_eq!(app.app_update_progress, Progress::At { percent: 60 });
    assert_eq!(app.app_update_status, "60");
    app.process_message(AppMsg::AppUpdateError("disk full".into()));
    assert!(!app.app_update_downloading);
    assert_eq!(app.app_update_status, "Update error: disk full");
    assert_eq!(app.app_update_info, "❌ disk full");
}

#[test]
fn nothing_is_taken_in_after_a_plan() {
    let mut app = app(Some("guest"));
    let plan = app.process_messages(vec![
        AppMsg::DownloadProgress(Progress::At { percent: 5 }, "five".into()),
        AppMsg::AppUpdateReady(plan("exe")),
        AppMsg::DownloadError("late".into()),
        AppMsg::AppUpdateReady(plan("archive")),
    ]);
    assert_eq!(plan.unwrap().mode, "exe");
    assert_eq!(app.download_status, "five");
}

#[test]
fn messages_are_taken_in_in_order() {
    let msgs = |from: u32, to: u32| -> Vec<AppMsg> {
        (from..to)
            .map(|i| AppMsg::DownloadProgress(Progress::At { percent: i }, i.to_string()))
            .collect()
    };
    let mut once = app(None);
    assert!(once.process_messages(msgs(0, 6)).is_none());
    let mut twice = app(None);
    twice.process_messages(msgs(0, 3));
    twice.process_messages(msgs(3, 6));
    assert_eq!(once.download_status, "5");
    assert_eq!(format!("{:?}", once), format!("{:?}", twice));
    assert!(app(None).process_messages(vec![]).is_none());
}

#[test]
fn what_came_of_starting_a_game() {
    let mut app = app(Some("guest"));
    app.launch_game(LaunchOutcome::NoExecutable);
    assert_eq!(app.download_status, "No executable found in game folder");
    app.launch_game(LaunchOutcome::Failed("denied".into()));
    assert_eq!(app.download_status, "Error launching game: denied");
    app.launch_game(LaunchOutcome::Started);
    assert_eq!(app.download_status, "");
}

#[test]
fn the_reports_of_a_job_end_the_update() {
    let mut app = app(Some("guest"));
    app.download_app_update(asset());
    let mut job = UpdateJob::new(asset(), 1, 2);
    let msgs = |job: &mut UpdateJob, event: JobEvent| -> Vec<AppMsg> {
        job.step(event).into_iter().map(|r| r.into_message("", "")).collect()
    };
    assert!(app.process_messages(msgs(&mut job, JobEvent::Done)).is_none());
    assert!(app.app_update_downloading);
    assert!(app.process_messages(msgs(&mut job, JobEvent::NoProgramDir)).is_none());
    assert!(!app.app_update_downloading);

    app.download_app_update(asset());
    let mut job = UpdateJob::new(asset(), 1, 2);
    let mut plan = None;
    for event in [
        JobEvent::Done,
        JobEvent::Program("x.exe".into()),
        JobEvent::Done,
        JobEvent::Answered(HttpStatus::new(200).unwrap()),
        JobEvent::Done,
        JobEvent::Received(9),
        JobEvent::Written(0),
        JobEvent::Received(0),
        JobEvent::Done,
        JobEvent::Done,
        JobEvent::Entries(vec![EntryKind::File]),
        JobEvent::Done,
        JobEvent::Entries(vec![EntryKind::File]),
    ] {
        assert!(plan.is_none());
        plan = app.process_messages(msgs(&mut job, event));
    }
    assert_eq!(plan.unwrap().mode, "archive");
    assert_eq!(app.app_update_status, "Restarting...");
}

#[test]
fn only_messages_change_the_offer() {
    let mut app = app(Some("guest"));
    app.process_message(AppMsg::AppUpdateFetched(Ok(release("v9"))));
    app.answer_modal(false, true);
    app.change_tab(LauncherTab::Settings);
    app.launch_game(LaunchOutcome::NoExecutable);
    app.logout();
    app.login();
    assert_eq!(app.latest_app_release.as_ref().unwrap().tag_name, "v9");
    app.process_message(AppMsg::AppUpdateFetched(Ok(release("v1"))));
    assert!(app.latest_app_release.is_none());
}

#[test]
fn a_queue_ends_what_is_under_way_and_keeps_the_rest() {
    let mut app = app(Some("guest"));
    app.search_query = "doom".into();
    app.change_tab(LauncherTab::Library);
    app.download_and_install(asset(), "Doom".into());
    app.download_app_update(asset());
    app.process_messages(vec![
        AppMsg::DownloadProgress(Progress::At { percent: 1 }, "a".into()),
        AppMsg::DownloadComplete("Doom".into()),
        AppMsg::DownloadProgress(Progress::At { percent: 2 }, "late".into()),
        AppMsg::ReleasesFetched(Err("x".into())),
    ]);
    assert!(!app.is_downloading);
    assert!(app.app_update_downloading);
    assert!(app.checking_update);
    app.process_messages(vec![
        AppMsg::AppUpdateFetched(Err("x".into())),
        AppMsg::AppUpdateReady(plan("exe")),
        AppMsg::AppUpdateError("not taken in".into()),
    ]);
    assert!(app.app_update_downloading);
    assert!(!app.checking_update);
    assert_eq!(app.tab, LauncherTab::Library);
    assert_eq!(app.search_query, "doom");
    assert_eq!(app.state, AppState::Launcher);
    assert_eq!(app.config.library, vec!["Doom"]);
}
