use vault64::location::{Base, Location};
use vault64::message::{
    latest_release_reply, releases_reply, AppMsg, UpdatePlan, UpdaterArg,
};
use vault64::net::{games_url, latest_release_url, outcome, user_agent, HttpStatus, Reply};
use vault64::release::GithubRelease;

fn status(code: u16) -> HttpStatus {
    HttpStatus::new(code).unwrap()
}

fn release(tag: &str) -> GithubRelease {
    GithubRelease {
        name: None,
        tag_name: tag.to_string(),
        body: None,
        assets: Vec::new(),
        html_url: None,
    }
}

#[test]
fn addresses() {
    assert_eq!(
        latest_release_url(),
        "https://api.github.com/repos/FlatronTech/Vault64/releases/latest"
    );
    assert_eq!(games_url(), "https://api.github.com/repos/FlatronTech/Vault64-games/releases");
    assert_eq!(user_agent(), "Vault64-Launcher");
}

#[test]
fn codes_of_success() {
    for code in 100..1000 {
        assert_eq!(status(code).is_success(), (200..300).contains(&code), "{}", code);
    }
}

#[test]
fn codes_have_three_digits() {
    assert!(HttpStatus::new(99).is_none());
    assert!(HttpStatus::new(100).is_some());
    assert!(HttpStatus::new(999).is_some());
    assert!(HttpStatus::new(1000).is_none());
    assert!(HttpStatus::new(0).is_none());
}

#[test]
fn statuses_are_shown_with_their_phrase() {
    assert_eq!(status(404).text(), "404 Not Found");
    assert_eq!(status(200).text(), "200 OK");
    assert_eq!(status(403).text(), "403 Forbidden");
    for code in 100..1000 {
        let shown = status(code).text();
        assert!(shown.starts_with(&format!("{} ", code)), "{}", shown);
    }
}

#[test]
fn replies_amount_to_content_or_reason() {
    assert_eq!(outcome(Reply::Content(7), "x: "), Ok(7));
    assert_eq!(outcome::<u8>(Reply::NotSent("no route".into()), "x: "), Err("no route".into()));
    assert_eq!(outcome::<u8>(Reply::Unreadable("bad".into()), "x: "), Err("bad".into()));
    assert_eq!(
        outcome::<u8>(Reply::Refused(status(500)), "x: "),
        Err("x: 500 Internal Server Error".into())
    );
}

#[test]
fn refusals_are_told_by_request() {
    match releases_reply(Reply::Refused(status(404))) {
        AppMsg::ReleasesFetched(Err(e)) => assert_eq!(e, "API error: 404 Not Found"),
        other => panic!("{:?}", other),
    }
    match latest_release_reply(Reply::Refused(status(403))) {
        AppMsg::AppUpdateFetched(Err(e)) => assert_eq!(e, "Status: 403 Forbidden"),
        other => panic!("{:?}", other),
    }
}

#[test]
fn content_is_handed_on() {
    match releases_reply(Reply::Content(vec![release("a"), release("b")])) {
        AppMsg::ReleasesFetched(Ok(list)) => {
            assert_eq!(list.len(), 2);
            assert_eq!(list[1].tag_name, "b");
        }
        other => panic!("{:?}", other),
    }
    match latest_release_reply(Reply::Content(release("v9"))) {
        AppMsg::AppUpdateFetched(Ok(r)) => assert_eq!(r.tag_name, "v9"),
        other => panic!("{:?}", other),
    }
    match latest_release_reply(Reply::NotSent("offline".into())) {
        AppMsg::AppUpdateFetched(Err(e)) => assert_eq!(e, "offline"),
        other => panic!("{:?}", other),
    }
}

#[test]
fn the_updater_gets_the_plan_as_arguments() {
    let temp = Location::folder(Base::SystemTemp);
    let plan = UpdatePlan {
        script: temp.child("u.ps1"),
        source: temp.child("w").child("extracted"),
        dest: Location::folder(Base::ProgramDir),
        exe: "Vault64.exe".to_string(),
        cleanup: temp.child("w"),
        mode: "archive".to_string(),
    };
    let shown: Vec<String> = plan
        .updater_args()
        .iter()
        .map(|arg| match arg {
            UpdaterArg::Text(t) => t.clone(),
            UpdaterArg::Path(p) => format!("{:?}/{}", p.base, p.parts.join("/")),
        })
        .collect();
    assert_eq!(
        shown,
        vec![
            "-NoProfile",
            "-ExecutionPolicy",
            "Bypass",
            "-WindowStyle",
            "Hidden",
            "-File",
            "SystemTemp/u.ps1",
            "-Source",
            "SystemTemp/w/extracted",
            "-Dest",
            "ProgramDir/",
            "-AppExe",
            "Vault64.exe",
            "-Cleanup",
            "SystemTemp/w",
            "-Mode",
            "archive",
        ]
    );
}
