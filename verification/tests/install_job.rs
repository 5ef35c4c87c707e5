use vault64::install::{game_location, InstallJob, InstallPhase};
use vault64::job::{Archive, JobAction, JobEvent, JobKind, Report};
use vault64::location::Location;
use vault64::message::AppMsg;
use vault64::net::HttpStatus;
use vault64::progress::Progress;
use vault64::release::GithubAsset;

fn job(size: u64) -> InstallJob {
    InstallJob::new(
        GithubAsset {
            name: "doom.7z".to_string(),
            browser_download_url: "https://example.org/doom.7z".to_string(),
            size,
        },
        "Doom: 1993",
    )
}

fn place(l: &Location) -> String {
    format!("{:?}/{}", l.base, l.parts.join("/"))
}

fn asked(job: &InstallJob) -> String {
    match job.action() {
        JobAction::RemoveDir(l) => format!("remove dir {}", place(&l)),
        JobAction::RemoveFile(l) => format!("remove file {}", place(&l)),
        JobAction::CreateDir(l) => format!("create dir {}", place(&l)),
        JobAction::Connect(url) => format!("connect {}", url),
        JobAction::CreateFile(l) => format!("create file {}", place(&l)),
        JobAction::ReadChunk => "read".to_string(),
        JobAction::WriteChunk(n) => format!("write {}", n),
        JobAction::Unpack(Archive::SevenZip, a, b) => {
            format!("unpack {} into {}", place(&a), place(&b))
        }
        JobAction::CheckExists(l) => format!("exists {}", place(&l)),
        JobAction::Rename(a, b) => format!("rename {} to {}", place(&a), place(&b)),
        JobAction::Stop => "stop".to_string(),
        other => format!("{:?}", other),
    }
}

fn said(reports: Vec<Report>) -> Vec<String> {
    reports
        .into_iter()
        .map(|r| match r.into_message("1.00", "2.00") {
            AppMsg::DownloadProgress(p, s) => format!("{:?} {}", p, s),
            AppMsg::DownloadComplete(n) => format!("complete {}", n),
            AppMsg::DownloadError(e) => format!("error {}", e),
            other => format!("{:?}", other),
        })
        .collect()
}

fn answered(code: u16) -> JobEvent {
    JobEvent::Answered(HttpStatus::new(code).unwrap())
}

fn failed(e: &str) -> JobEvent {
    JobEvent::Failed(e.to_string())
}

/// The job, taken as far as the given phase without anything going wrong.
fn job_at(phase: InstallPhase) -> InstallJob {
    let mut job = job(100);
    for event in [
        JobEvent::Done,
        JobEvent::Done,
        JobEvent::Done,
        answered(200),
        JobEvent::Done,
        JobEvent::Received(100),
        JobEvent::Written(100),
        JobEvent::Received(0),
        JobEvent::Done,
        JobEvent::Done,
        JobEvent::Done,
        JobEvent::Done,
        JobEvent::Done,
    ] {
        if job.phase == phase {
            break;
        }
        job.step(event);
    }
    assert_eq!(job.phase, phase);
    job
}

#[test]
fn smooth_installation() {
    let mut job = job(100);
    let events: Vec<(&str, JobEvent, Vec<&str>)> = vec![
        ("remove dir GamesDir/Doom_ 1993_temp", failed("none"), vec![]),
        ("remove file GamesDir/Doom_ 1993.7z", failed("none"), vec![]),
        (
            "create dir GamesDir/Doom_ 1993_temp",
            JobEvent::Done,
            vec!["At { percent: 1 } Connecting..."],
        ),
        ("connect https://example.org/doom.7z", answered(200), vec![]),
        ("create file GamesDir/Doom_ 1993.7z", JobEvent::Done, vec![]),
        ("read", JobEvent::Received(60), vec![]),
        (
            "write 60",
            JobEvent::Written(60),
            vec!["Between { start: 0, end: 60, done: 60, total: 100 } Downloading: 1.00 MB / 2.00 MB"],
        ),
        ("read", JobEvent::Received(40), vec![]),
        (
            "write 40",
            JobEvent::Written(100),
            vec!["Between { start: 0, end: 60, done: 100, total: 100 } Downloading: 1.00 MB / 2.00 MB"],
        ),
        (
            "read",
            JobEvent::Received(0),
            vec![
                "At { percent: 70 } Unpacking files... this may take a while, so sit back and relax :P",
            ],
        ),
        (
            "unpack GamesDir/Doom_ 1993.7z into GamesDir/Doom_ 1993_temp",
            JobEvent::Done,
            vec!["At { percent: 95 } Finalizing installation..."],
        ),
        ("exists GamesDir/Doom_ 1993", JobEvent::Done, vec![]),
        ("remove dir GamesDir/Doom_ 1993", JobEvent::Done, vec![]),
        ("rename GamesDir/Doom_ 1993_temp to GamesDir/Doom_ 1993", JobEvent::Done, vec![]),
        ("remove file GamesDir/Doom_ 1993.7z", failed("busy"), vec!["complete Doom_ 1993"]),
    ];
    for (action, event, reports) in events {
        assert_eq!(asked(&job), action);
        assert_eq!(said(job.step(event)), reports);
    }
    assert_eq!(asked(&job), "stop");
    assert_eq!(job.phase, InstallPhase::Installed);
    assert!(job.step(JobEvent::Done).is_empty());
}

#[test]
fn a_first_installation_removes_nothing() {
    let mut job = job_at(InstallPhase::CheckOld);
    job.step(failed("not there"));
    assert_eq!(job.phase, InstallPhase::MoveIn);
}

#[test]
fn each_failure_of_an_installation_is_told() {
    for (phase, event, text) in [
        (InstallPhase::MakeTemp, failed("x"), "error Cannot create temporary folder: x"),
        (InstallPhase::Connect, failed("x"), "error Connection error: x"),
        (InstallPhase::Connect, answered(404), "error HTTP error: 404 Not Found"),
        (InstallPhase::OpenArchive, failed("x"), "error Error saving file to disk: x"),
        (InstallPhase::Read, failed("x"), "error Connection interrupted: x"),
        (
            InstallPhase::Read,
            JobEvent::Received(0),
            "error Download was interrupted. File is probably corrupted.",
        ),
        (InstallPhase::Write(100), failed("x"), "error Error saving file to disk: x"),
        (
            InstallPhase::Unpack,
            failed("x"),
            "error Critical error while decompressing .7z file: x",
        ),
        (InstallPhase::RemoveOld, failed("x"), "error Could not remove old installation: x"),
        (InstallPhase::MoveIn, failed("x"), "error Error finalizing installation: x"),
    ] {
        let mut job = job_at(phase);
        assert_eq!(said(job.step(event)), vec![text]);
        assert_eq!(job.phase, InstallPhase::Failed);
        assert_eq!(asked(&job), "stop");
    }
}

#[test]
fn unexpected_events_change_nothing_in_an_installation() {
    let mut job = job_at(InstallPhase::Connect);
    assert!(job.step(JobEvent::Received(5)).is_empty());
    assert_eq!(job.phase, InstallPhase::Connect);
    let mut job = job_at(InstallPhase::Read);
    assert!(job.step(JobEvent::Done).is_empty());
    assert_eq!(job.phase, InstallPhase::Read);
}

#[test]
fn a_package_of_unknown_size_counts_as_downloaded() {
    let mut job = job(0);
    for event in [JobEvent::Done, JobEvent::Done, JobEvent::Done, answered(206), JobEvent::Done] {
        job.step(event);
    }
    job.step(JobEvent::Received(10));
    match job.step(JobEvent::Written(10)).remove(0) {
        Report::Transferred { job: JobKind::Install, progress, done, total, label } => {
            assert_eq!(progress, Progress::Between { start: 0, end: 60, done: 1, total: 1 });
            assert_eq!(done, 10);
            assert_eq!(total, Some(0));
            assert_eq!(label, "Downloading");
        }
        other => panic!("{:?}", other),
    }
    job.step(JobEvent::Received(0));
    assert_eq!(job.phase, InstallPhase::Unpack);
}

#[test]
fn an_old_installation_is_kept_until_the_package_is_unpacked() {
    for phase in [
        InstallPhase::ClearTemp,
        InstallPhase::ClearArchive,
        InstallPhase::MakeTemp,
        InstallPhase::Connect,
        InstallPhase::OpenArchive,
        InstallPhase::Read,
        InstallPhase::Unpack,
    ] {
        let action = asked(&job_at(phase));
        assert!(!action.ends_with("GamesDir/Doom_ 1993"), "{}", action);
    }
    assert_eq!(asked(&job_at(InstallPhase::RemoveOld)), "remove dir GamesDir/Doom_ 1993");
    assert_eq!(place(&game_location("Doom_ 1993")), "GamesDir/Doom_ 1993");
}

#[test]
fn shares_grow_within_the_first_six_tenths() {
    let mut job = job(100);
    for event in [JobEvent::Done, JobEvent::Done, JobEvent::Done, answered(200), JobEvent::Done] {
        job.step(event);
    }
    let mut last = 0.0;
    for counted in [1u64, 20, 20, 55, 100, 140] {
        job.step(JobEvent::Received(1));
        match job.step(JobEvent::Written(counted)).remove(0) {
            Report::Transferred {
                progress: Progress::Between { start, end, done, total }, ..
            } => {
                let way = (done as f64 / total as f64).min(1.0);
                let share = start as f64 + way * (end - start) as f64;
                assert!(last <= share && share <= 60.0);
                last = share;
            }
            other => panic!("{:?}", other),
        }
    }
    assert_eq!(last, 60.0);
}

#[test]
fn a_game_without_a_name_has_the_folder_of_all_games() {
    assert_eq!(place(&game_location("")), "GamesDir/");
    let mut job = InstallJob::new(
        GithubAsset { name: "x.7z".into(), browser_download_url: "u".into(), size: 0 },
        "",
    );
    assert_eq!(asked(&job), "remove dir GamesDir/_temp");
    job.phase = InstallPhase::ClearArchive;
    assert_eq!(asked(&job), "remove file GamesDir/.7z");
    job.phase = InstallPhase::RemoveOld;
    assert_eq!(asked(&job), "remove dir GamesDir/");
    job.phase = InstallPhase::MoveIn;
    assert_eq!(asked(&job), "rename GamesDir/_temp to GamesDir/");
}
