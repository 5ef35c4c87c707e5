use vault64::job::{Archive, EntryKind, JobAction, JobEvent, Report};
use vault64::location::{Base, Location};
use vault64::message::AppMsg;
use vault64::net::HttpStatus;
use vault64::package::Package;
use vault64::release::GithubAsset;
use vault64::transfer::{Transfer, TransferPhase, TransferStep};
use vault64::update::{resolve_extract_root, UpdateJob, UpdatePhase};

fn asset(name: &str, size: u64) -> GithubAsset {
    GithubAsset {
        name: name.to_string(),
        browser_download_url: format!("https://example.org/{}", name),
        size,
    }
}

fn place(l: &Location) -> String {
    format!("{:?}/{}", l.base, l.parts.join("/"))
}

fn asked(action: JobAction) -> String {
    match action {
        JobAction::RemoveFile(l) => format!("remove file {}", place(&l)),
        JobAction::CreateDir(l) => format!("create dir {}", place(&l)),
        JobAction::WriteScript(l) => format!("write script {}", place(&l)),
        JobAction::Connect(url) => format!("connect {}", url),
        JobAction::CreateFile(l) => format!("create file {}", place(&l)),
        JobAction::ReadChunk => "read".to_string(),
        JobAction::WriteChunk(n) => format!("write {}", n),
        JobAction::Unpack(kind, a, b) => {
            format!("unpack {:?} {} into {}", kind, place(&a), place(&b))
        }
        JobAction::ListDir(l) => format!("list {}", place(&l)),
        JobAction::CheckExists(l) => format!("exists {}", place(&l)),
        JobAction::Rename(a, b) => format!("rename {} to {}", place(&a), place(&b)),
        JobAction::Stop => "stop".to_string(),
        other => format!("{:?}", other),
    }
}

fn said(reports: Vec<Report>) -> Vec<String> {
    reports
        .into_iter()
        .map(|r| match r.into_message("1.00", "2.00") {
            AppMsg::AppUpdateProgress(p, s) => format!("{:?} {}", p, s),
            AppMsg::AppUpdateError(e) => format!("error {}", e),
            AppMsg::AppUpdateReady(plan) => format!(
                "ready {} {} {} {} {} {}",
                place(&plan.script),
                place(&plan.source),
                place(&plan.dest),
                plan.exe,
                place(&plan.cleanup),
                plan.mode
            ),
            other => format!("{:?}", other),
        })
        .collect()
}

fn answered(code: u16) -> JobEvent {
    JobEvent::Answered(HttpStatus::new(code).unwrap())
}

fn failed(e: &str) -> JobEvent {
    JobEvent::Failed(e.to_string())
}

fn dir(name: &str) -> EntryKind {
    EntryKind::Folder(name.to_string())
}

fn program() -> JobEvent {
    JobEvent::Program("Vault64.exe".to_string())
}

fn run(job: &mut UpdateJob, steps: Vec<(&str, JobEvent, Vec<&str>)>) {
    for (action, event, reports) in steps {
        assert_eq!(asked(job.action()), action);
        assert_eq!(said(job.step(event)), reports);
    }
}

/// The job for a file of the given name, taken as far as the given phase
/// without anything going wrong.
fn job_at(name: &str, phase: UpdatePhase) -> UpdateJob {
    let mut job = UpdateJob::new(asset(name, 10), 7, 42);
    for event in [
        JobEvent::Done,
        program(),
        JobEvent::Done,
        answered(200),
        JobEvent::Done,
        JobEvent::Received(10),
        JobEvent::Written(10),
        JobEvent::Received(0),
        JobEvent::Done,
        JobEvent::Done,
        JobEvent::Entries(vec![EntryKind::File]),
        JobEvent::Done,
        JobEvent::Entries(vec![EntryKind::File]),
    ] {
        if job.phase == phase {
            break;
        }
        job.step(event);
    }
    assert_eq!(job.phase, phase);
    job
}

#[test]
fn smooth_update_from_a_program() {
    let mut job = UpdateJob::new(asset("New.EXE", 10), 7, 42);
    let work = "SystemTemp/Vault64_update_7_42";
    run(
        &mut job,
        vec![
            (&format!("create dir {}", work), JobEvent::Done, vec![]),
            ("LocateProgram", program(), vec![]),
            ("write script SystemTemp/Vault64_updater_7_42.ps1", JobEvent::Done, vec![]),
            ("connect https://example.org/New.EXE", answered(200), vec![]),
            (&format!("create file {}/Vault64_update.exe", work), JobEvent::Done, vec![]),
            ("read", JobEvent::Received(10), vec![]),
            (
                "write 10",
                JobEvent::Written(0),
                vec![
                    "Between { start: 0, end: 85, done: 10, total: 10 } Downloading update: 1.00 MB / 2.00 MB",
                ],
            ),
            ("read", JobEvent::Received(0), vec![]),
            (&format!("remove file {}/Vault64.exe", work), failed("none"), vec![]),
            (
                &format!("rename {}/Vault64_update.exe to {}/Vault64.exe", work, work),
                JobEvent::Done,
                vec![
                    "At { percent: 98 } Restarting...",
                    &format!(
                        "ready SystemTemp/Vault64_updater_7_42.ps1 {} ProgramDir/ Vault64.exe {} exe",
                        work, work
                    ),
                ],
            ),
        ],
    );
    assert_eq!(asked(job.action()), "stop");
    assert_eq!(job.phase, UpdatePhase::Ready);
}

#[test]
fn smooth_update_from_a_zip() {
    let mut job = UpdateJob::new(asset("Vault64.zip", 10), 7, 42);
    let work = "SystemTemp/Vault64_update_7_42";
    run(
        &mut job,
        vec![
            (&format!("create dir {}", work), JobEvent::Done, vec![]),
            ("LocateProgram", program(), vec![]),
            ("write script SystemTemp/Vault64_updater_7_42.ps1", JobEvent::Done, vec![]),
            ("connect https://example.org/Vault64.zip", answered(200), vec![]),
            (&format!("create file {}/update.zip", work), JobEvent::Done, vec![]),
            ("read", JobEvent::Received(4), vec![]),
            (
                "write 4",
                JobEvent::Written(0),
                vec![
                    "Between { start: 0, end: 55, done: 4, total: 10 } Downloading update package: 1.00 MB / 2.00 MB",
                ],
            ),
            ("read", JobEvent::Received(6), vec![]),
            (
                "write 6",
                JobEvent::Written(0),
                vec![
                    "Between { start: 0, end: 55, done: 10, total: 10 } Downloading update package: 1.00 MB / 2.00 MB",
                ],
            ),
            ("read", JobEvent::Received(0), vec![]),
            (
                &format!("create dir {}/extracted", work),
                JobEvent::Done,
                vec!["At { percent: 60 } Extracting update files..."],
            ),
            (
                &format!("unpack Zip {}/update.zip into {}/extracted", work, work),
                JobEvent::Done,
                vec![],
            ),
            (
                &format!("list {}/extracted", work),
                JobEvent::Entries(vec![EntryKind::File, dir("data")]),
                vec![],
            ),
            (&format!("exists {}/extracted", work), JobEvent::Done, vec![]),
            (
                &format!("list {}/extracted", work),
                JobEvent::Entries(vec![EntryKind::File, dir("data")]),
                vec![
                    "At { percent: 90 } Preparing updater's script...",
                    "At { percent: 98 } Restarting...",
                    &format!(
                        "ready SystemTemp/Vault64_updater_7_42.ps1 {}/extracted ProgramDir/ Vault64.exe {} archive",
                        work, work
                    ),
                ],
            ),
        ],
    );
}

#[test]
fn a_folder_in_the_package_is_the_source() {
    let mut job = job_at("Vault64.7z", UpdatePhase::FindRoot);
    let source = "SystemTemp/Vault64_update_7_42/extracted/Vault64-v4";
    job.step(JobEvent::Entries(vec![dir("Vault64-v4")]));
    assert_eq!(asked(job.action()), format!("exists {}", source));
    job.step(JobEvent::Done);
    assert_eq!(asked(job.action()), format!("list {}", source));
    let last = said(job.step(JobEvent::Entries(vec![EntryKind::Unreadable]))).pop().unwrap();
    assert_eq!(
        last,
        format!(
            "ready SystemTemp/Vault64_updater_7_42.ps1 {} ProgramDir/ Vault64.exe SystemTemp/Vault64_update_7_42 archive",
            source
        )
    );
}

#[test]
fn a_folder_that_cannot_be_listed_is_the_source_itself() {
    let mut job = job_at("Vault64.7z", UpdatePhase::FindRoot);
    job.step(failed("x"));
    assert_eq!(asked(job.action()), "exists SystemTemp/Vault64_update_7_42/extracted");
}

#[test]
fn sole_folders() {
    for (entries, nested) in [
        (vec![dir("a")], Some("a")),
        (vec![dir("a"), EntryKind::Unreadable], Some("a")),
        (vec![EntryKind::Unreadable, dir("b"), EntryKind::Unreadable], Some("b")),
        (vec![EntryKind::File], None),
        (vec![EntryKind::Other], None),
        (vec![EntryKind::Unreadable], None),
        (vec![dir("a"), dir("b")], None),
        (vec![dir("a"), EntryKind::File], None),
        (vec![], None),
    ] {
        assert_eq!(resolve_extract_root(&Some(entries)).as_deref(), nested);
    }
    assert_eq!(resolve_extract_root(&None), None);
}

#[test]
fn each_failure_of_an_update_is_told() {
    for (name, phase, event, text) in [
        (
            "a.7z",
            UpdatePhase::MakeWorkDir,
            failed("x"),
            "error Could not create temporary update folder: x",
        ),
        ("a.7z", UpdatePhase::Locate, failed("x"), "error x"),
        (
            "a.7z",
            UpdatePhase::Locate,
            JobEvent::NoProgramDir,
            "error Could not find program directory",
        ),
        (
            "a.7z",
            UpdatePhase::Locate,
            JobEvent::NoProgramName,
            "error Could not find executable name",
        ),
        ("a.7z", UpdatePhase::WriteScript, failed("x"), "error Could not write updater script: x"),
        (
            "a.txt",
            UpdatePhase::WriteScript,
            JobEvent::Done,
            "error No supported update package found. Expected .7z or .zip",
        ),
        ("a.7z", UpdatePhase::Download, failed("x"), "error x"),
        ("a.7z", UpdatePhase::Download, answered(500), "error HTTP error: 500 Internal Server Error"),
        (
            "a.exe",
            UpdatePhase::RenameExe,
            failed("x"),
            "error Could not prepare update executable: x",
        ),
        (
            "a.zip",
            UpdatePhase::MakeExtractDir,
            failed("x"),
            "error Could not create extraction folder: x",
        ),
        ("a.7z", UpdatePhase::Unpack, failed("x"), "error 7z extraction failed: x"),
        ("a.zip", UpdatePhase::Unpack, failed("x"), "error x"),
        ("a.zip", UpdatePhase::CheckRoot, failed("x"), "error Extracted update folder was not found"),
        (
            "a.zip",
            UpdatePhase::ListRoot,
            failed("x"),
            "error Could not read extracted update folder: x",
        ),
        ("a.zip", UpdatePhase::ListRoot, JobEvent::Entries(vec![]), "error Update archive is empty"),
    ] {
        let mut job = job_at(name, phase);
        assert_eq!(said(job.step(event)), vec![text]);
        assert_eq!(job.phase, UpdatePhase::Failed);
        assert_eq!(asked(job.action()), "stop");
        assert!(job.step(JobEvent::Done).is_empty());
    }
}

#[test]
fn the_kind_of_package_can_be_given() {
    let mut job =
        UpdateJob::with_package(asset("odd", 0), Some(Package::Packed(Archive::Zip)), 1, 2);
    for event in [JobEvent::Done, program(), JobEvent::Done, answered(200)] {
        job.step(event);
    }
    assert_eq!(asked(job.action()), "create file SystemTemp/Vault64_update_1_2/update.zip");
}

#[test]
fn jobs_have_their_own_places() {
    let places: Vec<String> = [(1u32, 11u128), (11, 1), (1, 1), (111, 1), (1, 111)]
        .iter()
        .map(|(pid, stamp)| asked(UpdateJob::new(asset("a.7z", 1), *pid, *stamp).action()))
        .collect();
    for a in 0..places.len() {
        for b in 0..a {
            assert_ne!(places[a], places[b]);
        }
    }
}

#[test]
fn the_script_lies_outside_the_folder_that_is_deleted() {
    let mut job = job_at("a.zip", UpdatePhase::ListRoot);
    for report in job.step(JobEvent::Entries(vec![EntryKind::File])) {
        if let Report::Say(AppMsg::AppUpdateReady(plan)) = report {
            assert_eq!(plan.script.base, Base::SystemTemp);
            assert_eq!(plan.script.parts.len(), 1);
            assert_ne!(plan.script.parts[0], plan.cleanup.parts[0]);
            return;
        }
    }
    panic!("no plan");
}

fn transfer(size: u64) -> Transfer {
    Transfer::new(
        "https://example.org/f".to_string(),
        Location::folder(Base::SystemTemp).child("f"),
        size,
        10,
        20,
        "Fetching",
    )
}

fn reason(step: TransferStep) -> String {
    match step {
        TransferStep::Failed(e) => e,
        other => format!("{:?}", other),
    }
}

fn reading(size: u64) -> Transfer {
    let mut t = transfer(size);
    t.step(answered(200));
    t.step(JobEvent::Done);
    assert_eq!(t.phase, TransferPhase::Read);
    t
}

#[test]
fn downloads_count_what_they_write() {
    let mut t = reading(100);
    t.step(JobEvent::Received(30));
    assert_eq!(asked(t.action()), "write 30");
    match t.step(JobEvent::Written(0)) {
        TransferStep::Going(reports) => assert_eq!(
            said(reports),
            vec!["Between { start: 10, end: 20, done: 30, total: 100 } Fetching: 1.00 MB / 2.00 MB"]
        ),
        other => panic!("{:?}", other),
    }
    assert_eq!(t.downloaded, 30);
}

#[test]
fn downloads_of_unknown_size_show_half() {
    let mut t = reading(0);
    t.step(JobEvent::Received(30));
    match t.step(JobEvent::Written(0)) {
        TransferStep::Going(reports) => assert_eq!(
            said(reports),
            vec!["Between { start: 10, end: 20, done: 1, total: 2 } Fetching: 1.00 MB"]
        ),
        other => panic!("{:?}", other),
    }
    assert!(matches!(t.step(JobEvent::Received(0)), TransferStep::Complete));
}

#[test]
fn each_failure_of_a_download_is_told() {
    assert_eq!(reason(transfer(1).step(failed("x"))), "x");
    assert_eq!(reason(transfer(1).step(answered(404))), "HTTP error: 404 Not Found");
    let mut t = transfer(1);
    t.step(answered(200));
    assert_eq!(reason(t.step(failed("x"))), "Could not create file: x");
    assert_eq!(reason(reading(1).step(failed("x"))), "Connection interrupted: x");
    let mut t = reading(1);
    t.step(JobEvent::Received(1));
    assert_eq!(reason(t.step(failed("x"))), "Write error: x");
    assert_eq!(
        reason(reading(1).step(JobEvent::Received(0))),
        "Download was interrupted before completion"
    );
}

#[test]
fn whole_downloads_are_complete() {
    let mut t = reading(5);
    t.step(JobEvent::Received(5));
    t.step(JobEvent::Written(0));
    assert!(matches!(t.step(JobEvent::Received(0)), TransferStep::Complete));
    assert_eq!(asked(t.action()), "stop");
}
