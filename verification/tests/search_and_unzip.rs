use vault64::exe_search::{is_exe_extension, sort_entry, ExeSearch, SearchEntry, SearchStep};
use vault64::unzip::{is_folder_name, Unzip, UnzipEvent, UnzipPhase};

/// A folder by its name, with its entries in order.
enum Node {
    Dir(&'static str, Vec<Node>),
    File(&'static str),
}

fn entry(node: &Node) -> SearchEntry<&'static str> {
    match node {
        Node::Dir(name, _) => sort_entry(*name, true, false, None),
        Node::File(name) => {
            let ext = name.rsplit_once('.').map(|(_, e)| e.to_string());
            sort_entry(*name, false, true, ext)
        }
    }
}

fn find<'a>(nodes: &'a [Node], name: &str) -> Option<&'a Vec<Node>> {
    for node in nodes {
        if let Node::Dir(n, kids) = node {
            if *n == name {
                return Some(kids);
            }
            if let Some(found) = find(kids, name) {
                return Some(found);
            }
        }
    }
    None
}

/// What the search finds, and which folders it lists.
fn search(root: &[Node]) -> (Option<&'static str>, Vec<&'static str>) {
    let mut search = ExeSearch::new();
    let mut listed = Vec::new();
    let mut step = search.listed(root.iter().map(entry).collect());
    loop {
        match step {
            SearchStep::List(name) => {
                listed.push(name);
                let kids = find(root, name).unwrap();
                step = search.listed(kids.iter().map(entry).collect());
            }
            SearchStep::Found(name) => return (Some(name), listed),
            SearchStep::Nothing => return (None, listed),
        }
    }
}

#[test]
fn the_first_executable_is_found_depth_first() {
    let tree = vec![
        Node::File("readme.txt"),
        Node::Dir("data", vec![Node::Dir("empty", vec![]), Node::File("a.bin")]),
        Node::Dir("bin", vec![Node::File("tool.dll"), Node::File("Game.EXE")]),
        Node::File("setup.exe"),
    ];
    assert_eq!(search(&tree), (Some("Game.EXE"), vec!["data", "empty", "bin"]));
}

#[test]
fn an_executable_before_a_folder_ends_the_search() {
    let tree = vec![Node::File("a.exe"), Node::Dir("d", vec![Node::File("b.exe")])];
    assert_eq!(search(&tree), (Some("a.exe"), vec![]));
}

#[test]
fn a_folder_without_executables() {
    let tree = vec![Node::Dir("d", vec![Node::File("exe"), Node::File("x.exe.bak")])];
    assert_eq!(search(&tree), (None, vec!["d"]));
    assert_eq!(search(&[]), (None, vec![]));
}

#[test]
fn entries_are_sorted() {
    assert!(matches!(sort_entry(1, true, false, Some("exe".into())), SearchEntry::Folder(1)));
    assert!(matches!(sort_entry(1, false, true, Some("ExE".into())), SearchEntry::Executable(1)));
    assert!(matches!(sort_entry(1, false, false, Some("exe".into())), SearchEntry::Other));
    assert!(matches!(sort_entry(1, false, true, None), SearchEntry::Other));
    assert!(matches!(sort_entry(1, false, true, Some("ex".into())), SearchEntry::Other));
    assert!(is_exe_extension("exe"));
    assert!(!is_exe_extension("EXE"));
}

fn found(enclosed: bool, name: &str) -> UnzipEvent {
    UnzipEvent::Found { enclosed, name: name.to_string() }
}

#[test]
fn folder_names_end_with_a_separator() {
    assert!(is_folder_name("a/"));
    assert!(is_folder_name("a\\"));
    assert!(!is_folder_name("a/b"));
    assert!(!is_folder_name(""));
}

#[test]
fn entries_are_unpacked_in_order() {
    let mut unzip = Unzip::new();
    assert_eq!(unzip.phase, UnzipPhase::Open);
    assert_eq!(unzip.step(UnzipEvent::Opened(3)), None);
    assert_eq!((unzip.phase, unzip.index), (UnzipPhase::Entry, 0));
    assert_eq!(unzip.step(found(true, "dir/")), None);
    assert_eq!(unzip.phase, UnzipPhase::MakeDir);
    assert_eq!(unzip.step(UnzipEvent::Failed("exists".into())), None);
    assert_eq!((unzip.phase, unzip.index), (UnzipPhase::Entry, 1));
    assert_eq!(unzip.step(found(true, "dir/file")), None);
    assert_eq!(unzip.phase, UnzipPhase::MakeFile);
    assert_eq!(unzip.step(UnzipEvent::Done), None);
    assert_eq!(unzip.phase, UnzipPhase::Copy);
    assert_eq!(unzip.step(UnzipEvent::Done), None);
    assert_eq!((unzip.phase, unzip.index), (UnzipPhase::Entry, 2));
    assert_eq!(unzip.step(found(true, "last")), None);
    assert_eq!(unzip.step(UnzipEvent::Done), None);
    assert_eq!(unzip.step(UnzipEvent::Done), None);
    assert_eq!(unzip.phase, UnzipPhase::Ended);
}

#[test]
fn escaping_entries_are_skipped() {
    let mut unzip = Unzip::new();
    unzip.step(UnzipEvent::Opened(2));
    unzip.step(found(false, "../evil"));
    assert_eq!((unzip.phase, unzip.index), (UnzipPhase::Entry, 1));
    unzip.step(found(false, "../evil/"));
    assert_eq!(unzip.phase, UnzipPhase::Ended);
}

#[test]
fn an_empty_file_is_unpacked_at_once() {
    let mut unzip = Unzip::new();
    assert_eq!(unzip.step(UnzipEvent::Opened(0)), None);
    assert_eq!(unzip.phase, UnzipPhase::Ended);
}

#[test]
fn each_failure_of_unpacking_is_told() {
    let fail = || UnzipEvent::Failed("x".into());
    assert_eq!(Unzip::new().step(fail()).as_deref(), Some("x"));
    let mut unzip = Unzip::new();
    unzip.step(UnzipEvent::Opened(1));
    assert_eq!(unzip.step(fail()).as_deref(), Some("x"));
    assert_eq!(unzip.phase, UnzipPhase::Ended);
    let mut unzip = Unzip::new();
    unzip.step(UnzipEvent::Opened(1));
    unzip.step(found(true, "f"));
    assert_eq!(unzip.step(fail()).as_deref(), Some("Could not create extracted file: x"));
    let mut unzip = Unzip::new();
    unzip.step(UnzipEvent::Opened(1));
    unzip.step(found(true, "f"));
    unzip.step(UnzipEvent::Done);
    assert_eq!(unzip.step(fail()).as_deref(), Some("Could not extract file contents: x"));
    assert_eq!(unzip.step(fail()), None);
}
