use vault64::job::Archive;
use vault64::launcher::Vault64App;
use vault64::package::{extension_kind, file_kind, package_kind, Package};
use vault64::release::{
    choose_update, clone_opt, find_ending, match_texts, GithubAsset, GithubRelease,
};

fn asset(name: &str, size: u64) -> GithubAsset {
    GithubAsset {
        name: name.to_string(),
        browser_download_url: format!("https://example.org/{}", name),
        size,
    }
}

fn release(name: Option<&str>, tag: &str, body: Option<&str>, assets: &[&str]) -> GithubRelease {
    GithubRelease {
        name: name.map(str::to_string),
        tag_name: tag.to_string(),
        body: body.map(str::to_string),
        assets: assets.iter().enumerate().map(|(i, a)| asset(a, i as u64)).collect(),
        html_url: None,
    }
}

fn chosen(assets: &[&str]) -> Option<String> {
    Vault64App::find_update_asset(&release(None, "v4", None, assets)).map(|a| a.name)
}

#[test]
fn updates_prefer_7z_then_zip_then_exe() {
    assert_eq!(chosen(&["a.exe", "b.zip", "c.7z", "d.7z"]).as_deref(), Some("c.7z"));
    assert_eq!(chosen(&["a.exe", "b.zip", "c.ZIP"]).as_deref(), Some("b.zip"));
    assert_eq!(chosen(&["notes.txt", "A.EXE", "b.exe"]).as_deref(), Some("A.EXE"));
    assert_eq!(chosen(&["notes.txt", "7z", "zip.txt"]), None);
    assert_eq!(chosen(&[]), None);
    assert_eq!(chosen(&["Setup.7Z"]).as_deref(), Some("Setup.7Z"));
}

#[test]
fn the_chosen_file_is_handed_over_whole() {
    let r = release(None, "v4", None, &["a.txt", "b.zip"]);
    let a = Vault64App::find_update_asset(&r).unwrap();
    assert_eq!(a.name, "b.zip");
    assert_eq!(a.browser_download_url, "https://example.org/b.zip");
    assert_eq!(a.size, 1);
}

#[test]
fn chosen_updates_are_of_a_known_kind() {
    for assets in [&["x.7z"][..], &["Vault64.ZIP", "a.exe"][..], &["Vault64.Exe"][..]] {
        let name = chosen(assets).unwrap();
        assert!(file_kind(&name).is_some(), "{}", name);
    }
    assert_eq!(chosen(&[".7z"]).as_deref(), Some(".7z"));
    assert_eq!(file_kind(".7z"), None);
}

#[test]
fn a_game_is_installed_from_its_first_7z() {
    let r = release(Some("Doom"), "d1", None, &["doom.zip", "doom.7Z", "extra.7z"]);
    assert_eq!(r.game_package().unwrap().name, "doom.7Z");
    let r = release(Some("Doom"), "d1", None, &["doom.zip"]);
    assert!(r.game_package().is_none());
}

#[test]
fn the_choice_goes_by_lower_case_names() {
    let names: Vec<String> = ["a.exe", "b.zip", "c.zip"].iter().map(|s| s.to_string()).collect();
    assert_eq!(choose_update(&names), Some(1));
    assert_eq!(find_ending(&names, ".exe"), Some(0));
    assert_eq!(find_ending(&names, ".7z"), None);
}

#[test]
fn games_are_shown_by_title_or_tag() {
    assert_eq!(release(Some("Doom"), "d1", None, &[]).game_name(), "Doom");
    assert_eq!(release(None, "d1", None, &[]).game_name(), "d1");
}

#[test]
fn search_ignores_case_and_surrounding_space() {
    let r = release(Some("Super Mario 64"), "sm64-v1", Some("Jump on GOOMBAS"), &[]);
    for hit in ["", "   ", "mario", " MARIO ", "SM64", "goomba", "64", "o 6"] {
        assert!(Vault64App::matches_release(&r, hit), "{:?}", hit);
    }
    for miss in ["zelda", "mario64", "goombas!"] {
        assert!(!Vault64App::matches_release(&r, miss), "{:?}", miss);
    }
    let untitled = release(None, "TAG-1", None, &[]);
    assert!(Vault64App::matches_release(&untitled, "tag"));
    assert!(!Vault64App::matches_release(&untitled, "mario"));
}

#[test]
fn ascii_searches_reach_other_texts() {
    let r = release(Some("Pokémon Gold"), "ポケモン", None, &[]);
    assert!(Vault64App::matches_release(&r, "GOLD"));
    assert!(Vault64App::matches_release(&r, "gold"));
    assert!(!Vault64App::matches_release(&r, "silver"));
}

#[test]
fn search_lowers_letters_beyond_ascii() {
    let r = release(Some("ÉPÉE"), "t", None, &[]);
    assert!(Vault64App::matches_release(&r, "épée"));
    assert!(Vault64App::matches_release(&r, "ÉPÉE"));
}

#[test]
fn lowered_texts_are_searched() {
    assert!(match_texts("", "a", "b", "c"));
    assert!(match_texts("b", "a", "b", "c"));
    assert!(match_texts("c", "a", "b", "xcx"));
    assert!(!match_texts("A", "a", "b", "c"));
}

#[test]
fn copies_are_equal() {
    let r = release(Some("Doom"), "d1", Some("b"), &["x.7z", "y.zip"]);
    assert_eq!(format!("{:?}", r.clone()), format!("{:?}", r));
    assert_eq!(clone_opt(&None), None);
    assert_eq!(clone_opt(&Some("x".to_string())), Some("x".to_string()));
}

#[test]
fn kinds_of_packages() {
    let seven = Some(Package::Packed(Archive::SevenZip));
    let zip = Some(Package::Packed(Archive::Zip));
    for (name, kind) in [
        ("Vault64.7z", seven),
        ("Vault64.v3.7Z", seven),
        ("a.zip", zip),
        ("a.ZiP", zip),
        ("setup.EXE", Some(Package::Exe)),
        ("setup.exe.txt", None),
        ("setup", None),
        ("setup.", None),
        (".exe", None),
        ("..exe", Some(Package::Exe)),
        ("..", None),
        ("", None),
        ("a/b.exe", Some(Package::Exe)),
        ("a.zip/b", None),
        ("/b.zip", zip),
        ("a//b.7z", seven),
        ("./b.7z", seven),
        ("b.exe/", Some(Package::Exe)),
        ("b.exe/.", Some(Package::Exe)),
        ("b.exe/.//", Some(Package::Exe)),
        ("b.exe/..", None),
        ("a/.exe", None),
        ("./", None),
        ("/", None),
    ] {
        assert_eq!(file_kind(name), kind, "{}", name);
    }
    assert_eq!(package_kind("exe"), Some(Package::Exe));
    assert_eq!(package_kind("EXE"), None);
    assert_eq!(extension_kind(Some("EXE".to_string())), Some(Package::Exe));
    assert_eq!(extension_kind(None), None);
}

#[test]
fn longer_searches_find_less() {
    let r = release(Some("Super Mario 64"), "sm64", Some("Jump"), &[]);
    let query = "super mario";
    assert!(Vault64App::matches_release(&r, query));
    for from in 0..query.len() {
        for to in from..query.len() {
            assert!(Vault64App::matches_release(&r, &query[from..to]));
        }
    }
}
