use vault64::account::UserDatabase;
use vault64::config::{AppConfig, AppTheme};

fn with_games(games: &[&str]) -> AppConfig {
    AppConfig {
        remembered_username: None,
        library: games.iter().map(|g| g.to_string()).collect(),
        theme: AppTheme::Dark,
    }
}

#[test]
fn only_the_guest_may_sign_in() {
    assert!(UserDatabase::verify("guest", "1234"));
    assert!(!UserDatabase::verify("guest", "12345"));
    assert!(!UserDatabase::verify("guest", ""));
    assert!(!UserDatabase::verify("Guest", "1234"));
    assert!(!UserDatabase::verify("1234", "guest"));
    assert!(!UserDatabase::verify("", ""));
}

#[test]
fn first_run_settings() {
    let config = AppConfig::default();
    assert_eq!(config.remembered_username, None);
    assert!(config.library.is_empty());
    assert_eq!(config.theme, AppTheme::Dark);
    assert_eq!(AppTheme::default(), AppTheme::Dark);
}

#[test]
fn added_games_are_listed_once_at_the_end() {
    let mut config = with_games(&["Alpha"]);
    assert!(config.add_to_library("Beta"));
    assert_eq!(config.library, vec!["Alpha", "Beta"]);
    assert!(!config.add_to_library("Alpha"));
    assert_eq!(config.library, vec!["Alpha", "Beta"]);
    assert!(config.in_library("Beta"));
    assert!(!config.in_library("beta"));
}

#[test]
fn removed_games_are_gone() {
    let mut config = with_games(&["A", "B", "A", "C"]);
    config.remove_from_library("A");
    assert_eq!(config.library, vec!["B", "C"]);
    assert!(!config.in_library("A"));
    config.remove_from_library("Z");
    assert_eq!(config.library, vec!["B", "C"]);
}

#[test]
fn removal_undoes_addition() {
    let mut config = with_games(&["A", "B"]);
    assert!(config.add_to_library("C"));
    config.remove_from_library("C");
    assert_eq!(config.library, vec!["A", "B"]);
}
