use vault64::launcher::Vault64App;

#[test]
fn unsafe_characters_become_underscores() {
    assert_eq!(Vault64App::safe_name("Super Mario 64!"), "Super Mario 64_");
    assert_eq!(Vault64App::safe_name("a/b\\c:d*e"), "a_b_c_d_e");
    assert_eq!(Vault64App::safe_name("Pokémon-Gold_1"), "Pok_mon-Gold_1");
    assert_eq!(Vault64App::safe_name("..\\..\\x"), "______x");
    assert_eq!(Vault64App::safe_name(""), "");
}

#[test]
fn folder_names_are_kept() {
    for name in ["Super Mario 64", "a-b_c D9", "Doom (1993)"] {
        let once = Vault64App::safe_name(name);
        assert_eq!(Vault64App::safe_name(&once), once);
        assert_eq!(once.chars().count(), name.chars().count());
    }
}

#[test]
fn folder_names_are_one_component() {
    for name in ["../../etc", "C:\\Windows", "a.b", "x/y"] {
        let safe = Vault64App::safe_name(name);
        assert!(!safe.contains(['/', '\\', '.', ':']));
    }
}

#[test]
fn hues_come_from_the_bytes_of_the_name() {
    for name in ["", "a", "Super Mario 64", "Pokémon", "ゼルダの伝説", "zzzzzzzzzzzzzzzzzzzzzzzzzzzz"] {
        let mut hash: u32 = 0;
        for b in name.bytes() {
            hash = hash.wrapping_mul(31).wrapping_add(b as u32);
        }
        assert_eq!(Vault64App::hash_hue(name), hash % 360, "{}", name);
    }
    assert_eq!(Vault64App::hash_hue("a"), 97);
    assert_eq!(Vault64App::hash_hue("ab"), (97 * 31 + 98) % 360);
}
