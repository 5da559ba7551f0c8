use owl_recorder::games::{
    find_unsupported_game, matches_folded, ug, unsupported_games, ENOUGH_DATA_REASON,
};

#[test]
fn folded_base_name_matching() {
    assert!(matches_folded("cs2.exe", "cs2"));
    assert!(matches_folded("CS2.EXE", "cs2"));
    assert!(matches_folded("cs2", "cs2"));
    assert!(!matches_folded("cs2.exe", "cs"));
    assert!(!matches_folded("cstrike.exe", "cs2"));
    // Only the part before the first dot counts.
    assert!(matches_folded("tf_win64.exe.bak", "tf_win64"));
    // Matching is exact, not substring.
    assert!(!matches_folded("mycs2.exe", "cs2"));
}

#[test]
fn table_lookup_finds_first_match() {
    let games = unsupported_games();
    assert_eq!(games.len(), 13);
    let hit = find_unsupported_game(&games, "cs2.exe");
    assert_eq!(hit, Some(3));
    assert_eq!(games[3].name, "Counter-Strike 2");
    assert_eq!(games[3].reason, ENOUGH_DATA_REASON);
    assert_eq!(games[3].reason, "We have enough data for now.");
}

#[test]
fn table_lookup_matches_any_binary_of_entry() {
    let games = unsupported_games();
    assert_eq!(find_unsupported_game(&games, "tf.exe"), Some(6));
    assert_eq!(find_unsupported_game(&games, "TF_WIN64.exe"), Some(6));
    assert_eq!(find_unsupported_game(&games, "RobloxPlayerBeta.exe"), Some(11));
    assert_eq!(games[11].reason, "Recorded footage is all-black.");
}

#[test]
fn table_lookup_misses_supported_games() {
    let games = unsupported_games();
    assert_eq!(find_unsupported_game(&games, "doom.exe"), None);
    assert_eq!(find_unsupported_game(&games, "cs2launcher.exe"), None);
}

#[test]
fn entry_builder_keeps_fields() {
    let mut bins = Vec::new();
    bins.push("demo".to_string());
    let g = ug("Demo", bins, "testing");
    assert_eq!(g.name, "Demo");
    assert_eq!(g.binaries, vec!["demo".to_string()]);
    assert_eq!(g.reason, "testing");
}
