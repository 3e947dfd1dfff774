use listening_report::recording::Recording;
use listening_report::rules::{
    any_matches, find_remap, resolve, BadData, BadDataMatcher, ResolvedIdentity,
};

fn track(artist: &str, release: &str, name: &str, mbid: Option<&str>) -> Recording {
    Recording {
        artist_name: artist.to_string(),
        release_name: release.to_string(),
        track_name: name.to_string(),
        recording_mbid: mbid.map(|id| id.to_string()),
        listen_count: 1,
    }
}

fn pattern(artist: Option<&str>, release: Option<&str>, name: Option<&str>) -> BadDataMatcher {
    BadDataMatcher {
        artist_name: artist.map(|s| s.to_string()),
        release_name: release.map(|s| s.to_string()),
        track_name: name.map(|s| s.to_string()),
    }
}

fn remap(matcher: BadDataMatcher, mbid: Option<&str>) -> BadData {
    BadData { match_with: matcher, recording_mbid: mbid.map(|id| id.to_string()) }
}

#[test]
fn matcher_without_fields_accepts_every_recording() {
    let any = pattern(None, None, None);
    assert!(any.matches(&track("Boards of Canada", "Geogaddi", "1969", None)));
    assert!(any.matches(&track("", "", "", Some("x"))));
}

#[test]
fn matcher_compares_each_present_field() {
    let recording = track("Autechre", "Amber", "Foil", None);
    assert!(pattern(Some("Autechre"), None, None).matches(&recording));
    assert!(pattern(None, Some("Amber"), None).matches(&recording));
    assert!(pattern(None, None, Some("Foil")).matches(&recording));
    assert!(pattern(Some("Autechre"), Some("Amber"), Some("Foil")).matches(&recording));
    assert!(!pattern(Some("Aphex Twin"), None, None).matches(&recording));
    assert!(!pattern(None, Some("Incunabula"), None).matches(&recording));
    assert!(!pattern(None, None, Some("Glitch")).matches(&recording));
}

#[test]
fn matcher_needs_all_present_fields_to_agree() {
    let recording = track("Autechre", "Amber", "Foil", None);
    assert!(!pattern(Some("Autechre"), Some("Amber"), Some("Glitch")).matches(&recording));
    assert!(!pattern(Some("Autechre"), Some("Tri Repetae"), Some("Foil")).matches(&recording));
    assert!(!pattern(Some("Plaid"), Some("Amber"), Some("Foil")).matches(&recording));
}

#[test]
fn matcher_is_case_sensitive_and_exact() {
    let recording = track("Autechre", "Amber", "Foil", None);
    assert!(!pattern(Some("autechre"), None, None).matches(&recording));
    assert!(!pattern(Some("Autechre "), None, None).matches(&recording));
    assert!(!pattern(Some("Autech"), None, None).matches(&recording));
    assert!(!pattern(None, None, Some("")).matches(&recording));
}

#[test]
fn matcher_ignores_identifier_and_listen_count() {
    let only_artist = pattern(Some("Autechre"), None, None);
    let mut recording = track("Autechre", "Amber", "Foil", Some("abc"));
    recording.listen_count = 77;
    assert!(only_artist.matches(&recording));
}

#[test]
fn any_matches_looks_at_every_pattern() {
    let recording = track("Autechre", "Amber", "Foil", None);
    let none: Vec<BadDataMatcher> = vec![];
    assert!(!any_matches(&none, &recording));
    let misses = vec![pattern(Some("Plaid"), None, None), pattern(None, None, Some("Eyen"))];
    assert!(!any_matches(&misses, &recording));
    let last_hits = vec![pattern(Some("Plaid"), None, None), pattern(None, None, Some("Foil"))];
    assert!(any_matches(&last_hits, &recording));
}

#[test]
fn find_remap_gives_the_earliest_accepting_rule() {
    let recording = track("Autechre", "Amber", "Foil", None);
    let rules = vec![
        remap(pattern(Some("Plaid"), None, None), Some("p")),
        remap(pattern(None, Some("Amber"), None), Some("first")),
        remap(pattern(Some("Autechre"), None, None), Some("second")),
    ];
    assert_eq!(find_remap(&rules, &recording), Some(1));
    let none: Vec<BadData> = vec![];
    assert_eq!(find_remap(&none, &recording), None);
    assert_eq!(find_remap(&rules[..1], &recording), None);
}

#[test]
fn resolve_skips_whatever_else_is_known() {
    let skip = vec![pattern(Some("Autechre"), None, None)];
    let remaps = vec![remap(pattern(None, None, None), Some("from-remap"))];
    let none: Vec<BadData> = vec![];
    let with_id = track("Autechre", "Amber", "Foil", Some("own-id"));
    let without_id = track("Autechre", "Amber", "Foil", None);
    assert_eq!(resolve(&with_id, &skip, &remaps), ResolvedIdentity::Skip);
    assert_eq!(resolve(&with_id, &skip, &none), ResolvedIdentity::Skip);
    assert_eq!(resolve(&without_id, &skip, &remaps), ResolvedIdentity::Skip);
    assert_eq!(resolve(&without_id, &skip, &none), ResolvedIdentity::Skip);
}

#[test]
fn resolve_prefers_the_recordings_own_identifier() {
    let skip = vec![pattern(Some("Plaid"), None, None)];
    let recording = track("Autechre", "Amber", "Foil", Some("own-id"));
    let none: Vec<BadData> = vec![];
    let accepting = vec![remap(pattern(None, None, None), Some("from-remap"))];
    let absent = vec![remap(pattern(None, None, None), None)];
    let own = ResolvedIdentity::Id("own-id".to_string());
    assert_eq!(resolve(&recording, &skip, &none), own);
    assert_eq!(resolve(&recording, &skip, &accepting), own);
    assert_eq!(resolve(&recording, &skip, &absent), own);
}

#[test]
fn resolve_takes_the_first_of_two_accepting_remaps() {
    let skip: Vec<BadDataMatcher> = vec![];
    let recording = track("Autechre", "Amber", "Foil", None);
    let rules = vec![
        remap(pattern(Some("Plaid"), None, None), Some("unrelated")),
        remap(pattern(Some("Autechre"), None, None), Some("first")),
        remap(pattern(Some("Autechre"), Some("Amber"), Some("Foil")), Some("second")),
    ];
    assert_eq!(resolve(&recording, &skip, &rules), ResolvedIdentity::Id("first".to_string()));
    let swapped = vec![
        remap(pattern(Some("Autechre"), Some("Amber"), Some("Foil")), Some("second")),
        remap(pattern(Some("Autechre"), None, None), Some("first")),
    ];
    assert_eq!(resolve(&recording, &skip, &swapped), ResolvedIdentity::Id("second".to_string()));
}

#[test]
fn resolve_stops_at_a_first_remap_without_replacement() {
    let skip: Vec<BadDataMatcher> = vec![];
    let recording = track("Autechre", "Amber", "Foil", None);
    let rules = vec![
        remap(pattern(Some("Autechre"), None, None), None),
        remap(pattern(None, Some("Amber"), None), Some("later")),
    ];
    assert_eq!(resolve(&recording, &skip, &rules), ResolvedIdentity::Unresolvable);
}

#[test]
fn resolve_without_identifier_or_remap_is_unresolvable() {
    let skip: Vec<BadDataMatcher> = vec![];
    let recording = track("Autechre", "Amber", "Foil", None);
    let none: Vec<BadData> = vec![];
    assert_eq!(resolve(&recording, &skip, &none), ResolvedIdentity::Unresolvable);
    let misses = vec![remap(pattern(Some("Plaid"), None, None), Some("p"))];
    assert_eq!(resolve(&recording, &skip, &misses), ResolvedIdentity::Unresolvable);
}

#[test]
fn resolve_accepts_an_empty_identifier_as_present() {
    let skip: Vec<BadDataMatcher> = vec![];
    let none: Vec<BadData> = vec![];
    let recording = track("Autechre", "Amber", "Foil", Some(""));
    assert_eq!(resolve(&recording, &skip, &none), ResolvedIdentity::Id(String::new()));
}

#[test]
fn resolve_leaves_its_arguments_as_they_were() {
    let skip = vec![pattern(Some("Plaid"), None, None)];
    let rules = vec![remap(pattern(Some("Autechre"), None, None), Some("first"))];
    let recording = track("Autechre", "Amber", "Foil", None);
    let before = (recording.clone(), skip.clone(), rules.clone());
    let once = resolve(&recording, &skip, &rules);
    let twice = resolve(&recording, &skip, &rules);
    assert_eq!(once, twice);
    assert_eq!((recording, skip, rules), before);
}
