use fuzzy_matcher::skim::SkimMatcherV2;
use fuzzy_matcher::FuzzyMatcher;
use launcher_core::matcher::{DEFAULT_BONUS, MAX_BONUS};
use launcher_core::{search_key, Matcher, RankedResult, SearchResult, ShardCache};

fn bin(path: &str) -> SearchResult {
    SearchResult::from_bin(path).unwrap()
}

fn app(path: &str, name: &str) -> SearchResult {
    let mut text = String::from("[Desktop Entry]\nName=");
    text.push_str(name);
    text.push_str("\nComment=An application\nIcon=app\nExec=run\n");
    SearchResult::from_desktop(path, Some(&text)).unwrap()
}

fn one_shard(entries: Vec<SearchResult>) -> Vec<ShardCache> {
    let mut cache = ShardCache::new();
    for entry in entries {
        cache.append(entry);
    }
    vec![cache]
}

fn names(out: &[RankedResult]) -> Vec<String> {
    out.iter().map(|r| r.entry().name().to_string()).collect()
}

fn skim(choice: &str, pattern: &str) -> Option<(i64, Vec<usize>)> {
    SkimMatcherV2::default().fuzzy_indices(choice, pattern)
}

#[test]
fn search_key_of_a_bare_executable_is_its_name() {
    assert_eq!(search_key(&bin("/usr/bin/firefox-bin")), "firefox-bin");
}

#[test]
fn search_key_of_a_descriptor_adds_the_file_stem() {
    assert_eq!(search_key(&app("/apps/org.mozilla.firefox.desktop", "Firefox")), "Firefox org.mozilla.firefox");
    assert_eq!(search_key(&app("app.desktop", "Web Browser")), "Web Browser app");
}

#[test]
fn empty_query_gives_no_results() {
    let caches = one_shard(vec![bin("/usr/bin/firefox"), app("/apps/app.desktop", "Firefox")]);
    assert!(Matcher::new().evaluate(&caches, "").is_empty());
}

#[test]
fn no_caches_give_no_results() {
    assert!(Matcher::new().evaluate(&Vec::new(), "fire").is_empty());
    assert!(Matcher::new().evaluate(&vec![ShardCache::new()], "fire").is_empty());
}

#[test]
fn entries_that_do_not_match_are_left_out() {
    let caches = one_shard(vec![bin("/usr/bin/ls"), bin("/usr/bin/firefox"), bin("/usr/bin/cat")]);
    let out = Matcher::new().evaluate(&caches, "fire");
    assert_eq!(names(&out), vec!["firefox"]);
    assert_eq!(out[0].shard(), 0);
    assert_eq!(out[0].slot(), 1);
    assert!(Matcher::new().evaluate(&caches, "zzz").is_empty());
}

#[test]
fn scores_and_positions_are_those_of_the_fuzzy_matcher() {
    let caches = one_shard(vec![bin("/usr/bin/firefox-bin"), app("/apps/app.desktop", "Firefox")]);
    let out = Matcher::new().evaluate(&caches, "fire");
    assert_eq!(out.len(), 2);

    let (raw, indices) = skim("Firefox app", "fire").unwrap();
    assert_eq!(out[0].entry().name(), "Firefox");
    assert_eq!(out[0].raw_score(), raw);
    assert_eq!(out[0].score(), raw + 1000);
    assert_eq!(out[0].indices(), &indices);
    assert_eq!(indices, vec![0, 1, 2, 3]);

    let (raw, indices) = skim("firefox-bin", "fire").unwrap();
    assert_eq!(out[1].entry().name(), "firefox-bin");
    assert_eq!(out[1].raw_score(), raw);
    assert_eq!(out[1].score(), raw);
    assert_eq!(out[1].indices(), &indices);
}

#[test]
fn descriptor_and_path_binary_both_match_with_the_descriptor_first() {
    let descriptor = "[Desktop Entry]\nName=Firefox\nComment=Web browser\nExec=firefox\nIcon=firefox\n";
    let mut cache = ShardCache::new();
    cache.append(SearchResult::try_from("/usr/bin/firefox-bin", None).unwrap());
    cache.append(SearchResult::try_from("app.desktop", Some(descriptor)).unwrap());
    let out = Matcher::new().evaluate(&vec![cache], "fire");
    assert_eq!(names(&out), vec!["Firefox", "firefox-bin"]);
    assert_eq!(out[0].entry().command(), "firefox");
    assert_eq!(out[1].entry().command(), "/usr/bin/firefox-bin");
}

#[test]
fn descriptor_as_given_without_a_comment_is_dropped() {
    let descriptor = "[Desktop Entry]\nName=Firefox\nExec=firefox\nIcon=firefox\n";
    assert!(SearchResult::try_from("app.desktop", Some(descriptor)).is_err());
}

#[test]
fn equal_raw_scores_rank_the_descriptor_strictly_ahead() {
    let caches = one_shard(vec![bin("/usr/bin/firefox"), app("/apps/zz.desktop", "firefox")]);
    let out = Matcher::new().evaluate(&caches, "firefox");
    assert_eq!(out.len(), 2);
    assert_eq!(out[0].raw_score(), out[1].raw_score());
    assert!(out[0].entry().desktop_entry_path().is_some());
    assert!(out[1].entry().desktop_entry_path().is_none());
    assert_eq!(out[0].score(), out[1].score() + DEFAULT_BONUS);
    assert!(out[0].precedes(&out[1]));
    assert!(!out[1].precedes(&out[0]));
}

#[test]
fn ranked_result_is_built_from_the_match() {
    let matcher = Matcher::new();
    let entry = app("/apps/app.desktop", "Firefox");
    let hit = matcher.rank_entry(&entry, 2, 5, Some((40, vec![0, 3]))).unwrap();
    assert_eq!(hit.entry(), &entry);
    assert_eq!(hit.raw_score(), 40);
    assert_eq!(hit.score(), 1040);
    assert_eq!(hit.indices(), &vec![0, 3]);
    assert_eq!(hit.shard(), 2);
    assert_eq!(hit.slot(), 5);

    let entry = bin("/usr/bin/firefox");
    let hit = matcher.rank_entry(&entry, 0, 0, Some((-7, vec![]))).unwrap();
    assert_eq!(hit.raw_score(), -7);
    assert_eq!(hit.score(), -7);
    assert!(matcher.rank_entry(&entry, 0, 0, None).is_none());
}

#[test]
fn ranking_order_is_score_then_raw_score_then_insertion() {
    let matcher = Matcher::new();
    let desktop = app("/apps/app.desktop", "Firefox");
    let plain = bin("/usr/bin/firefox");
    let rank = |entry: &SearchResult, shard: usize, slot: usize, raw: i64| {
        matcher.rank_entry(entry, shard, slot, Some((raw, Vec::new()))).unwrap()
    };
    // A higher score comes first.
    assert!(rank(&plain, 0, 9, 60).precedes(&rank(&plain, 0, 0, 50)));
    assert!(!rank(&plain, 0, 0, 50).precedes(&rank(&plain, 0, 9, 60)));
    // Equal raw scores: the descriptor is ahead.
    assert!(rank(&desktop, 3, 3, 50).precedes(&rank(&plain, 0, 0, 50)));
    // Equal scores: the higher raw score is ahead.
    assert!(rank(&plain, 3, 3, 1050).precedes(&rank(&desktop, 0, 0, 50)));
    assert!(!rank(&desktop, 0, 0, 50).precedes(&rank(&plain, 3, 3, 1050)));
    // All equal: the earlier shard, then the earlier slot.
    assert!(rank(&plain, 0, 7, 50).precedes(&rank(&plain, 1, 0, 50)));
    assert!(rank(&plain, 1, 0, 50).precedes(&rank(&plain, 1, 1, 50)));
    assert!(!rank(&plain, 1, 1, 50).precedes(&rank(&plain, 1, 1, 50)));
}

#[test]
fn ties_keep_the_order_of_insertion() {
    let mut first = ShardCache::new();
    first.append(bin("/usr/bin/firefox"));
    first.append(bin("/usr/local/bin/firefox"));
    let mut second = ShardCache::new();
    second.append(bin("/opt/firefox/firefox"));
    let out = Matcher::new().evaluate(&vec![first, second], "firefox");
    let commands: Vec<&str> = out.iter().map(|r| r.entry().command()).collect();
    assert_eq!(
        commands,
        vec!["/usr/bin/firefox", "/usr/local/bin/firefox", "/opt/firefox/firefox"]
    );
    let places: Vec<(usize, usize)> = out.iter().map(|r| (r.shard(), r.slot())).collect();
    assert_eq!(places, vec![(0, 0), (0, 1), (1, 0)]);
}

#[test]
fn results_come_best_first_across_shards() {
    let mut first = ShardCache::new();
    first.append(bin("/usr/bin/xfire"));
    first.append(bin("/usr/bin/ls"));
    first.append(app("/apps/fm.desktop", "File Manager"));
    let mut second = ShardCache::new();
    second.append(bin("/usr/bin/firefox"));
    second.append(app("/apps/firefox.desktop", "Firefox"));
    let caches = vec![first, second];
    let out = Matcher::new().evaluate(&caches, "fi");
    assert_eq!(out.len(), 4);
    for pair in out.windows(2) {
        assert!(pair[0].precedes(&pair[1]));
        assert!(pair[0].score() >= pair[1].score());
    }
    for result in &out {
        let entry = caches[result.shard()].get(result.slot()).unwrap();
        assert_eq!(result.entry(), entry);
        let (raw, indices) = skim(&search_key(entry), "fi").unwrap();
        assert_eq!(result.raw_score(), raw);
        assert_eq!(result.indices(), &indices);
        let bonus = if entry.desktop_entry_path().is_some() { 1000 } else { 0 };
        assert_eq!(result.score(), raw + bonus);
    }
    assert!(out[0].entry().desktop_entry_path().is_some());
    assert!(out[1].entry().desktop_entry_path().is_some());
}

#[test]
fn evaluating_twice_gives_the_same_output() {
    let caches = one_shard(vec![
        bin("/usr/bin/firefox"),
        app("/apps/firefox.desktop", "Firefox"),
        bin("/usr/bin/fish"),
        app("/apps/files.desktop", "Files"),
    ]);
    let matcher = Matcher::new();
    let first = matcher.evaluate(&caches, "fi");
    let second = matcher.evaluate(&caches, "fi");
    assert_eq!(first.len(), 4);
    assert_eq!(first, second);
}

#[test]
fn same_query_sees_more_once_the_cache_has_grown() {
    let mut cache = ShardCache::new();
    cache.append(bin("/usr/bin/firefox"));
    let mut caches = vec![cache];
    let matcher = Matcher::new();
    assert_eq!(matcher.evaluate(&caches, "fire").len(), 1);
    caches[0].append(app("/apps/firefox.desktop", "Firefox"));
    assert_eq!(names(&matcher.evaluate(&caches, "fire")), vec!["Firefox", "firefox"]);
}

#[test]
fn matching_does_not_change_the_cache() {
    let caches = one_shard(vec![bin("/usr/bin/firefox"), app("/apps/firefox.desktop", "Firefox")]);
    let before: Vec<SearchResult> = (0..2).map(|i| caches[0].get(i).unwrap().clone()).collect();
    let _ = Matcher::new().evaluate(&caches, "fire");
    assert_eq!(caches[0].len(), 2);
    assert_eq!(caches[0].get(0).unwrap(), &before[0]);
    assert_eq!(caches[0].get(1).unwrap(), &before[1]);
}

#[test]
fn unresolved_icon_does_not_keep_an_entry_from_matching() {
    let entry = app("/apps/firefox.desktop", "Firefox").with_icon(None);
    let out = Matcher::new().evaluate(&one_shard(vec![entry]), "fire");
    assert_eq!(out.len(), 1);
    assert_eq!(out[0].entry().icon_name(), "app");
    assert_eq!(out[0].entry().icon_path(), None);
}

#[test]
fn bonus_can_be_chosen_within_its_bounds() {
    assert_eq!(Matcher::new().descriptor_bonus(), 1000);
    assert_eq!(Matcher::default().descriptor_bonus(), DEFAULT_BONUS);
    assert_eq!(Matcher::with_bonus(5).unwrap().descriptor_bonus(), 5);
    assert_eq!(Matcher::with_bonus(MAX_BONUS).unwrap().descriptor_bonus(), MAX_BONUS);
    assert_eq!(MAX_BONUS, i64::MAX - i64::from(i32::MAX));
    assert!(Matcher::with_bonus(0).is_none());
    assert!(Matcher::with_bonus(-1).is_none());
    assert!(Matcher::with_bonus(MAX_BONUS + 1).is_none());
    assert!(Matcher::with_bonus(i64::MAX).is_none());
}

#[test]
fn chosen_bonus_is_the_one_added() {
    let caches = one_shard(vec![bin("/usr/bin/firefox"), app("/apps/zz.desktop", "firefox")]);
    let out = Matcher::with_bonus(1).unwrap().evaluate(&caches, "firefox");
    assert_eq!(out[0].score(), out[0].raw_score() + 1);
    assert!(out[0].entry().desktop_entry_path().is_some());
    assert_eq!(out[1].score(), out[1].raw_score());

    let entry = app("/apps/app.desktop", "Firefox");
    let hit = Matcher::with_bonus(MAX_BONUS)
        .unwrap()
        .rank_entry(&entry, 0, 0, Some((i64::from(i32::MAX), Vec::new())))
        .unwrap();
    assert_eq!(hit.score(), i64::MAX);
}

#[test]
fn key_joins_name_and_stem_with_a_space() {
    assert_eq!(launcher_core::join_key("Firefox", Some("app")), "Firefox app");
    assert_eq!(launcher_core::join_key("Firefox", Some("")), "Firefox ");
    assert_eq!(launcher_core::join_key("Firefox", None), "Firefox");
    assert_eq!(launcher_core::join_key("", Some("app")), " app");
}
