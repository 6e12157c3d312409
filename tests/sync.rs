use std::path::PathBuf;

use so::{
    channels_from_remote, diff_channels, reconcile, ChannelName, Config, NameMap, PageStep, Pager,
    RemoteChannel, SlackOpener, PAGE_LIMIT,
};

fn remote(name: &str, id: &str, members: Option<u64>) -> RemoteChannel {
    RemoteChannel { name: name.to_string(), id: id.to_string(), member_count: members }
}

fn map(pairs: &[(&str, &str)]) -> NameMap {
    NameMap::from_pairs(pairs.iter().map(|(k, v)| (k.to_string(), v.to_string())).collect())
}

fn texts(v: &[ChannelName]) -> Vec<String> {
    v.iter().map(|n| n.to_text()).collect()
}

fn entries(m: &NameMap) -> Vec<(String, String)> {
    (0..m.len()).map(|i| (m.name_at(i).to_text(), m.value_at(i).clone())).collect()
}

fn pairs(p: &[(&str, &str)]) -> Vec<(String, String)> {
    p.iter().map(|(k, v)| (k.to_string(), v.to_string())).collect()
}

#[test]
fn example_diff() {
    let current = Config::new("T1".to_string(), None, map(&[("a", "1"), ("b", "2")]));
    let listing = vec![remote("c", "3", Some(4)), remote("b", "2", Some(1))];
    let (next, diff) = reconcile(&current, &listing);
    assert_eq!(texts(&diff.added), vec!["c"]);
    assert_eq!(texts(&diff.removed), vec!["a"]);
    assert_eq!(entries(&next.channels), pairs(&[("b", "2"), ("c", "3")]));
    assert_eq!(next.team_id, "T1");
}

#[test]
fn update_config_keeps_team_and_aliases() {
    let current = Config::new(
        "T9".to_string(),
        Some(map(&[("gen", "general")])),
        map(&[("a", "1"), ("b", "2")]),
    );
    let opener = SlackOpener::new(PathBuf::from("config.toml"), current);
    let (next, diff) = opener.update_config(map(&[("b", "2"), ("c", "3")]));
    assert_eq!(next.team_id, "T9");
    assert_eq!(entries(next.aliases.as_ref().unwrap()), pairs(&[("gen", "general")]));
    assert_eq!(entries(&next.channels), pairs(&[("b", "2"), ("c", "3")]));
    assert_eq!(texts(&diff.added), vec!["c"]);
    assert_eq!(texts(&diff.removed), vec!["a"]);
}

#[test]
fn zero_member_channels_are_dropped() {
    let listing = vec![
        remote("empty", "E", Some(0)),
        remote("unknown", "U", None),
        remote("busy", "B", Some(12)),
    ];
    let m = channels_from_remote(&listing);
    assert_eq!(entries(&m), pairs(&[("busy", "B"), ("unknown", "U")]));
}

#[test]
fn later_duplicate_wins() {
    let listing = vec![remote("x", "1", Some(3)), remote("x", "2", Some(3)), remote("x", "3", Some(0))];
    let m = channels_from_remote(&listing);
    assert_eq!(entries(&m), pairs(&[("x", "2")]));
}

#[test]
fn diff_lists_are_sorted() {
    let current = map(&[("m", "1"), ("d", "2"), ("a", "3")]);
    let next = map(&[("z", "4"), ("b", "5"), ("m", "1")]);
    let diff = diff_channels(&current, &next);
    assert_eq!(texts(&diff.added), vec!["b", "z"]);
    assert_eq!(texts(&diff.removed), vec!["a", "d"]);
}

#[test]
fn reconcile_twice_is_stable() {
    let current = Config::new("T1".to_string(), None, map(&[("a", "1")]));
    let listing = vec![remote("b", "2", None), remote("c", "3", Some(2)), remote("d", "4", Some(0))];
    let (first, _) = reconcile(&current, &listing);
    let (second, diff) = reconcile(&first, &listing);
    assert_eq!(entries(&first.channels), entries(&second.channels));
    assert_eq!(first.team_id, second.team_id);
    assert!(diff.added.is_empty());
    assert!(diff.removed.is_empty());
}

#[test]
fn pager_runs_until_empty_cursor() {
    let mut pager = Pager::new();
    let first = pager.request();
    assert!(first.exclude_archived && first.include_public && first.include_private);
    assert_eq!(first.limit, PAGE_LIMIT);
    assert_eq!(first.limit, 1000);
    assert_eq!(first.cursor, None);
    let step = pager.accept_page(vec![remote("a", "1", None)], Some("c1".to_string()));
    assert_eq!(step, PageStep::Continue);
    assert_eq!(pager.request().cursor, Some("c1".to_string()));
    let step = pager.accept_page(vec![remote("b", "2", None)], Some("c2".to_string()));
    assert_eq!(step, PageStep::Continue);
    let step = pager.accept_page(vec![remote("c", "3", None)], Some(String::new()));
    assert_eq!(step, PageStep::Finished);
    let names: Vec<String> = pager.into_fetched().into_iter().map(|c| c.name).collect();
    assert_eq!(names, vec!["a", "b", "c"]);
}

#[test]
fn pager_finishes_without_cursor() {
    let mut pager = Pager::new();
    assert_eq!(pager.accept_page(vec![], None), PageStep::Finished);
    assert_eq!(pager.request().cursor, None);
}

#[test]
fn pager_stops_on_repeated_cursor() {
    let mut pager = Pager::new();
    assert_eq!(pager.accept_page(vec![], Some("c1".to_string())), PageStep::Continue);
    assert_eq!(pager.accept_page(vec![], Some("c2".to_string())), PageStep::Continue);
    assert_eq!(pager.accept_page(vec![], Some("c1".to_string())), PageStep::RepeatedCursor);
    assert_eq!(pager.request().cursor, Some("c2".to_string()));
}

#[test]
fn pager_stops_at_page_limit() {
    let mut pager = Pager::with_max_pages(2);
    assert_eq!(pager.accept_page(vec![remote("a", "1", None)], Some("c1".to_string())), PageStep::Continue);
    assert_eq!(
        pager.accept_page(vec![remote("b", "2", None)], Some("c2".to_string())),
        PageStep::PageLimitReached
    );
    assert_eq!(pager.request().cursor, Some("c1".to_string()));
    assert_eq!(pager.fetched_len(), 2);
}

#[test]
fn pager_limit_does_not_hide_the_last_page() {
    let mut pager = Pager::with_max_pages(1);
    assert_eq!(pager.accept_page(vec![remote("a", "1", None)], None), PageStep::Finished);
    assert_eq!(pager.fetched_len(), 1);
}
