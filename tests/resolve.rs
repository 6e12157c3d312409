use std::path::PathBuf;

use so::{chosen_channel, ChannelName, Config, NameMap, SlackOpener};

fn map(pairs: &[(&str, &str)]) -> NameMap {
    NameMap::from_pairs(pairs.iter().map(|(k, v)| (k.to_string(), v.to_string())).collect())
}

fn opener(aliases: Option<&[(&str, &str)]>, channels: &[(&str, &str)]) -> SlackOpener {
    let config = Config::new("T1".to_string(), aliases.map(map), map(channels));
    SlackOpener::new(PathBuf::from("config.toml"), config)
}

fn label(s: &str) -> ChannelName {
    ChannelName::from_text(s)
}

#[test]
fn example_directory_resolution() {
    let o = opener(Some(&[("gen", "general")]), &[("general", "C1"), ("random", "C2")]);
    assert_eq!(o.get_channel_id(&label("gen")), Some("C1".to_string()));
    assert_eq!(o.get_channel_id(&label("random")), Some("C2".to_string()));
    assert_eq!(o.get_channel_id(&label("missing")), None);
}

#[test]
fn alias_shadows_canonical_name() {
    let o = opener(Some(&[("general", "random")]), &[("general", "C1"), ("random", "C2")]);
    assert_eq!(o.get_channel_id(&label("general")), Some("C2".to_string()));
    assert_eq!(o.get_channel_id_from_channel_name(&label("general")), Some("C1".to_string()));
    assert_eq!(o.get_channel_id_from_alias(&label("general")), Some("C2".to_string()));
}

#[test]
fn dangling_alias_falls_back_to_canonical_name() {
    let o = opener(Some(&[("general", "nowhere"), ("lost", "nowhere")]), &[("general", "C1")]);
    assert_eq!(o.get_channel_id(&label("general")), Some("C1".to_string()));
    assert_eq!(o.get_channel_id(&label("lost")), None);
    assert_eq!(o.get_channel_id_from_alias(&label("general")), None);
}

#[test]
fn aliases_are_not_chained() {
    let o = opener(Some(&[("a", "b"), ("b", "general")]), &[("general", "C1")]);
    assert_eq!(o.get_channel_id(&label("b")), Some("C1".to_string()));
    assert_eq!(o.get_channel_id(&label("a")), None);
}

#[test]
fn absent_aliases_act_as_empty() {
    let o = opener(None, &[("general", "C1")]);
    assert_eq!(o.get_channel_id(&label("general")), Some("C1".to_string()));
    assert_eq!(o.get_channel_id(&label("gen")), None);
    let e = opener(Some(&[]), &[("general", "C1")]);
    assert_eq!(e.get_channel_id(&label("gen")), None);
}

#[test]
fn lookup_is_case_sensitive() {
    let o = opener(None, &[("general", "C1")]);
    assert_eq!(o.get_channel_id(&label("General")), None);
}

#[test]
fn links_for_browser_and_app() {
    let o = opener(Some(&[("gen", "general")]), &[("general", "C1")]);
    assert_eq!(
        o.channel_link(&label("gen"), true),
        Some("https://app.slack.com/client/T1/C1".to_string())
    );
    assert_eq!(
        o.channel_link(&label("general"), false),
        Some("slack://channel?team=T1&id=C1".to_string())
    );
    assert_eq!(o.channel_link(&label("missing"), true), None);
}

#[test]
fn channel_names_are_sorted() {
    let o = opener(Some(&[("zz", "b")]), &[("b", "2"), ("a", "1"), ("C", "3")]);
    let names: Vec<String> = o.channel_names().iter().map(|n| n.to_text()).collect();
    assert_eq!(names, vec!["C", "a", "b"]);
}

#[test]
fn picker_outcomes() {
    let picked = vec![label("random"), label("general")];
    assert_eq!(chosen_channel(true, &picked), None);
    assert_eq!(chosen_channel(false, &vec![]), None);
    assert_eq!(chosen_channel(false, &picked), Some(label("random")));
}

#[test]
fn fish_completion_lists_channels() {
    let o = opener(None, &[("random", "C2"), ("general", "C1")]);
    let script = o.fish_completion();
    let expected = "# fish shell completions for so command\n\
complete -c so -f -n \"not __fish_seen_subcommand_from completion\"\n\
complete -c so -f -n \"not __fish_seen_subcommand_from completion\" -a edit -d \"Edit the configuration file with $EDITOR\"\n\
complete -c so -f -n \"not __fish_seen_subcommand_from completion\" -a update-channels -d \"command: Update the list of available channels in the configuration file\"\n\
complete -c so -f -n \"not __fish_seen_subcommand_from completion\" -a generate-completion -d \"command: Generate a shell completion script\"\n\
complete -c so -f -n \"not __fish_seen_subcommand_from completion\" -a \"general\" -d \"#general\"\n\
complete -c so -f -n \"not __fish_seen_subcommand_from completion\" -a \"random\" -d \"#random\"\n";
    assert_eq!(script, expected);
}
