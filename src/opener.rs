use vstd::prelude::*;

use std::path::PathBuf;

use crate::config::{alias_lookup, alias_map, channel_lookup, resolve, Config, DirectoryModel};
use crate::name::{names_of, ChannelId, ChannelName};
use crate::name_map::strictly_sorted;

verus! {

/// std's `PathBuf`, carried through unread as the location of the configuration.
#[verifier::external_type_specification]
#[verifier::external_body]
pub struct ExPathBuf(PathBuf);

/// The text of an optional string.
pub open spec fn text_of(r: Option<String>) -> Option<Seq<char>> {
    match r {
        Some(s) => Some(s@),
        None => None,
    }
}

/// The deep link that opens channel `id` of team `team`, in a browser or in the desktop app.
pub open spec fn link_text(team: Seq<char>, id: Seq<char>, browser: bool) -> Seq<char> {
    if browser {
        "https://app.slack.com/client/"@ + team + "/"@ + id
    } else {
        "slack://channel?team="@ + team + "&id="@ + id
    }
}

/// The fixed part of the fish completion script.
pub const FISH_HEADER: &'static str = "# fish shell completions for so command\n\
complete -c so -f -n \"not __fish_seen_subcommand_from completion\"\n\
complete -c so -f -n \"not __fish_seen_subcommand_from completion\" -a edit -d \"Edit the configuration file with $EDITOR\"\n\
complete -c so -f -n \"not __fish_seen_subcommand_from completion\" -a update-channels -d \"command: Update the list of available channels in the configuration file\"\n\
complete -c so -f -n \"not __fish_seen_subcommand_from completion\" -a generate-completion -d \"command: Generate a shell completion script\"\n";

/// How a channel's completion line starts.
pub const FISH_CHANNEL_PREFIX: &'static str = "complete -c so -f -n \"not __fish_seen_subcommand_from completion\" -a \"";

/// The completion line offering channel `name`.
pub open spec fn fish_channel_line(name: Seq<char>) -> Seq<char> {
    FISH_CHANNEL_PREFIX@ + name + "\" -d \"#"@ + name + "\"\n"@
}

/// The completion lines of `names`, in order.
pub open spec fn fish_channel_lines(names: Seq<Seq<char>>) -> Seq<char>
    decreases names.len(),
{
    if names.len() == 0 {
        Seq::empty()
    } else {
        fish_channel_lines(names.drop_last()) + fish_channel_line(names.last())
    }
}

/// Opens channels of one team, by label.
pub struct SlackOpener {
    /// Where the configuration lives.
    pub path: PathBuf,
    config: Config,
}

impl View for SlackOpener {
    type V = DirectoryModel;

    closed spec fn view(&self) -> DirectoryModel {
        self.config@
    }
}

impl SlackOpener {
    /// The configuration is well formed.
    pub closed spec fn wf(&self) -> bool {
        self.config.wf()
    }

    /// The canonical names, in order.
    pub closed spec fn sorted_names(&self) -> Seq<Seq<char>> {
        self.config.channels.names()
    }

    /// `sorted_names` is strictly sorted and holds exactly the canonical names.
    pub proof fn lemma_sorted_names(&self)
        requires
            self.wf(),
        ensures
            strictly_sorted(self.sorted_names()),
            forall|k: Seq<char>|
                self@.channels.contains_key(k) <==> #[trigger] self.sorted_names().contains(k),
    {
        self.config.channels.lemma_view();
    }

    /// An opener over a loaded configuration.
    pub fn new(path: PathBuf, config: Config) -> (r: SlackOpener)
        requires
            config.wf(),
        ensures
            r.wf(),
            r@ == config@,
    {
        SlackOpener { path, config }
    }

    /// The configuration.
    pub fn config(&self) -> (r: &Config)
        ensures
            r@ == self@,
            self.wf() ==> r.wf(),
    {
        &self.config
    }

    /// The identifier of the canonical name `name`.
    pub fn get_channel_id_from_channel_name(&self, name: &ChannelName) -> (r: Option<ChannelId>)
        requires
            self.wf(),
        ensures
            text_of(r) == channel_lookup(self@, name@),
    {
        self.config.channels.get(name)
    }

    /// The identifier reached through the alias `name`: its target looked up as a canonical name.
    pub fn get_channel_id_from_alias(&self, name: &ChannelName) -> (r: Option<ChannelId>)
        requires
            self.wf(),
        ensures
            text_of(r) == alias_lookup(self@, name@),
    {
        match &self.config.aliases {
            Some(aliases) => match aliases.get(name) {
                Some(target) => {
                    let target = ChannelName::new(target);
                    self.get_channel_id_from_channel_name(&target)
                },
                None => None,
            },
            None => None,
        }
    }

    /// Resolves a label: an alias whose target is a channel first, then a canonical name.
    pub fn get_channel_id(&self, name: &ChannelName) -> (r: Option<ChannelId>)
        requires
            self.wf(),
        ensures
            text_of(r) == resolve(self@, name@),
            alias_map(self@).contains_key(name@) && self@.channels.contains_key(
                alias_map(self@)[name@],
            ) ==> text_of(r) == Some(self@.channels[alias_map(self@)[name@]]),
            !alias_map(self@).contains_key(name@) && self@.channels.contains_key(name@)
                ==> text_of(r) == Some(self@.channels[name@]),
            !self@.channels.contains_key(name@) && !(alias_map(self@).contains_key(name@)
                && self@.channels.contains_key(alias_map(self@)[name@])) ==> r is None,
    {
        match self.get_channel_id_from_alias(name) {
            Some(id) => Some(id),
            None => self.get_channel_id_from_channel_name(name),
        }
    }

    /// The deep link for `name`, or `None` where the label resolves to nothing.
    pub fn channel_link(&self, name: &ChannelName, browser: bool) -> (r: Option<String>)
        requires
            self.wf(),
        ensures
            text_of(r) == match resolve(self@, name@) {
                Some(id) => Some(link_text(self@.team_id, id, browser)),
                None => None,
            },
    {
        match self.get_channel_id(name) {
            Some(id) => {
                let mut s = if browser {
                    String::from_str("https://app.slack.com/client/")
                } else {
                    String::from_str("slack://channel?team=")
                };
                s.append(self.config.team_id.as_str());
                if browser {
                    s.append("/");
                } else {
                    s.append("&id=");
                }
                s.append(id.as_str());
                Some(s)
            },
            None => None,
        }
    }

    /// The canonical names, in order: what the picker offers.
    pub fn channel_names(&self) -> (r: Vec<ChannelName>)
        requires
            self.wf(),
        ensures
            names_of(r@) == self.sorted_names(),
            strictly_sorted(names_of(r@)),
            forall|k: Seq<char>|
                self@.channels.contains_key(k) <==> #[trigger] names_of(r@).contains(k),
    {
        proof {
            self.config.channels.lemma_view();
        }
        self.config.channels.names_vec()
    }

    /// A fish completion script offering the subcommands and every canonical name, in order.
    pub fn fish_completion(&self) -> (r: String)
        requires
            self.wf(),
        ensures
            r@ == FISH_HEADER@ + fish_channel_lines(self.sorted_names()),
    {
        let names = self.channel_names();
        let mut s = String::from_str(FISH_HEADER);
        let mut i: usize = 0;
        while i < names.len()
            invariant
                i <= names@.len(),
                s@ == FISH_HEADER@ + fish_channel_lines(names_of(names@).subrange(0, i as int)),
            decreases names.len() - i,
        {
            let name = names[i].as_str();
            s.append(FISH_CHANNEL_PREFIX);
            s.append(name);
            s.append("\" -d \"#");
            s.append(name);
            s.append("\"\n");
            proof {
                let sub = names_of(names@).subrange(0, i + 1);
                assert(sub.drop_last() =~= names_of(names@).subrange(0, i as int));
                assert(sub.last() == names@[i as int]@);
            }
            i = i + 1;
        }
        assert(names_of(names@).subrange(0, i as int) =~= names_of(names@));
        s
    }
}

/// What the picker's outcome asks for: nothing when it was aborted or nothing was chosen,
/// else the first chosen name.
pub fn chosen_channel(aborted: bool, selected: &Vec<ChannelName>) -> (r: Option<ChannelName>)
    ensures
        aborted ==> r is None,
        !aborted && selected@.len() == 0 ==> r is None,
        !aborted && selected@.len() > 0 ==> r is Some && r->0@ == selected@[0]@,
{
    if aborted || selected.len() == 0 {
        None
    } else {
        Some(selected[0].duplicate())
    }
}

} // verus!
