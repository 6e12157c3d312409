use vstd::prelude::*;

use crate::name_map::NameMap;

verus! {

/// What a directory holds, as mathematical values.
pub ghost struct DirectoryModel {
    pub team_id: Seq<char>,
    pub aliases: Option<Map<Seq<char>, Seq<char>>>,
    pub channels: Map<Seq<char>, Seq<char>>,
}

/// The alias map; an absent one acts as an empty one.
pub open spec fn alias_map(d: DirectoryModel) -> Map<Seq<char>, Seq<char>> {
    match d.aliases {
        Some(a) => a,
        None => Map::empty(),
    }
}

/// The identifier reached through the alias `label`, if its target is a channel.
pub open spec fn alias_lookup(d: DirectoryModel, label: Seq<char>) -> Option<Seq<char>> {
    if alias_map(d).contains_key(label) && d.channels.contains_key(alias_map(d)[label]) {
        Some(d.channels[alias_map(d)[label]])
    } else {
        None
    }
}

/// The identifier registered for the canonical name `label`.
pub open spec fn channel_lookup(d: DirectoryModel, label: Seq<char>) -> Option<Seq<char>> {
    if d.channels.contains_key(label) {
        Some(d.channels[label])
    } else {
        None
    }
}

/// Resolution: an alias whose target is a channel wins; otherwise the label is looked up as a
/// canonical name. One level of indirection only.
pub open spec fn resolve(d: DirectoryModel, label: Seq<char>) -> Option<Seq<char>> {
    match alias_lookup(d, label) {
        Some(id) => Some(id),
        None => channel_lookup(d, label),
    }
}

/// The configuration: team, optional aliases and the channel directory.
#[derive(Debug, Clone)]
pub struct Config {
    /// Team identifier.
    pub team_id: String,
    /// Alias label to canonical channel name.
    pub aliases: Option<NameMap>,
    /// Canonical channel name to channel identifier.
    pub channels: NameMap,
}

impl View for Config {
    type V = DirectoryModel;

    open spec fn view(&self) -> DirectoryModel {
        DirectoryModel {
            team_id: self.team_id@,
            aliases: match self.aliases {
                Some(a) => Some(a@),
                None => None,
            },
            channels: self.channels@,
        }
    }
}

impl Config {
    /// Both maps are well formed.
    pub open spec fn wf(&self) -> bool {
        &&& self.channels.wf()
        &&& match self.aliases {
            Some(a) => a.wf(),
            None => true,
        }
    }

    /// Assembles a configuration.
    pub fn new(team_id: String, aliases: Option<NameMap>, channels: NameMap) -> (r: Config)
        ensures
            r.team_id == team_id,
            r.aliases == aliases,
            r.channels == channels,
    {
        Config { team_id, aliases, channels }
    }

    /// A copy of this configuration.
    pub fn duplicate(&self) -> (r: Config)
        requires
            self.wf(),
        ensures
            r.wf(),
            r@ == self@,
    {
        let aliases = match &self.aliases {
            Some(a) => Some(a.duplicate()),
            None => None,
        };
        Config { team_id: self.team_id.clone(), aliases, channels: self.channels.duplicate() }
    }
}

} // verus!
