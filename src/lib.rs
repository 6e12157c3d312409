mod config;
mod name;
mod name_map;
mod opener;
mod pager;
mod shell;
mod sync;

pub use config::{alias_lookup, alias_map, channel_lookup, resolve, Config, DirectoryModel};
pub use name::{name_less, name_lt, names_of, ChannelId, ChannelName};
pub use name_map::{map_of_pairs, pairs_map, strictly_sorted, NameMap};
pub use opener::{
    chosen_channel, fish_channel_line, fish_channel_lines, link_text, text_of, SlackOpener,
    FISH_CHANNEL_PREFIX, FISH_HEADER,
};
pub use pager::{cursor_text, ends_listing, PageRequest, PageStep, Pager, PAGE_LIMIT};
pub use shell::Shell;
pub use sync::{
    candidate, channels_from_remote, diff_channels, is_kept, lemma_candidate_domain,
    lemma_candidate_entry_source, lemma_reconcile_idempotent, lemma_zero_member_filtering,
    missing_names, reconcile, reconciled, ChannelDiff, RemoteChannel,
};
