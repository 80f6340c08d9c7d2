use vstd::prelude::*;
use crate::text::str_eq;

verus! {

/// What the pipeline needs to know of a fetched channel: whether it is a
/// guild (community) channel, and if so its display name.
#[derive(Clone, Debug)]
pub enum ChannelInfo {
    Guild { name: String },
    Other,
}

/// The display name of the channel watched for role-menu reactions.
pub fn watch_channel_name() -> (r: &'static str)
    ensures
        r@ == "channel-management"@,
{
    "channel-management"
}

/// A channel is in scope iff it is a guild channel whose display name equals
/// the watch name exactly.
pub open spec fn spec_accepts(channel: ChannelInfo, watch: Seq<char>) -> bool {
    match channel {
        ChannelInfo::Guild { name } => name@ == watch,
        ChannelInfo::Other => false,
    }
}

/// Accepts exactly the guild channels whose display name equals `watch_name`
/// (case-sensitive, no normalization); every other channel, and every other
/// channel kind, is rejected.
pub fn accepts(channel: &ChannelInfo, watch_name: &str) -> (b: bool)
    ensures
        b == spec_accepts(*channel, watch_name@),
{
    match channel {
        ChannelInfo::Guild { name } => str_eq(name.as_str(), watch_name),
        ChannelInfo::Other => false,
    }
}

} // verus!
