//! The notification bus: one channel for each user, on which that user's
//! change events are published.
//!
//! Publishing is a command like any other; whoever is subscribed to the
//! channel at that moment receives the event, and no one else ever does.

use crate::keys::{channel, channel_of};
use crate::store::{Command, CommandView};
use crate::task::ChangeEvent;
use vstd::prelude::*;

verus! {

/// The command that publishes `event` to `owner`'s live connections.
pub fn publish(owner: &str, event: ChangeEvent) -> (command: Command)
    ensures
        command@ == (CommandView::Publish { channel: channel_of(owner@), event: event@ }),
{
    Command::Publish { channel: channel(owner), event }
}

/// The channel to subscribe to for `owner`'s events.
pub fn subscription(owner: &str) -> (name: String)
    ensures
        name@ == channel_of(owner@),
{
    channel(owner)
}

} // verus!
