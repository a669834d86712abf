use vstd::prelude::*;

use crate::text::opt_text;

verus! {

/// Where a Discord command came from.
#[derive(Clone, Debug, PartialEq, Eq)]
pub struct DiscordContext {
    pub guild_id: String,
    pub channel_id: String,
    pub thread_id: Option<String>,
    pub user_id: String,
    pub message_id: Option<String>,
}

pub struct DiscordContextView {
    pub guild_id: Seq<char>,
    pub channel_id: Seq<char>,
    pub thread_id: Option<Seq<char>>,
    pub user_id: Seq<char>,
    pub message_id: Option<Seq<char>>,
}

impl View for DiscordContext {
    type V = DiscordContextView;

    open spec fn view(&self) -> DiscordContextView {
        DiscordContextView {
            guild_id: self.guild_id@,
            channel_id: self.channel_id@,
            thread_id: opt_text(self.thread_id),
            user_id: self.user_id@,
            message_id: opt_text(self.message_id),
        }
    }
}

/// The commands that the Discord relay understands.
#[derive(Clone, Copy, Debug, PartialEq, Eq, Structural)]
pub enum DiscordCommandKind {
    SpawnClone,
    AssignAgent,
    RelayMessage,
    CloseSession,
    SessionStatus,
}

/// A command relayed from Discord, with the arguments each kind takes.
#[derive(Clone, Debug, PartialEq, Eq)]
pub struct DiscordCommandRequest {
    pub command: DiscordCommandKind,
    pub context: DiscordContext,
    pub session_id: Option<String>,
    pub clone_name: Option<String>,
    pub requested_agent: Option<String>,
    pub agent_name: Option<String>,
    pub content: Option<String>,
    pub operator_id: Option<String>,
}

/// The answer to a relayed Discord command.
#[derive(Clone, Debug, PartialEq, Eq)]
pub struct DiscordDispatch {
    pub acknowledged: bool,
    pub session_id: Option<String>,
    pub response: String,
}

} // verus!
