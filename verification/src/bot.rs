//! Update routing and handlers: classify each inbound update into exactly
//! one handling path, and compute the one outbound response (or none) that
//! the path owes.

use vstd::prelude::*;

use crate::db::{upserted, StoreError, UserPreference, UserStore};
use crate::tg::{escape, escape_seq, response_text, render, TgResponse};

verus! {

/// The two explicit commands the assistant recognises.
#[derive(Clone, Copy, PartialEq, Eq, Structural, Debug)]
pub enum CommandKind {
    Help,
    Start,
}

/// Chat context: the chat identifier and whether the chat is one-to-one.
#[derive(Clone, Copy, PartialEq, Eq, Structural, Debug)]
pub struct ChatContext {
    pub chat_id: i64,
    pub is_private: bool,
}

/// Sender identity fields, mirrored into the persisted preference record.
pub struct Sender {
    pub external_id: u64,
    pub first_name: String,
    pub last_name: Option<String>,
    pub username: Option<String>,
}

/// A geographic coordinate, in integer microdegrees (degrees times one
/// million). The transport adapter converts from its own representation.
#[derive(Clone, Copy, PartialEq, Eq, Structural, Debug)]
pub struct Coordinate {
    pub lat_micro: i64,
    pub lng_micro: i64,
}

/// One inbound update, as delivered by the transport.
pub enum InboundUpdate {
    Command { kind: CommandKind, chat: ChatContext, sender: Sender },
    Message { location: Option<Coordinate>, chat: ChatContext, sender: Sender },
}

/// The handling path selected for one update. Exactly one per update.
pub enum Route {
    Command { kind: CommandKind, chat: ChatContext },
    Ignore,
    Location { coordinate: Coordinate, chat: ChatContext, sender: Sender },
    Fallback { chat: ChatContext },
}

/// The routing rule: a recognised command is handled wherever it arrives;
/// otherwise a non-private chat is ignored; otherwise a location message
/// takes the location path; anything else falls back to "incorrect request".
pub open spec fn route_of(u: InboundUpdate) -> Route {
    match u {
        InboundUpdate::Command { kind, chat, sender } => Route::Command { kind, chat },
        InboundUpdate::Message { location, chat, sender } => {
            if !chat.is_private {
                Route::Ignore
            } else {
                match location {
                    Some(coordinate) => Route::Location { coordinate, chat, sender },
                    None => Route::Fallback { chat },
                }
            }
        },
    }
}

/// Select the handling path for one update; no other path fires.
pub fn classify(u: InboundUpdate) -> (r: Route)
    ensures
        r == route_of(u),
{
    match u {
        InboundUpdate::Command { kind, chat, sender: _ } => Route::Command { kind, chat },
        InboundUpdate::Message { location, chat, sender } => {
            if !chat.is_private {
                Route::Ignore
            } else {
                match location {
                    Some(coordinate) => Route::Location { coordinate, chat, sender },
                    None => Route::Fallback { chat },
                }
            }
        },
    }
}

/// Command text `s` names the command `cmd`: either exactly, or with a
/// bot-name suffix introduced by '@'.
pub open spec fn is_command_text(s: Seq<char>, cmd: Seq<char>) -> bool {
    ||| s == cmd
    ||| (s.len() > cmd.len() && s.take(cmd.len() as int) == cmd && s[cmd.len() as int] == '@')
}

/// The commands by their transport-level names.
pub open spec fn spec_parse_command(s: Seq<char>) -> Option<CommandKind> {
    if is_command_text(s, "/help"@) {
        Some(CommandKind::Help)
    } else if is_command_text(s, "/start"@) {
        Some(CommandKind::Start)
    } else {
        None
    }
}

fn is_command(s: &str, cmd: &str) -> (r: bool)
    ensures
        r == is_command_text(s@, cmd@),
{
    let n = s.unicode_len();
    let m = cmd.unicode_len();
    if n < m {
        return false;
    }
    let mut i: usize = 0;
    while i < m
        invariant
            i <= m,
            m <= n,
            n == s@.len(),
            m == cmd@.len(),
            forall|j: int| 0 <= j < i ==> s@[j] == cmd@[j],
        decreases m - i,
    {
        if s.get_char(i) != cmd.get_char(i) {
            return false;
        }
        i = i + 1;
    }
    if n == m {
        proof {
            assert(s@ =~= cmd@);
        }
        true
    } else {
        proof {
            assert(s@.take(m as int) =~= cmd@);
        }
        s.get_char(m) == '@'
    }
}

/// Recognise an explicit command in raw message text; the transport adapter
/// runs this before building an [`InboundUpdate`].
pub fn parse_command(text: &str) -> (r: Option<CommandKind>)
    ensures
        r == spec_parse_command(text@),
{
    if is_command(text, "/help") {
        Some(CommandKind::Help)
    } else if is_command(text, "/start") {
        Some(CommandKind::Start)
    } else {
        None
    }
}

/// The command catalog: each command with its one-line description.
pub open spec fn help_text() -> Seq<char> {
    "Commands:\n/help - show this text\n/start - off"@
}

/// Reply text owed to each command, before escaping.
pub open spec fn command_text(kind: CommandKind) -> Seq<char> {
    match kind {
        CommandKind::Help => help_text(),
        CommandKind::Start => response_text(TgResponse::Hello),
    }
}

/// Command handler: `Help` answers with the full command catalog, `Start`
/// with the greeting; no persistence side effects.
pub fn command_handler(kind: CommandKind) -> (out: String)
    ensures
        out@ == escape_seq(command_text(kind)),
{
    match kind {
        CommandKind::Help => escape("Commands:\n/help - show this text\n/start - off"),
        CommandKind::Start => {
            let text = render(&TgResponse::Hello);
            escape(text.as_str())
        },
    }
}

/// Location path, outcome step: on a saved preference the user learns the
/// chosen timezone; on a storage fault the same timezone is reported as not
/// saved — one response either way, never an error.
pub fn location_handler(tz: String, store_result: Result<(), StoreError>) -> (r: TgResponse)
    ensures
        store_result is Ok ==> r == TgResponse::ChosenTimezone(tz),
        store_result is Err ==> r == TgResponse::FailedSetTimezone(tz),
{
    match store_result {
        Ok(_) => TgResponse::ChosenTimezone(tz),
        Err(_) => TgResponse::FailedSetTimezone(tz),
    }
}

/// The preference record an update's sender asks to persist.
pub open spec fn pref_of(sender: Sender, tz: String) -> UserPreference {
    UserPreference {
        external_id: sender.external_id,
        first_name: sender.first_name,
        last_name: sender.last_name,
        username: sender.username,
        timezone: Some(tz),
    }
}

/// Location path against the reference store: persist the sender's record
/// with the resolved timezone and confirm the choice.
pub fn apply_location_update(store: &mut UserStore, sender: Sender, tz: String) -> (r: TgResponse)
    requires
        old(store).wf(),
    ensures
        final(store).wf(),
        upserted(old(store).rows(), final(store).rows(), pref_of(sender, tz)),
        r == TgResponse::ChosenTimezone(tz),
{
    let saved = tz.clone();
    let pref = UserPreference {
        external_id: sender.external_id,
        first_name: sender.first_name,
        last_name: sender.last_name,
        username: sender.username,
        timezone: Some(saved),
    };
    store.upsert(pref);
    TgResponse::ChosenTimezone(tz)
}

/// Fallback path: no command, no location, private chat — the fixed
/// "incorrect request" reply, already escaped for the transport.
pub fn fallback_handler() -> (out: String)
    ensures
        out@ == escape_seq(response_text(TgResponse::IncorrectRequest)),
{
    let text = render(&TgResponse::IncorrectRequest);
    escape(text.as_str())
}

} // verus!
