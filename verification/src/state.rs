//! The conversation a family has with the bot.
use vstd::prelude::*;

verus! {

/// The SQLite database that keeps conversations. sqlx's `Pool` cannot be
/// declared as an outside type (its parameter is bound by an outside trait),
/// so the pool is held here as an opaque value; the bot only carries it.
#[verifier::external_body]
#[derive(Debug)]
pub struct Store(pub sqlx::SqlitePool);

/// How the bot treats voice messages.
#[derive(Debug, Clone, Copy, PartialEq, Eq, Structural)]
pub enum BotMode {
    /// Voice messages are transcribed and sent to the LLM.
    Respond,
    /// Voice messages are echoed as text; the LLM is not called.
    TranscribeOnly,
}

/// One message of the conversation.
#[derive(Debug)]
pub struct Message {
    /// "user", "assistant" or "tool".
    pub role: String,
    pub content: String,
    /// When the message was taken, in milliseconds since the Unix epoch (UTC).
    pub timestamp: i64,
    pub sender_name: Option<String>,
}

/// The model of a message: what the bot reads of it.
pub struct MessageView {
    pub role: Seq<char>,
    pub content: Seq<char>,
    pub sender_name: Option<Seq<char>>,
}

pub open spec fn opt_string_view(s: Option<String>) -> Option<Seq<char>> {
    match s {
        Some(s) => Some(s@),
        None => None,
    }
}

pub open spec fn opt_str_view(s: Option<&str>) -> Option<Seq<char>> {
    match s {
        Some(s) => Some(s@),
        None => None,
    }
}

impl View for Message {
    type V = MessageView;

    open spec fn view(&self) -> MessageView {
        MessageView {
            role: self.role@,
            content: self.content@,
            sender_name: opt_string_view(self.sender_name),
        }
    }
}

/// The models of a sequence of messages.
pub open spec fn messages_view(messages: Seq<Message>) -> Seq<MessageView> {
    messages.map_values(|m: Message| m@)
}

pub fn clone_opt_string(s: &Option<String>) -> (r: Option<String>)
    ensures
        opt_string_view(r) == opt_string_view(*s),
{
    match s {
        Some(s) => Some(s.clone()),
        None => None,
    }
}

impl Clone for Message {
    fn clone(&self) -> (r: Self)
        ensures
            r@ == self@,
            r.timestamp == self.timestamp,
    {
        Message {
            role: self.role.clone(),
            content: self.content.clone(),
            timestamp: self.timestamp,
            sender_name: clone_opt_string(&self.sender_name),
        }
    }
}

/// The last `size` messages of `messages`, or all of them where there are fewer.
pub open spec fn context_window(messages: Seq<MessageView>, size: nat) -> Seq<MessageView> {
    if messages.len() <= size {
        messages
    } else {
        messages.subrange(messages.len() - size, messages.len() as int)
    }
}

/// The context window holds the last `size` messages (all of them where
/// there are fewer), in their order.
pub proof fn lemma_context_window_is_last(messages: Seq<MessageView>, size: nat)
    ensures
        context_window(messages, size).len() == if messages.len() < size {
            messages.len()
        } else {
            size
        },
        forall|i: int|
            0 <= i < context_window(messages, size).len() ==> #[trigger] context_window(
                messages,
                size,
            )[i] == messages[messages.len() - context_window(messages, size).len() + i],
{
}

/// Shared conversation state of one chat (the whole family).
#[derive(Debug)]
pub struct ConversationState {
    pub family_id: i64,
    pub messages: Vec<Message>,
    pub mode: BotMode,
    /// Where the conversation is kept; `None` keeps it in memory only.
    pub pool: Option<Store>,
}

impl ConversationState {
    /// Whether the conversation is kept in a database.
    pub open spec fn is_persisted(&self) -> bool {
        self.pool is Some
    }

    /// The models of the conversation's messages.
    pub open spec fn history(&self) -> Seq<MessageView> {
        messages_view(self.messages@)
    }

    /// A conversation kept in memory only.
    pub fn new(family_id: i64) -> (s: Self)
        ensures
            s.family_id == family_id,
            s.messages@.len() == 0,
            s.mode == BotMode::Respond,
            !s.is_persisted(),
    {
        ConversationState { family_id, messages: Vec::new(), mode: BotMode::Respond, pool: None }
    }

    /// A conversation kept in the database behind `pool`.
    pub fn with_db(family_id: i64, pool: Store) -> (s: Self)
        ensures
            s.family_id == family_id,
            s.messages@.len() == 0,
            s.mode == BotMode::Respond,
            s.is_persisted(),
    {
        ConversationState { family_id, messages: Vec::new(), mode: BotMode::Respond, pool: Some(pool) }
    }

    /// Adds a message in memory, stamped with the current time.
    pub fn add_message(&mut self, role: &str, content: &str, sender_name: Option<String>)
        ensures
            final(self).history() == old(self).history().push(
                MessageView { role: role@, content: content@, sender_name: opt_string_view(sender_name) },
            ),
            final(self).family_id == old(self).family_id,
            final(self).mode == old(self).mode,
            final(self).is_persisted() == old(self).is_persisted(),
    {
        let ghost before = self.messages@;
        let m = Message {
            role: String::from_str(role),
            content: String::from_str(content),
            timestamp: now_millis(),
            sender_name,
        };
        self.messages.push(m);
        assert(messages_view(self.messages@) =~= messages_view(before).push(m@));
    }

    /// The last `size` messages (all of them where there are fewer), oldest first.
    pub fn get_context_window(&self, size: usize) -> (window: Vec<Message>)
        ensures
            messages_view(window@) == context_window(self.history(), size as nat),
            forall|i: int|
                0 <= i < window@.len() ==> (#[trigger] window@[i]).timestamp == self.messages@[self.messages@.len()
                    - window@.len() + i].timestamp,
    {
        let len = self.messages.len();
        let start: usize = if len <= size {
            0
        } else {
            len - size
        };
        let mut window: Vec<Message> = Vec::new();
        let mut i: usize = start;
        while i < len
            invariant
                start <= i <= len,
                len == self.messages@.len(),
                start == (if len <= size {
                    0
                } else {
                    len - size
                }),
                window@.len() == i - start,
                messages_view(window@) == messages_view(self.messages@.subrange(start as int, i as int)),
                forall|j: int|
                    0 <= j < window@.len() ==> (#[trigger] window@[j]).timestamp == self.messages@[start
                        + j].timestamp,
            decreases len - i,
        {
            let m = self.messages[i].clone();
            let ghost before = window@;
            window.push(m);
            proof {
                let sub = self.messages@.subrange(start as int, i + 1);
                let prev = self.messages@.subrange(start as int, i as int);
                assert forall|k: int| 0 <= k < window@.len() implies #[trigger] window@[k]@
                    == sub[k]@ by {
                    if k < before.len() {
                        assert(messages_view(before)[k] == messages_view(prev)[k]);
                    } else {
                        assert(sub[k] == self.messages@[i as int]);
                    }
                }
                assert(messages_view(window@) =~= messages_view(sub));
            }
            i = i + 1;
        }
        assert(self.messages@.subrange(0, len as int) =~= self.messages@);
        assert(messages_view(self.messages@.subrange(start as int, len as int)) =~= context_window(
            self.history(),
            size as nat,
        ));
        window
    }
}

/// A message as stored in the database: role, content, sender and the stored
/// time stamp. A stamp that cannot be read as a date and time is replaced by
/// the current time.
pub fn message_from_row(role: String, content: String, sender_name: Option<String>, timestamp: &str) -> (m: Message)
    ensures
        m@ == (MessageView { role: role@, content: content@, sender_name: opt_string_view(sender_name) }),
        parsed_timestamp(timestamp@) matches Some(t) ==> m.timestamp == t,
{
    let stamp = match parse_timestamp(timestamp) {
        Some(t) => t,
        None => now_millis(),
    };
    Message { role, content, timestamp: stamp, sender_name }
}

/// The instant, in milliseconds since the Unix epoch, that chrono reads from
/// `text` as a `DateTime<Utc>`; `None` where chrono refuses the text.
pub uninterp spec fn parsed_timestamp(text: Seq<char>) -> Option<i64>;

/// `chrono::Utc::now()`, in milliseconds since the Unix epoch. The time is
/// the machine's: nothing is claimed of it.
#[verifier::external_body]
fn now_millis() -> i64 {
    chrono::Utc::now().timestamp_millis()
}

/// `str::parse::<chrono::DateTime<chrono::Utc>>`, taken in milliseconds since
/// the Unix epoch: the contract claims that the result is `parsed_timestamp`
/// of the text.
#[verifier::external_body]
fn parse_timestamp(text: &str) -> (r: Option<i64>)
    ensures
        r == parsed_timestamp(text@),
{
    text.parse::<chrono::DateTime<chrono::Utc>>().ok().map(|d| d.timestamp_millis())
}

} // verus!
