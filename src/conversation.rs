use vstd::prelude::*;
use crate::types::{ConversationError, Message, MessageRole};

verus! {

/// Relies on uuid::Uuid::new_v4 and its `Display` form: a fresh random
/// identifier as text.
#[verifier::external_body]
fn fresh_id() -> (r: String) {
    uuid::Uuid::new_v4().to_string()
}

/// Relies on chrono::Utc::now and DateTime::timestamp_millis: the current
/// time in milliseconds since the Unix epoch.
#[verifier::external_body]
pub(crate) fn now_millis() -> (r: i64) {
    chrono::Utc::now().timestamp_millis()
}

/// The messages of a history that persistent storage keeps: the
/// non-provisional ones, in order.
pub open spec fn persisted(h: Seq<Message>) -> Seq<Message>
    decreases h.len(),
{
    if h.len() == 0 {
        h
    } else {
        let before = persisted(h.drop_last());
        if h.last().provisional {
            before
        } else {
            before.push(h.last())
        }
    }
}

/// One conversation: its identifier, its messages in conversational order,
/// its creation time (milliseconds since the Unix epoch), and whether new
/// user messages default to provisional.
#[derive(Debug)]
pub struct Conversation {
    pub id: String,
    pub messages: Vec<Message>,
    pub created_at: i64,
    pub provisional_mode: bool,
}

impl Conversation {
    /// A fresh conversation: a new random id, the current time, no messages,
    /// provisional mode off.
    pub fn new() -> (r: Self)
        ensures
            r.messages@.len() == 0,
            !r.provisional_mode,
    {
        Conversation { id: fresh_id(), messages: Vec::new(), created_at: now_millis(), provisional_mode: false }
    }
}

/// Owns the live conversation. The live transcript holds every appended
/// message; storage receives only the non-provisional ones.
pub struct ConversationManager {
    current_conversation: Conversation,
    storage_path: String,
}

impl ConversationManager {
    pub closed spec fn history(&self) -> Seq<Message> {
        self.current_conversation.messages@
    }

    pub closed spec fn provisional_mode(&self) -> bool {
        self.current_conversation.provisional_mode
    }

    pub closed spec fn storage(&self) -> Seq<char> {
        self.storage_path@
    }

    pub closed spec fn id(&self) -> Seq<char> {
        self.current_conversation.id@
    }

    /// A manager with a fresh, empty conversation, storing under
    /// `conversations`.
    pub fn new() -> (r: Result<Self, ConversationError>)
        ensures
            r matches Ok(m) ==> m.history().len() == 0 && !m.provisional_mode() && m.storage() == "conversations"@,
            r is Ok,
    {
        Ok(ConversationManager {
            current_conversation: Conversation::new(),
            storage_path: String::from_str("conversations"),
        })
    }

    /// Where conversations are stored.
    pub fn storage_path(&self) -> (r: &String)
        ensures
            r@ == self.storage(),
    {
        &self.storage_path
    }

    /// The id of the live conversation.
    pub fn conversation_id(&self) -> (r: &String)
        ensures
            r@ == self.id(),
    {
        &self.current_conversation.id
    }

    /// Appends a message to the live transcript, whatever its flag. Returns
    /// whether it must also be written to storage: exactly when it is not
    /// provisional.
    pub fn append(&mut self, message: Message) -> (flush: bool)
        ensures
            final(self).history() == old(self).history().push(message),
            flush == !message.provisional,
            persisted(final(self).history()) == if flush {
                persisted(old(self).history()).push(message)
            } else {
                persisted(old(self).history())
            },
            final(self).provisional_mode() == old(self).provisional_mode(),
            final(self).id() == old(self).id(),
    {
        let flush = !message.provisional;
        let ghost before = self.current_conversation.messages@;
        self.current_conversation.messages.push(message);
        assert(self.current_conversation.messages@.drop_last() =~= before);
        flush
    }

    /// Appends the user's message `content`, written at `now`, with the given
    /// provisional flag. Returns whether it must also be written to storage.
    pub fn send_message(&mut self, content: String, provisional: bool, now: i64) -> (flush: bool)
        ensures
            final(self).history().len() == old(self).history().len() + 1,
            final(self).history().drop_last() == old(self).history(),
            final(self).history().last().role == MessageRole::User,
            final(self).history().last().content@ == content@,
            final(self).history().last().provisional == provisional,
            final(self).history().last().timestamp == now,
            flush == !provisional,
            final(self).provisional_mode() == old(self).provisional_mode(),
    {
        let m = Message { role: MessageRole::User, content, timestamp: now, provisional, context_files: Vec::new() };
        self.append(m)
    }

    /// Starts a brand-new conversation (new id, new time, no messages,
    /// provisional mode off). What storage holds is untouched.
    pub fn clear_conversation(&mut self)
        ensures
            final(self).history().len() == 0,
            !final(self).provisional_mode(),
    {
        self.current_conversation = Conversation::new();
    }

    /// Loads conversation `id` from what storage returned for it. Provisional
    /// messages never reach storage; any found there is left out all the same.
    pub fn restore(&mut self, id: String, stored: Vec<Message>, created_at: i64)
        ensures
            final(self).id() == id@,
            final(self).history() == persisted(stored@),
            !final(self).provisional_mode(),
    {
        let mut kept: Vec<Message> = Vec::new();
        let mut stored = stored;
        let ghost all = stored@;
        let mut rest: Vec<Message> = Vec::new();
        while stored.len() > 0
            invariant
                all =~= stored@ + rest@.reverse(),
            decreases stored@.len(),
        {
            let m = stored.pop().unwrap();
            rest.push(m);
            assert(all =~= stored@ + rest@.reverse());
        }
        while rest.len() > 0
            invariant
                all =~= all.take(all.len() - rest@.len()) + rest@.reverse(),
                rest@.len() <= all.len(),
                kept@ == persisted(all.take(all.len() - rest@.len())),
            decreases rest@.len(),
        {
            let ghost pre = all.take(all.len() - rest@.len());
            let m = rest.pop().unwrap();
            let ghost post = all.take(all.len() - rest@.len());
            assert(post.drop_last() =~= pre);
            assert(post.last() == m);
            if !m.provisional {
                kept.push(m);
            }
        }
        assert(all.take(all.len() as int) =~= all);
        self.current_conversation = Conversation { id, messages: kept, created_at, provisional_mode: false };
    }

    /// Flips the session default for new user messages; messages already
    /// appended keep their flag.
    pub fn toggle_provisional_mode(&mut self)
        ensures
            final(self).provisional_mode() == !old(self).provisional_mode(),
            final(self).history() == old(self).history(),
            final(self).id() == old(self).id(),
    {
        self.current_conversation.provisional_mode = !self.current_conversation.provisional_mode;
    }

    /// The live transcript.
    pub fn get_messages(&self) -> (r: &Vec<Message>)
        ensures
            r@ == self.history(),
    {
        &self.current_conversation.messages
    }

    /// Whether new user messages default to provisional.
    pub fn is_provisional_mode(&self) -> (r: bool)
        ensures
            r == self.provisional_mode(),
    {
        self.current_conversation.provisional_mode
    }
}

/// A reloaded conversation holds no provisional message, and keeps every
/// non-provisional one of the history it was written from.
pub proof fn lemma_reload_excludes_provisional(h: Seq<Message>)
    ensures
        forall|i: int| 0 <= i < persisted(h).len() ==> !(#[trigger] persisted(h)[i]).provisional,
        forall|i: int| 0 <= i < h.len() && !(#[trigger] h[i]).provisional ==> persisted(h).contains(h[i]),
    decreases h.len(),
{
    if h.len() > 0 {
        lemma_reload_excludes_provisional(h.drop_last());
        let before = persisted(h.drop_last());
        assert forall|i: int| 0 <= i < h.len() && !(#[trigger] h[i]).provisional implies persisted(h).contains(h[i]) by {
            if i < h.len() - 1 {
                assert(h.drop_last()[i] == h[i]);
                let k = choose|k: int| 0 <= k < before.len() && before[k] == h[i];
                if !h.last().provisional {
                    assert(persisted(h)[k] == h[i]);
                }
            } else {
                assert(persisted(h)[persisted(h).len() - 1] == h[i]);
            }
        }
    }
}

} // verus!
