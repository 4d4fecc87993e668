use vstd::prelude::*;
use crate::conversation::{ConversationManager, persisted};
use crate::filesystem::{built, entries_included, entries_outside, same_entry, sources_other_than, FileSystemManager, ScannedFile};
use crate::pattern::{all_compile, names_first_bad};
use crate::prompt::{answer_prompt_fits, keyword_prompt_fits, selection_prompt_fits};
use crate::rag::{
    answer_taken, at_rest, chosen_paths, contents_taken, keywords_taken, paths_of, reply_text,
    results_taken, selection_taken, strings_view, RagAction, RagEngine, RagState,
};
use crate::text::tokens;
use crate::types::{
    same_message, AppError, Command, ConversationError, DataSource, FileSystemError, LlmError, Message,
    MessageRole, RagError, SearchResult, SourceType, UserInput,
};

verus! {

/// What the session needs done next by the one who drives it.
#[derive(Debug)]
pub enum TurnAction {
    /// Show this text; nothing else is to be done.
    Reply(String),
    /// Send these messages to the LLM gateway and report the reply.
    AskLlm(Vec<Message>),
    /// Search the catalog for these keywords and report the results.
    Search(Vec<String>),
    /// Read these files in full and report each content, or its absence.
    ReadFiles(Vec<String>),
    /// The turn is over. Its last `appended` messages were added to the
    /// transcript; `flush` says whether they go to storage (all or none).
    Completed { answer: String, appended: usize, flush: bool },
}

/// The user's turn in flight.
struct PendingTurn {
    content: String,
    provisional: bool,
    timestamp: i64,
    direct: bool,
    failure: Option<RagError>,
}

/// Routes each user turn, directly to the LLM or through a retrieval round
/// first, and applies the result to the conversation. One turn at a time.
pub struct AppController {
    conversation_manager: ConversationManager,
    rag_engine: RagEngine,
    file_manager: FileSystemManager,
    pending: Option<PendingTurn>,
}

/// Whether a round in this state waits for an LLM reply or an exchange.
pub open spec fn in_flight(s: RagState) -> bool {
    s == RagState::KeywordsRequested || s == RagState::Searching || s == RagState::SelectionRequested
        || s == RagState::SelectionReceived || s == RagState::AnswerRequested
}

/// Whether `r` is `h` followed by `p`, the messages of `h` copied.
pub open spec fn history_then(r: Seq<Message>, h: Seq<Message>, p: Seq<Message>) -> bool {
    &&& r.len() == h.len() + p.len()
    &&& forall|i: int| 0 <= i < h.len() ==> same_message(#[trigger] r[i], h[i])
    &&& forall|j: int| 0 <= j < p.len() ==> #[trigger] r[h.len() + j] == p[j]
}

/// Whether `m` asks for a direct answer: the transcript `h`, then the user's
/// text.
pub open spec fn direct_prompt_fits(m: Seq<Message>, h: Seq<Message>, content: Seq<char>) -> bool {
    &&& m.len() == h.len() + 1
    &&& forall|i: int| 0 <= i < h.len() ==> same_message(#[trigger] m[i], h[i])
    &&& m[h.len() as int].role == MessageRole::User
    &&& m[h.len() as int].content@ == content
}

/// Whether `m` asks for the final answer of a round: the transcript `h`, then
/// the answer request over `files`.
pub open spec fn answer_with_history(m: Seq<Message>, h: Seq<Message>, query: Seq<char>, files: Seq<(String, String)>) -> bool {
    &&& m.len() == h.len() + 2
    &&& forall|i: int| 0 <= i < h.len() ==> same_message(#[trigger] m[i], h[i])
    &&& answer_prompt_fits(m.skip(h.len() as int), query, files)
}

/// Whether `after` is `before` with one turn recorded: the user's message,
/// a note if retrieval failed, and the answer with its context files, all
/// with the turn's provisional flag.
pub open spec fn turn_recorded(
    before: Seq<Message>,
    after: Seq<Message>,
    content: Seq<char>,
    provisional: bool,
    failed: bool,
    answer: Seq<char>,
    context_files: Seq<Seq<char>>,
) -> bool {
    let n = before.len() as int;
    let k: int = if failed { 3 } else { 2 };
    &&& after.len() == n + k
    &&& after.take(n) == before
    &&& after[n].role == MessageRole::User
    &&& after[n].content@ == content
    &&& after[n].context_files@.len() == 0
    &&& after[n + k - 1].role == MessageRole::Assistant
    &&& after[n + k - 1].content@ == answer
    &&& strings_view(after[n + k - 1].context_files@) == context_files
    &&& (failed ==> after[n + 1].role == MessageRole::System)
    &&& forall|i: int| n <= i < n + k ==> (#[trigger] after[i]).provisional == provisional
}

/// Whether a catalog copy holds the same entries as the catalog.
pub open spec fn catalog_copy(copy: Seq<crate::types::FileInfo>, catalog: Seq<crate::types::FileInfo>) -> bool {
    copy.len() == catalog.len() && forall|i: int| 0 <= i < copy.len() ==> same_entry(#[trigger] copy[i], catalog[i])
}

/// The session after a turn was begun, and what begin_turn answered.
pub open spec fn turn_begun(before: AppController, after: AppController, content: Seq<char>, r: Result<TurnAction, AppError>) -> bool {
    &&& after.wf()
    &&& (before.busy() ==> r is Err && after == before)
    &&& (!before.busy() ==> r is Ok && after.busy() && after.pending_content() == content
        && after.pending_provisional() == before.conversation().provisional_mode()
        && !after.pending_failed() && after.conversation() == before.conversation()
        && after.files() == before.files() && after.rag().enabled() == before.rag().enabled())
    &&& (!before.busy() && !before.rag().enabled() ==> after.pending_direct()
        && (r matches Ok(TurnAction::AskLlm(m)) && direct_prompt_fits(m@, before.conversation().history(), content)))
    &&& (!before.busy() && before.rag().enabled() ==> !after.pending_direct()
        && after.rag().state() == RagState::KeywordsRequested
        && after.rag().ctx().query@ == content
        && catalog_copy(after.rag().ctx().available_files@, before.files().catalog())
        && (r matches Ok(TurnAction::AskLlm(m)) && keyword_prompt_fits(m@, content, after.rag().ctx().available_files@)))
}

/// Whether a command's result is `Ok` with the text `t`.
pub open spec fn says(r: Result<String, AppError>, t: Seq<char>) -> bool {
    match r {
        Ok(x) => x@ == t,
        Err(_) => false,
    }
}

/// The listing of the sources: one line per path.
pub open spec fn source_listing(sources: Seq<DataSource>) -> Seq<char>
    decreases sources.len(),
{
    if sources.len() == 0 {
        Seq::<char>::empty()
    } else {
        source_listing(sources.drop_last()) + "\n"@ + sources.last().path@
    }
}

pub open spec fn help_text() -> Seq<char> {
    "Help: Available commands: /help, /config, /clear, /toggle-rag, /toggle-provisional, /add-source, /remove-source, /list-sources, /exit"@
}

/// What carrying out `command` does to the session and answers.
pub open spec fn command_effect(
    before: AppController,
    after: AppController,
    command: Command,
    probe: Option<SourceType>,
    r: Result<String, AppError>,
) -> bool {
    &&& after.wf()
    &&& (!(command is Clear) ==> after.busy() == before.busy())
    &&& (!(command is Clear) && !(command is ToggleProvisional) ==> after.conversation() == before.conversation())
    &&& (!(command is AddSource) && !(command is RemoveSource) ==> after.files() == before.files())
    &&& (!(command is ToggleRag) && !(command is Clear) ==> after.rag() == before.rag())
    &&& match command {
        Command::Help => says(r, help_text()) && after == before,
        Command::Config => says(r, "Configuration is read from config.toml at startup."@) && after == before,
        Command::Clear => says(r, "Conversation cleared"@) && after.conversation().history().len() == 0
            && !after.busy() && after.files() == before.files(),
        Command::ToggleRag => after.rag().enabled() == !before.rag().enabled()
            && says(r, if after.rag().enabled() { "RAG enabled"@ } else { "RAG disabled"@ }),
        Command::ToggleProvisional => after.conversation().provisional_mode() == !before.conversation().provisional_mode()
            && after.conversation().history() == before.conversation().history()
            && says(r, if after.conversation().provisional_mode() { "Provisional mode on"@ } else { "Provisional mode off"@ }),
        Command::AddSource(p) => match probe {
            None => after.files().sources() == before.files().sources() && match r {
                Err(AppError::FileSystem(FileSystemError::NotFound(_))) => true,
                _ => false,
            },
            Some(t) => says(r, "Added source: "@ + p@)
                && after.files().sources().len() == before.files().sources().len() + 1
                && after.files().sources().drop_last() == before.files().sources()
                && after.files().sources().last().path@ == p@
                && after.files().sources().last().source_type == t
                && after.files().catalog() == before.files().catalog(),
        },
        Command::RemoveSource(p) => says(r, "Removed source: "@ + p@)
            && after.files().sources() == sources_other_than(before.files().sources(), p@)
            && after.files().catalog() == entries_outside(before.files().catalog(), p@),
        Command::ListSources => says(r, "Data sources:"@ + source_listing(before.files().sources())) && after == before,
        Command::Exit => says(r, "Exiting application"@) && after == before,
    }
}

/// A turn's result read as a command's result.
pub open spec fn as_command_result(r: Result<TurnAction, AppError>) -> Result<String, AppError> {
    match r {
        Ok(TurnAction::Reply(t)) => Ok(t),
        Ok(_) => Err(AppError::Rag(RagError::NotIdle)),
        Err(e) => Err(e),
    }
}

/// Whether the turn fell back to a direct answer after its round failed:
/// the failure is noted and the LLM is asked with the transcript and the
/// user's text, without retrieved context.
pub open spec fn fell_back(before: AppController, after: AppController, r: Result<TurnAction, AppError>) -> bool {
    &&& after.busy()
    &&& after.pending_direct()
    &&& after.pending_failed()
    &&& after.pending_content() == before.pending_content()
    &&& after.pending_provisional() == before.pending_provisional()
    &&& after.conversation() == before.conversation()
    &&& r matches Ok(TurnAction::AskLlm(m)) && direct_prompt_fits(m@, before.conversation().history(), before.pending_content())
}

/// Whether the turn ended with `answer`: recorded with its context files,
/// and handed on.
pub open spec fn finished(before: AppController, after: AppController, answer: Seq<char>, context_files: Seq<Seq<char>>, r: Result<TurnAction, AppError>) -> bool {
    &&& !after.busy()
    &&& turn_recorded(
        before.conversation().history(),
        after.conversation().history(),
        before.pending_content(),
        before.pending_provisional(),
        before.pending_failed(),
        answer,
        context_files,
    )
    &&& r matches Ok(TurnAction::Completed { answer: x, appended, flush }) && x@ == answer
        && appended == (if before.pending_failed() { 3int } else { 2int })
        && flush == !before.pending_provisional()
}

impl AppController {
    pub closed spec fn conversation(&self) -> ConversationManager {
        self.conversation_manager
    }

    pub closed spec fn rag(&self) -> RagEngine {
        self.rag_engine
    }

    pub closed spec fn files(&self) -> FileSystemManager {
        self.file_manager
    }

    pub closed spec fn busy(&self) -> bool {
        self.pending is Some
    }

    pub closed spec fn pending_provisional(&self) -> bool {
        match self.pending {
            Some(p) => p.provisional,
            None => false,
        }
    }

    pub closed spec fn pending_content(&self) -> Seq<char> {
        match self.pending {
            Some(p) => p.content@,
            None => Seq::<char>::empty(),
        }
    }

    pub closed spec fn pending_failed(&self) -> bool {
        match self.pending {
            Some(p) => p.failure is Some,
            None => false,
        }
    }

    pub closed spec fn pending_direct(&self) -> bool {
        match self.pending {
            Some(p) => p.direct,
            None => false,
        }
    }

    /// The catalog is well formed; a round is in flight exactly when a turn
    /// waits on it, and only a direct answer follows a failed round.
    pub closed spec fn wf(&self) -> bool {
        &&& self.file_manager.wf()
        &&& (self.pending is None ==> at_rest(self.rag_engine.state()))
        &&& (self.pending matches Some(p) && !p.direct ==> in_flight(self.rag_engine.state()))
        &&& (self.pending matches Some(p) && !p.direct ==> !self.pending_failed())
        &&& (self.pending matches Some(p) && p.direct ==> at_rest(self.rag_engine.state()))
    }

    pub fn new() -> (r: Self)
        ensures
            r.wf(),
            !r.busy(),
            !r.rag().enabled(),
            r.conversation().history().len() == 0,
            r.files().sources().len() == 0,
    {
        let cm = ConversationManager::new().unwrap();
        AppController {
            conversation_manager: cm,
            rag_engine: RagEngine::new(),
            file_manager: FileSystemManager::new(),
            pending: None,
        }
    }

    pub fn conversation_manager(&self) -> (r: &ConversationManager)
        ensures
            *r == self.conversation(),
    {
        &self.conversation_manager
    }

    pub fn file_manager(&self) -> (r: &FileSystemManager)
        ensures
            *r == self.files(),
    {
        &self.file_manager
    }

    pub fn rag_engine(&self) -> (r: &RagEngine)
        ensures
            *r == self.rag(),
    {
        &self.rag_engine
    }

    /// Rebuilds the catalog from a walk of the registered sources; `skipped`
    /// lists what the walk could not read, kept as soft warnings.
    pub fn index_sources(&mut self, scanned: &Vec<ScannedFile>, skipped: Vec<String>)
        requires
            old(self).wf(),
        ensures
            final(self).wf(),
            built(old(self).files(), final(self).files(), scanned@),
            final(self).files().warnings() == skipped@.map_values(|p: String| p@),
            final(self).conversation() == old(self).conversation(),
            final(self).rag() == old(self).rag(),
            final(self).busy() == old(self).busy(),
    {
        let _ = self.file_manager.index_sources(scanned, skipped);
    }

    /// Replaces the pattern rule of the catalog, both lists at once, all or
    /// nothing: if a pattern does not compile, the error names the first one
    /// (of the accept list first) and nothing changes.
    pub fn set_patterns(&mut self, accept: Vec<String>, reject: Vec<String>) -> (r: Result<(), AppError>)
        requires
            old(self).wf(),
        ensures
            final(self).wf(),
            r is Ok <==> all_compile(accept@) && all_compile(reject@),
            r is Err ==> *final(self) == *old(self),
            r matches Err(AppError::FileSystem(FileSystemError::Indexing(m))) ==> if !all_compile(accept@) {
                names_first_bad(m@, accept@, "Invalid regex pattern '"@)
            } else {
                names_first_bad(m@, reject@, "Invalid regex pattern '"@)
            },
            r is Err ==> (r matches Err(AppError::FileSystem(FileSystemError::Indexing(_)))),
            r is Ok ==> final(self).files().accept() == accept@.map_values(|p: String| p@)
                && final(self).files().reject() == reject@.map_values(|p: String| p@)
                && final(self).files().catalog() == entries_included(old(self).files().catalog(), final(self).files().accept(), final(self).files().reject())
                && final(self).files().sources() == old(self).files().sources(),
            final(self).conversation() == old(self).conversation(),
            final(self).rag() == old(self).rag(),
            final(self).busy() == old(self).busy(),
    {
        match self.file_manager.set_patterns(accept, reject) {
            Ok(()) => Ok(()),
            Err(e) => Err(AppError::FileSystem(e)),
        }
    }

    /// Loads conversation `id` from what storage holds for it, as the live
    /// conversation. Refused while a turn is in flight.
    pub fn restore_conversation(&mut self, id: String, stored: Vec<Message>, created_at: i64) -> (r: Result<(), AppError>)
        requires
            old(self).wf(),
        ensures
            final(self).wf(),
            old(self).busy() <==> r is Err,
            r is Err ==> *final(self) == *old(self),
            r is Ok ==> final(self).conversation().id() == id@
                && final(self).conversation().history() == persisted(stored@),
            final(self).files() == old(self).files(),
            final(self).rag() == old(self).rag(),
    {
        if self.pending.is_some() {
            return Err(AppError::Conversation(ConversationError::History(String::from_str("a turn is in flight"))));
        }
        self.conversation_manager.restore(id, stored, created_at);
        Ok(())
    }

    /// Copies of the live transcript, followed by `prompt`.
    fn with_history(&self, prompt: Vec<Message>) -> (r: Vec<Message>)
        ensures
            history_then(r@, self.conversation().history(), prompt@),
    {
        let h = self.conversation_manager.get_messages();
        let mut out: Vec<Message> = Vec::new();
        let mut i: usize = 0;
        while i < h.len()
            invariant
                i <= h@.len(),
                h@ == self.conversation().history(),
                out@.len() == i,
                forall|k: int| 0 <= k < i ==> same_message(#[trigger] out@[k], h@[k]),
            decreases h@.len() - i,
        {
            out.push(h[i].duplicate());
            i = i + 1;
        }
        let mut prompt = prompt;
        out.append(&mut prompt);
        out
    }

    /// The prompt of a direct answer: the transcript, then the user's text.
    fn direct_prompt(&self, content: &String) -> (r: Vec<Message>)
        ensures
            direct_prompt_fits(r@, self.conversation().history(), content@),
    {
        let mut p: Vec<Message> = Vec::new();
        p.push(Message {
            role: MessageRole::User,
            content: content.clone(),
            timestamp: 0,
            provisional: true,
            context_files: Vec::new(),
        });
        let ghost pp = p@;
        let r = self.with_history(p);
        proof {
            let n = self.conversation().history().len() as int;
            assert(r@[n + 0] == pp[0]);
        }
        r
    }

    /// Ends the turn in flight: records it and hands the answer on.
    fn complete(&mut self, answer: String, context_files: Vec<String>, now: i64) -> (a: TurnAction)
        requires
            old(self).busy(),
        ensures
            finished(*old(self), *final(self), answer@, strings_view(context_files@), Ok(a)),
            final(self).files() == old(self).files(),
            final(self).rag() == old(self).rag(),
            final(self).conversation().provisional_mode() == old(self).conversation().provisional_mode(),
    {
        let p = self.pending.take().unwrap();
        let ghost h0 = self.conversation_manager.history();
        let user = Message {
            role: MessageRole::User,
            content: p.content,
            timestamp: p.timestamp,
            provisional: p.provisional,
            context_files: Vec::new(),
        };
        let _ = self.conversation_manager.append(user);
        let mut appended: usize = 2;
        if p.failure.is_some() {
            let note = Message {
                role: MessageRole::System,
                content: String::from_str("Retrieval failed; answered without file context."),
                timestamp: now,
                provisional: p.provisional,
                context_files: Vec::new(),
            };
            let _ = self.conversation_manager.append(note);
            appended = 3;
        }
        let ghost files = strings_view(context_files@);
        let reply = Message {
            role: MessageRole::Assistant,
            content: answer.clone(),
            timestamp: now,
            provisional: p.provisional,
            context_files,
        };
        let _ = self.conversation_manager.append(reply);
        proof {
            let h = self.conversation_manager.history();
            assert(h.take(h0.len() as int) =~= h0);
        }
        TurnAction::Completed { answer, appended, flush: !p.provisional }
    }

    /// Starts a user turn. Fails while another turn is in flight (turns are
    /// served one at a time). With retrieval off the LLM is asked directly,
    /// with the transcript and the text; with it on, a retrieval round starts
    /// over a copy of the catalog. The turn takes the conversation's
    /// provisional mode, for the question and the answer alike.
    pub fn begin_turn(&mut self, content: String, now: i64) -> (r: Result<TurnAction, AppError>)
        requires
            old(self).wf(),
        ensures
            turn_begun(*old(self), *final(self), content@, r),
    {
        if self.pending.is_some() {
            return Err(AppError::Conversation(ConversationError::MessageProcessing(String::from_str("a turn is already in flight"))));
        }
        let provisional = self.conversation_manager.is_provisional_mode();
        if !self.rag_engine.is_enabled() {
            let prompt = self.direct_prompt(&content);
            self.pending = Some(PendingTurn { content, provisional, timestamp: now, direct: true, failure: None });
            return Ok(TurnAction::AskLlm(prompt));
        }
        let snapshot = self.file_manager.catalog_snapshot();
        let action = self.rag_engine.process_query(content.clone(), snapshot);
        self.pending = Some(PendingTurn { content, provisional, timestamp: now, direct: false, failure: None });
        match action {
            RagAction::AskLlm(m) => Ok(TurnAction::AskLlm(m)),
            _ => {
                proof {
                    assert(false);
                }
                Ok(TurnAction::Reply(String::new()))
            },
        }
    }

    /// Falls back to a direct answer after a failed retrieval round, noting
    /// the failure for the transcript.
    fn fall_back(&mut self, reason: RagError) -> (a: TurnAction)
        requires
            old(self).busy(),
            old(self).file_manager.wf(),
            at_rest(old(self).rag().state()),
        ensures
            final(self).wf(),
            fell_back(*old(self), *final(self), Ok(a)),
            final(self).files() == old(self).files(),
            final(self).rag() == old(self).rag(),
    {
        let mut p = self.pending.take().unwrap();
        let prompt = self.direct_prompt(&p.content);
        p.direct = true;
        p.failure = Some(reason);
        self.pending = Some(p);
        TurnAction::AskLlm(prompt)
    }

    /// Maps what the round asks for onto the turn. The final answer request
    /// carries the transcript before the retrieved context; a finished round
    /// ends the turn with its context files; a failed one falls back to a
    /// direct answer.
    fn follow_round(&mut self, action: RagAction, now: i64) -> (r: Result<TurnAction, AppError>)
        requires
            old(self).busy(),
            old(self).file_manager.wf(),
            !old(self).pending_direct(),
            !old(self).pending_failed(),
            action is Finish ==> old(self).rag().state() == RagState::Done,
            action is Abort ==> at_rest(old(self).rag().state()),
            !(action is Finish) && !(action is Abort) ==> in_flight(old(self).rag().state()),
            !(action is Disabled),
        ensures
            final(self).wf(),
            final(self).files() == old(self).files(),
            final(self).rag() == old(self).rag(),
            r is Ok,
            !(action is Finish) && !(action is Abort) ==> *final(self) == *old(self),
            action matches RagAction::AskLlm(m) ==> (old(self).rag().state() == RagState::AnswerRequested ==> (
                r matches Ok(TurnAction::AskLlm(x)) && history_then(x@, old(self).conversation().history(), m@)
                && x@.skip(old(self).conversation().history().len() as int) == m@)),
            action matches RagAction::AskLlm(m) ==> (old(self).rag().state() != RagState::AnswerRequested ==> (
                r matches Ok(TurnAction::AskLlm(x)) && x == m)),
            action matches RagAction::Search(k) ==> (r matches Ok(TurnAction::Search(x)) && x == k),
            action matches RagAction::ReadFiles(p) ==> (r matches Ok(TurnAction::ReadFiles(x)) && x == p),
            action matches RagAction::Finish(a) ==> finished(*old(self), *final(self), a@, paths_of(old(self).rag().ctx().file_contents@), r),
            action is Abort ==> fell_back(*old(self), *final(self), r),
    {
        match action {
            RagAction::AskLlm(m) => {
                if self.rag_engine.current_state() == RagState::AnswerRequested {
                    let ghost mm = m@;
                    let ghost n = self.conversation().history().len() as int;
                    let x = self.with_history(m);
                    assert forall|j: int| 0 <= j < mm.len() implies #[trigger] x@.skip(n)[j] == mm[j] by {
                        assert(x@[n + j] == mm[j]);
                    }
                    assert(x@.skip(n) =~= mm);
                    Ok(TurnAction::AskLlm(x))
                } else {
                    Ok(TurnAction::AskLlm(m))
                }
            },
            RagAction::Search(k) => Ok(TurnAction::Search(k)),
            RagAction::ReadFiles(p) => Ok(TurnAction::ReadFiles(p)),
            RagAction::Finish(answer) => {
                let files = self.rag_engine.context_files();
                Ok(self.complete(answer, files, now))
            },
            RagAction::Abort(reason) => Ok(self.fall_back(reason)),
            RagAction::Disabled => Err(AppError::Rag(RagError::NotIdle)),
        }
    }

    fn out_of_turn() -> (e: AppError) {
        AppError::Conversation(ConversationError::MessageProcessing(String::from_str("no step of a turn waits for this")))
    }

    /// Takes a reply of the LLM gateway for the turn in flight. For a direct
    /// answer the turn ends: recorded on success, dropped with the error on
    /// failure. Within a retrieval round the round takes it; a failed call
    /// fails the round, and the turn falls back to a direct answer instead of
    /// failing.
    pub fn on_llm_reply(&mut self, reply: Result<String, LlmError>, now: i64) -> (r: Result<TurnAction, AppError>)
        requires
            old(self).wf(),
        ensures
            final(self).wf(),
            final(self).files() == old(self).files(),
            !old(self).busy() ==> r is Err && *final(self) == *old(self),
            old(self).busy() && old(self).pending_direct() ==> !final(self).busy() && match reply {
                Ok(t) => finished(*old(self), *final(self), t@, Seq::empty(), r),
                Err(_) => r is Err && final(self).conversation() == old(self).conversation(),
            },
            old(self).busy() && !old(self).pending_direct() ==> (r is Ok <==> (old(self).rag().state() == RagState::KeywordsRequested
                || old(self).rag().state() == RagState::SelectionRequested || old(self).rag().state() == RagState::AnswerRequested)),
            old(self).busy() && !old(self).pending_direct() && reply is Err && r is Ok ==> fell_back(*old(self), *final(self), r)
                && final(self).rag().state() == RagState::Failed(RagError::GatewayUnavailable),
            old(self).busy() && !old(self).pending_direct() && old(self).rag().state() == RagState::KeywordsRequested ==> {
                let ks = tokens(reply_text(reply), true);
                &&& keywords_taken(old(self).rag(), final(self).rag(), reply)
                &&& (reply is Ok && ks.len() > 0 ==> (r matches Ok(TurnAction::Search(k)) && strings_view(k@) == ks))
                &&& (reply is Ok && ks.len() == 0 ==> (r matches Ok(TurnAction::AskLlm(m)) && answer_with_history(
                    m@, old(self).conversation().history(), old(self).rag().ctx().query@, Seq::empty())))
            },
            old(self).busy() && !old(self).pending_direct() && old(self).rag().state() == RagState::SelectionRequested ==> {
                let chosen = chosen_paths(old(self).rag().ctx().search_results@, reply_text(reply));
                &&& selection_taken(old(self).rag(), final(self).rag(), reply)
                &&& (reply is Ok && chosen.len() > 0 ==> (r matches Ok(TurnAction::ReadFiles(p)) && strings_view(p@) == chosen))
                &&& (reply is Ok && chosen.len() == 0 ==> (r matches Ok(TurnAction::AskLlm(m)) && answer_with_history(
                    m@, old(self).conversation().history(), old(self).rag().ctx().query@, Seq::empty())))
            },
            old(self).busy() && !old(self).pending_direct() && old(self).rag().state() == RagState::AnswerRequested ==> {
                &&& answer_taken(old(self).rag(), final(self).rag(), reply)
                &&& (reply matches Ok(t) ==> finished(*old(self), *final(self), t@, paths_of(old(self).rag().ctx().file_contents@), r))
            },
    {
        let direct = match &self.pending {
            None => {
                return Err(Self::out_of_turn());
            },
            Some(p) => p.direct,
        };
        if direct {
            match reply {
                Ok(t) => {
                    let none: Vec<String> = Vec::new();
                    assert(strings_view(none@) =~= Seq::<Seq<char>>::empty());
                    Ok(self.complete(t, none, now))
                },
                Err(e) => {
                    self.pending = None;
                    Err(AppError::Llm(e))
                },
            }
        } else {
            let ghost h = self.conversation().history();
            let ghost q = self.rag().ctx().query@;
            let action = match self.rag_engine.current_state() {
                RagState::KeywordsRequested => self.rag_engine.on_keywords(reply),
                RagState::SelectionRequested => self.rag_engine.on_selection(reply),
                RagState::AnswerRequested => self.rag_engine.on_answer(reply),
                _ => {
                    return Err(Self::out_of_turn());
                },
            };
            self.follow_round(action, now)
        }
    }

    /// Takes the search results for the round in flight and asks the LLM to
    /// choose among them.
    pub fn on_search_results(&mut self, results: Vec<SearchResult>, now: i64) -> (r: Result<TurnAction, AppError>)
        requires
            old(self).wf(),
        ensures
            final(self).wf(),
            final(self).files() == old(self).files(),
            final(self).conversation() == old(self).conversation(),
            old(self).rag().state() != RagState::Searching || !old(self).busy() ==> r is Err && *final(self) == *old(self),
            old(self).rag().state() == RagState::Searching && old(self).busy() ==> results_taken(old(self).rag(), final(self).rag(), results@)
                && (r matches Ok(TurnAction::AskLlm(m)) && selection_prompt_fits(m@, old(self).rag().ctx().query@, results@)),
    {
        if self.pending.is_none() || self.rag_engine.current_state() != RagState::Searching {
            return Err(Self::out_of_turn());
        }
        let action = self.rag_engine.on_search_results(results);
        self.follow_round(action, now)
    }

    /// Takes the contents of the selected files for the round in flight, one
    /// entry per selected path (`None` for a file that could not be read, which
    /// is dropped and noted), and asks for the final answer.
    pub fn on_file_contents(&mut self, contents: Vec<Option<String>>, now: i64) -> (r: Result<TurnAction, AppError>)
        requires
            old(self).wf(),
        ensures
            final(self).wf(),
            final(self).files() == old(self).files(),
            final(self).conversation() == old(self).conversation(),
            old(self).rag().state() != RagState::SelectionReceived || !old(self).busy()
                || contents@.len() != old(self).rag().ctx().selected_files@.len() ==> r is Err && *final(self) == *old(self),
            old(self).rag().state() == RagState::SelectionReceived && old(self).busy()
                && contents@.len() == old(self).rag().ctx().selected_files@.len() ==> contents_taken(old(self).rag(), final(self).rag(), contents@)
                && (r matches Ok(TurnAction::AskLlm(m)) && answer_with_history(
                    m@, old(self).conversation().history(), old(self).rag().ctx().query@, final(self).rag().ctx().file_contents@)),
    {
        if self.pending.is_none() || self.rag_engine.current_state() != RagState::SelectionReceived
            || contents.len() != self.rag_engine.context().selected_files.len() {
            return Err(Self::out_of_turn());
        }
        let ghost h = self.conversation().history();
        let action = self.rag_engine.on_file_contents(contents);
        self.follow_round(action, now)
    }

    /// The user cancelled the turn in flight. A round in flight fails with
    /// `Cancelled`, and like any failed round the turn falls back to a direct
    /// answer, with the failure noted. A direct answer that is cancelled drops
    /// the turn, recording nothing.
    pub fn cancel_turn(&mut self) -> (r: Result<TurnAction, AppError>)
        requires
            old(self).wf(),
        ensures
            final(self).wf(),
            final(self).files() == old(self).files(),
            !old(self).busy() ==> r is Err && *final(self) == *old(self),
            old(self).busy() && old(self).pending_direct() ==> !final(self).busy()
                && final(self).conversation() == old(self).conversation()
                && r == Err::<TurnAction, AppError>(AppError::Rag(RagError::Cancelled)),
            old(self).busy() && !old(self).pending_direct() ==> final(self).rag().state() == RagState::Failed(RagError::Cancelled)
                && fell_back(*old(self), *final(self), r),
    {
        if self.pending.is_none() {
            return Err(Self::out_of_turn());
        }
        if self.pending_is_direct() {
            self.pending = None;
            return Err(AppError::Rag(RagError::Cancelled));
        }
        self.rag_engine.cancel();
        Ok(self.fall_back(RagError::Cancelled))
    }

    /// Abandons the turn in flight altogether: its round, if any, fails with
    /// `Cancelled`, and nothing of the turn is recorded or answered.
    pub fn abandon_turn(&mut self)
        requires
            old(self).wf(),
        ensures
            final(self).wf(),
            !final(self).busy(),
            final(self).conversation() == old(self).conversation(),
            final(self).files() == old(self).files(),
            old(self).busy() && !old(self).pending_direct() ==> final(self).rag().state() == RagState::Failed(RagError::Cancelled),
    {
        self.rag_engine.cancel();
        self.pending = None;
    }

    /// The turn's deadline passed. A round in flight fails with
    /// `DeadlineExceeded` and the turn falls back to a direct answer; a
    /// direct answer that timed out drops the turn.
    pub fn deadline_passed(&mut self) -> (r: Result<TurnAction, AppError>)
        requires
            old(self).wf(),
        ensures
            final(self).wf(),
            final(self).files() == old(self).files(),
            !old(self).busy() ==> r is Err && *final(self) == *old(self),
            old(self).busy() && old(self).pending_direct() ==> !final(self).busy()
                && final(self).conversation() == old(self).conversation()
                && r == Err::<TurnAction, AppError>(AppError::Rag(RagError::DeadlineExceeded)),
            old(self).busy() && !old(self).pending_direct() ==> final(self).rag().state() == RagState::Failed(RagError::DeadlineExceeded)
                && fell_back(*old(self), *final(self), r),
    {
        if self.pending.is_none() {
            return Err(Self::out_of_turn());
        }
        if self.pending_is_direct() {
            self.pending = None;
            return Err(AppError::Rag(RagError::DeadlineExceeded));
        }
        self.rag_engine.deadline_passed();
        Ok(self.fall_back(RagError::DeadlineExceeded))
    }

    fn pending_is_direct(&self) -> (r: bool)
        ensures
            r == self.pending_direct(),
    {
        match &self.pending {
            Some(p) => p.direct,
            None => false,
        }
    }
}

} // verus!

verus! {

impl AppController {
    /// Carries out a command of the command surface and says what was done.
    /// `probe` is what the file system says of the path of `AddSource`
    /// (`None`: it does not exist); `now` is the current time.
    pub fn handle_command(&mut self, command: Command, probe: Option<SourceType>, now: i64) -> (r: Result<String, AppError>)
        requires
            old(self).wf(),
        ensures
            command_effect(*old(self), *final(self), command, probe, r),
    {
        match command {
            Command::Help => Ok(String::from_str(
                "Help: Available commands: /help, /config, /clear, /toggle-rag, /toggle-provisional, /add-source, /remove-source, /list-sources, /exit",
            )),
            Command::Config => Ok(String::from_str("Configuration is read from config.toml at startup.")),
            Command::Clear => {
                if self.pending.is_some() {
                    self.rag_engine.cancel();
                    self.pending = None;
                }
                self.conversation_manager.clear_conversation();
                Ok(String::from_str("Conversation cleared"))
            },
            Command::ToggleRag => {
                self.rag_engine.toggle_enabled();
                if self.rag_engine.is_enabled() {
                    Ok(String::from_str("RAG enabled"))
                } else {
                    Ok(String::from_str("RAG disabled"))
                }
            },
            Command::ToggleProvisional => {
                self.conversation_manager.toggle_provisional_mode();
                if self.conversation_manager.is_provisional_mode() {
                    Ok(String::from_str("Provisional mode on"))
                } else {
                    Ok(String::from_str("Provisional mode off"))
                }
            },
            Command::AddSource(path) => {
                let text = crate::text::concat("Added source: ", path.as_str());
                match self.file_manager.add_source(path, probe, now) {
                    Ok(()) => Ok(text),
                    Err(e) => Err(AppError::FileSystem(e)),
                }
            },
            Command::RemoveSource(path) => {
                let _ = self.file_manager.remove_source(&path);
                Ok(crate::text::concat("Removed source: ", path.as_str()))
            },
            Command::ListSources => {
                let sources = self.file_manager.list_sources();
                let mut text = String::from_str("Data sources:");
                let mut i: usize = 0;
                while i < sources.len()
                    invariant
                        i <= sources@.len(),
                        text@ == "Data sources:"@ + source_listing(sources@.take(i as int)),
                    decreases sources@.len() - i,
                {
                    assert(sources@.take(i + 1).drop_last() =~= sources@.take(i as int));
                    text.append("\n");
                    text.append(sources[i].path.as_str());
                    assert(text@ =~= "Data sources:"@ + source_listing(sources@.take(i + 1)));
                    i = i + 1;
                }
                assert(sources@.take(sources@.len() as int) =~= sources@);
                Ok(text)
            },
            Command::Exit => Ok(String::from_str("Exiting application")),
        }
    }

    /// Routes one input: a message starts a turn (as `begin_turn`), a command
    /// is carried out (as `handle_command`, its text as `Reply`), a key press
    /// needs nothing here.
    pub fn process_user_input(&mut self, input: UserInput, probe: Option<SourceType>, now: i64) -> (r: Result<TurnAction, AppError>)
        requires
            old(self).wf(),
        ensures
            final(self).wf(),
            input matches UserInput::Message(s) ==> turn_begun(*old(self), *final(self), s@, r),
            input matches UserInput::Command(c) ==> command_effect(*old(self), *final(self), c, probe, as_command_result(r))
                && (r is Ok ==> (r matches Ok(TurnAction::Reply(_)))),
            input is KeyAction ==> *final(self) == *old(self) && (r matches Ok(TurnAction::Reply(_))),
    {
        match input {
            UserInput::Message(content) => self.begin_turn(content, now),
            UserInput::Command(command) => match self.handle_command(command, probe, now) {
                Ok(text) => Ok(TurnAction::Reply(text)),
                Err(e) => Err(e),
            },
            UserInput::KeyAction(_) => Ok(TurnAction::Reply(String::from_str("Key action handled"))),
        }
    }
}

} // verus!

verus! {

proof fn lemma_provisional_tail(h: Seq<Message>, n: int)
    requires
        0 <= n <= h.len(),
        forall|i: int| n <= i < h.len() ==> (#[trigger] h[i]).provisional,
    ensures
        persisted(h) == persisted(h.take(n)),
    decreases h.len() - n,
{
    if h.len() > n {
        let d = h.drop_last();
        assert forall|i: int| n <= i < d.len() implies (#[trigger] d[i]).provisional by {
            assert(d[i] == h[i]);
        }
        lemma_provisional_tail(d, n);
        assert(d.take(n) =~= h.take(n));
    } else {
        assert(h.take(n) =~= h);
    }
}

/// A provisional exchange leaves storage untouched: recording a turn with
/// the provisional flag changes nothing of what a reload would bring back.
pub proof fn lemma_provisional_turn_not_persisted(
    before: Seq<Message>,
    after: Seq<Message>,
    content: Seq<char>,
    failed: bool,
    answer: Seq<char>,
    context_files: Seq<Seq<char>>,
)
    requires
        turn_recorded(before, after, content, true, failed, answer, context_files),
    ensures
        persisted(after) == persisted(before),
{
    lemma_provisional_tail(after, before.len() as int);
}

} // verus!
