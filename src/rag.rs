use vstd::prelude::*;
use crate::prompt::{answer_prompt, answer_prompt_fits, keyword_prompt, keyword_prompt_fits, selection_prompt, selection_prompt_fits};
use crate::text::{chars_of, count_occurrences, occurrences, split_tokens, tokens};
use crate::types::{copy_strings, FileInfo, LlmError, Message, RagContext, RagError, SearchResult};

verus! {

/// The default bound on assembled file contents, in characters.
pub const DEFAULT_CONTEXT_BUDGET: usize = 100000;

/// Where a retrieval round stands.
#[derive(Clone, Copy, Debug, PartialEq, Eq, Structural)]
pub enum RagState {
    Idle,
    KeywordsRequested,
    KeywordsReceived,
    Searching,
    SelectionRequested,
    SelectionReceived,
    ContextAssembled,
    AnswerRequested,
    Done,
    Failed(RagError),
}

/// What the round needs done next by the one who drives it.
#[derive(Debug)]
pub enum RagAction {
    /// Retrieval is off: answer without it.
    Disabled,
    /// Send these messages to the LLM gateway and report the reply.
    AskLlm(Vec<Message>),
    /// Search the catalog for these keywords and report the results.
    Search(Vec<String>),
    /// Read these files in full and report each content, or its absence.
    ReadFiles(Vec<String>),
    /// The round is done: this is the answer.
    Finish(String),
    /// The round failed.
    Abort(RagError),
}

/// The paths of the results that the reply names, in ranking order.
pub open spec fn chosen_paths(results: Seq<SearchResult>, reply: Seq<char>) -> Seq<Seq<char>>
    decreases results.len(),
{
    if results.len() == 0 {
        Seq::<Seq<char>>::empty()
    } else {
        let before = chosen_paths(results.drop_last(), reply);
        let p = results.last().file_path@;
        if occurrences(p, reply) > 0 && p.len() > 0 {
            before.push(p)
        } else {
            before
        }
    }
}

/// The files that could be read, as (path, content), in selection order.
pub open spec fn readable(paths: Seq<Seq<char>>, contents: Seq<Option<String>>) -> Seq<(Seq<char>, Seq<char>)>
    decreases contents.len(),
{
    if contents.len() == 0 || paths.len() < contents.len() {
        Seq::<(Seq<char>, Seq<char>)>::empty()
    } else {
        let before = readable(paths, contents.drop_last());
        match contents.last() {
            Some(c) => before.push((paths[contents.len() - 1], c@)),
            None => before,
        }
    }
}

/// The files that could not be read, in selection order.
pub open spec fn unreadable(paths: Seq<Seq<char>>, contents: Seq<Option<String>>) -> Seq<Seq<char>>
    decreases contents.len(),
{
    if contents.len() == 0 || paths.len() < contents.len() {
        Seq::<Seq<char>>::empty()
    } else {
        let before = unreadable(paths, contents.drop_last());
        match contents.last() {
            Some(c) => before,
            None => before.push(paths[contents.len() - 1]),
        }
    }
}

/// The longest prefix of `files` whose contents fit in `budget` characters
/// all together: the least relevant files go first, and no file is cut.
pub open spec fn within_budget(files: Seq<(Seq<char>, Seq<char>)>, budget: nat) -> Seq<(Seq<char>, Seq<char>)>
    decreases files.len(),
{
    if files.len() == 0 {
        files
    } else if files[0].1.len() <= budget {
        seq![files[0]] + within_budget(files.drop_first(), (budget - files[0].1.len()) as nat)
    } else {
        Seq::<(Seq<char>, Seq<char>)>::empty()
    }
}

pub open spec fn pairs_view(v: Seq<(String, String)>) -> Seq<(Seq<char>, Seq<char>)> {
    v.map_values(|p: (String, String)| (p.0@, p.1@))
}

/// The paths of (path, content) pairs.
pub open spec fn paths_of(v: Seq<(String, String)>) -> Seq<Seq<char>> {
    v.map_values(|p: (String, String)| p.0@)
}

pub open spec fn strings_view(v: Seq<String>) -> Seq<Seq<char>> {
    v.map_values(|s: String| s@)
}

/// Whether a round in this state has not started or is over.
pub open spec fn at_rest(s: RagState) -> bool {
    s == RagState::Idle || s == RagState::Done || s is Failed
}

/// Runs the retrieval protocol, one step per event. It is not reentrant: a
/// round starts only when the previous one is over.
pub struct RagEngine {
    enabled: bool,
    state: RagState,
    context: RagContext,
    budget: usize,
}

fn empty_context(query: String) -> (c: RagContext)
    ensures
        c.query@ == query@,
        c.available_files@.len() == 0,
        c.keywords@.len() == 0,
        c.search_results@.len() == 0,
        c.selected_files@.len() == 0,
        c.file_contents@.len() == 0,
        c.unreadable_files@.len() == 0,
{
    RagContext {
        query,
        available_files: Vec::new(),
        keywords: Vec::new(),
        search_results: Vec::new(),
        selected_files: Vec::new(),
        file_contents: Vec::new(),
        unreadable_files: Vec::new(),
    }
}

/// The text of a gateway reply; empty for a failed call.
pub open spec fn reply_text(reply: Result<String, LlmError>) -> Seq<char> {
    match reply {
        Ok(t) => t@,
        Err(_) => Seq::<char>::empty(),
    }
}

/// The state after a gateway reply: a failed call fails the round.
pub open spec fn failed_by(reply: Result<String, LlmError>, s: RagState) -> bool {
    reply is Err && s == RagState::Failed(RagError::GatewayUnavailable)
}

impl RagEngine {
    pub closed spec fn state(&self) -> RagState {
        self.state
    }

    pub closed spec fn ctx(&self) -> RagContext {
        self.context
    }

    pub closed spec fn enabled(&self) -> bool {
        self.enabled
    }

    pub closed spec fn budget(&self) -> nat {
        self.budget as nat
    }

    /// An idle engine, with retrieval off and the default budget.
    pub fn new() -> (r: Self)
        ensures
            r.state() == RagState::Idle,
            !r.enabled(),
            r.budget() == DEFAULT_CONTEXT_BUDGET,
    {
        RagEngine {
            enabled: false,
            state: RagState::Idle,
            context: empty_context(String::new()),
            budget: DEFAULT_CONTEXT_BUDGET,
        }
    }

    /// Sets the bound on assembled file contents, in characters.
    pub fn set_context_budget(&mut self, budget: usize)
        ensures
            final(self).budget() == budget,
            final(self).state() == old(self).state(),
            final(self).enabled() == old(self).enabled(),
            final(self).ctx() == old(self).ctx(),
    {
        self.budget = budget;
    }

    /// Turns retrieval on or off.
    pub fn toggle_enabled(&mut self)
        ensures
            final(self).enabled() == !old(self).enabled(),
            final(self).state() == old(self).state(),
            final(self).ctx() == old(self).ctx(),
            final(self).budget() == old(self).budget(),
    {
        self.enabled = !self.enabled;
    }

    pub fn is_enabled(&self) -> (r: bool)
        ensures
            r == self.enabled(),
    {
        self.enabled
    }

    /// Where the round stands.
    pub fn current_state(&self) -> (r: RagState)
        ensures
            r == self.state(),
    {
        self.state
    }

    /// The working state of the current (or last) round.
    pub fn context(&self) -> (r: &RagContext)
        ensures
            *r == self.ctx(),
    {
        &self.context
    }

    /// Starts a round for `query` over the catalog snapshot `available`.
    /// With retrieval off the context is the query alone and no round starts. Otherwise the LLM is asked for
    /// keywords, shown only the paths and types of the files.
    pub fn process_query(&mut self, query: String, available: Vec<FileInfo>) -> (a: RagAction)
        requires
            at_rest(old(self).state()),
        ensures
            final(self).enabled() == old(self).enabled(),
            final(self).budget() == old(self).budget(),
            !old(self).enabled() ==> a is Disabled && final(self).state() == old(self).state()
                && final(self).ctx().query@ == query@
                && final(self).ctx().available_files@.len() == 0
                && final(self).ctx().keywords@.len() == 0
                && final(self).ctx().search_results@.len() == 0
                && final(self).ctx().selected_files@.len() == 0
                && final(self).ctx().file_contents@.len() == 0
                && final(self).ctx().unreadable_files@.len() == 0,
            old(self).enabled() ==> final(self).state() == RagState::KeywordsRequested
                && final(self).ctx().query@ == query@
                && final(self).ctx().available_files@ == available@
                && final(self).ctx().keywords@.len() == 0
                && final(self).ctx().search_results@.len() == 0
                && final(self).ctx().selected_files@.len() == 0
                && final(self).ctx().file_contents@.len() == 0
                && final(self).ctx().unreadable_files@.len() == 0
                && (a matches RagAction::AskLlm(m) && keyword_prompt_fits(m@, query@, available@)),
    {
        if !self.enabled {
            self.context = empty_context(query);
            return RagAction::Disabled;
        }
        let prompt = keyword_prompt(&query, &available);
        let mut ctx = empty_context(query);
        ctx.available_files = available;
        self.context = ctx;
        self.state = RagState::KeywordsRequested;
        RagAction::AskLlm(prompt)
    }

    /// Moves to the answer request with no file contents.
    fn answer_without_files(&mut self) -> (a: RagAction)
        ensures
            final(self).state() == RagState::AnswerRequested,
            final(self).ctx() == (RagContext { file_contents: final(self).ctx().file_contents, ..old(self).ctx() }),
            final(self).ctx().file_contents@.len() == 0,
            final(self).enabled() == old(self).enabled(),
            final(self).budget() == old(self).budget(),
            a matches RagAction::AskLlm(m) && answer_prompt_fits(m@, old(self).ctx().query@, Seq::empty()),
    {
        self.context.file_contents = Vec::new();
        self.state = RagState::AnswerRequested;
        let prompt = answer_prompt(&self.context.query, &self.context.file_contents);
        assert(self.context.file_contents@ =~= Seq::<(String, String)>::empty());
        RagAction::AskLlm(prompt)
    }

    /// Takes the LLM's keyword reply. A failed call fails the round. The
    /// keywords are the reply's tokens (split at white space, `,`, `;` and
    /// `"`); with none, the round goes straight to the answer with no
    /// context, otherwise the catalog is searched for them.
    pub fn on_keywords(&mut self, reply: Result<String, LlmError>) -> (a: RagAction)
        requires
            old(self).state() == RagState::KeywordsRequested,
        ensures
            keywords_taken(*old(self), *final(self), reply),
            final(self).enabled() == old(self).enabled(),
            final(self).budget() == old(self).budget(),
            final(self).ctx().query == old(self).ctx().query,
            failed_by(reply, final(self).state()) <==> reply is Err,
            reply is Err ==> a == RagAction::Abort(RagError::GatewayUnavailable)
                && final(self).ctx() == old(self).ctx(),
            reply matches Ok(t) ==> strings_view(final(self).ctx().keywords@) == tokens(t@, true),
            reply is Ok && tokens(reply_text(reply), true).len() == 0 ==> final(self).state() == RagState::AnswerRequested
                && final(self).ctx().file_contents@.len() == 0
                && (a matches RagAction::AskLlm(m) && answer_prompt_fits(m@, old(self).ctx().query@, Seq::empty())),
            reply is Ok && tokens(reply_text(reply), true).len() > 0 ==> final(self).state() == RagState::Searching
                && (a matches RagAction::Search(k) && strings_view(k@) == tokens(reply_text(reply), true)),
    {
        match reply {
            Err(_) => {
                self.state = RagState::Failed(RagError::GatewayUnavailable);
                RagAction::Abort(RagError::GatewayUnavailable)
            },
            Ok(t) => {
                self.state = RagState::KeywordsReceived;
                let ks = split_tokens(t.as_str(), true);
                let ks2 = copy_strings(&ks);
                assert(strings_view(ks@) =~= tokens(t@, true));
                assert(strings_view(ks2@) =~= tokens(t@, true));
                self.context.keywords = ks;
                if ks2.len() == 0 {
                    self.answer_without_files()
                } else {
                    self.state = RagState::Searching;
                    RagAction::Search(ks2)
                }
            },
        }
    }

    /// Takes the search results and asks the LLM which files to read,
    /// showing it paths, scores and snippets only.
    pub fn on_search_results(&mut self, results: Vec<SearchResult>) -> (a: RagAction)
        requires
            old(self).state() == RagState::Searching,
        ensures
            results_taken(*old(self), *final(self), results@),
            final(self).enabled() == old(self).enabled(),
            final(self).budget() == old(self).budget(),
            final(self).state() == RagState::SelectionRequested,
            final(self).ctx() == (RagContext { search_results: results, ..old(self).ctx() }),
            a matches RagAction::AskLlm(m) && selection_prompt_fits(m@, old(self).ctx().query@, results@),
    {
        let prompt = selection_prompt(&self.context.query, &results);
        self.context.search_results = results;
        self.state = RagState::SelectionRequested;
        RagAction::AskLlm(prompt)
    }

    /// The paths of the search results that `reply` names.
    fn chosen(&self, reply: &String) -> (r: Vec<String>)
        ensures
            strings_view(r@) == chosen_paths(self.ctx().search_results@, reply@),
    {
        let rs = &self.context.search_results;
        let text = chars_of(reply.as_str());
        let mut out: Vec<String> = Vec::new();
        let mut i: usize = 0;
        while i < rs.len()
            invariant
                i <= rs@.len(),
                *rs == self.ctx().search_results,
                text@ == reply@,
                strings_view(out@) == chosen_paths(rs@.take(i as int), reply@),
            decreases rs@.len() - i,
        {
            assert(rs@.take(i + 1).drop_last() =~= rs@.take(i as int));
            let p = chars_of(rs[i].file_path.as_str());
            if p.len() > 0 && count_occurrences(&p, &text) > 0 {
                let ghost before = out@;
                out.push(rs[i].file_path.clone());
                assert(strings_view(out@) =~= strings_view(before).push(rs@[i as int].file_path@));
            }
            i = i + 1;
        }
        assert(rs@.take(rs@.len() as int) =~= rs@);
        out
    }

    /// Takes the LLM's selection reply. A failed call fails the round. The
    /// selected files are the search results whose path the reply names; with
    /// none, the round goes to the answer with no context, otherwise those
    /// files are to be read.
    pub fn on_selection(&mut self, reply: Result<String, LlmError>) -> (a: RagAction)
        requires
            old(self).state() == RagState::SelectionRequested,
        ensures
            selection_taken(*old(self), *final(self), reply),
            final(self).enabled() == old(self).enabled(),
            final(self).budget() == old(self).budget(),
            final(self).ctx().query == old(self).ctx().query,
            final(self).ctx().search_results == old(self).ctx().search_results,
            failed_by(reply, final(self).state()) <==> reply is Err,
            reply is Err ==> a == RagAction::Abort(RagError::GatewayUnavailable)
                && final(self).ctx() == old(self).ctx(),
            reply matches Ok(t) ==> strings_view(final(self).ctx().selected_files@) == chosen_paths(old(self).ctx().search_results@, t@),
            reply is Ok && chosen_paths(old(self).ctx().search_results@, reply_text(reply)).len() == 0 ==> final(self).state() == RagState::AnswerRequested
                && final(self).ctx().file_contents@.len() == 0
                && (a matches RagAction::AskLlm(m) && answer_prompt_fits(m@, old(self).ctx().query@, Seq::empty())),
            reply is Ok && chosen_paths(old(self).ctx().search_results@, reply_text(reply)).len() > 0 ==> final(self).state() == RagState::SelectionReceived
                && (a matches RagAction::ReadFiles(ps) && strings_view(ps@) == chosen_paths(old(self).ctx().search_results@, reply_text(reply))),
    {
        match reply {
            Err(_) => {
                self.state = RagState::Failed(RagError::GatewayUnavailable);
                RagAction::Abort(RagError::GatewayUnavailable)
            },
            Ok(t) => {
                let sel = self.chosen(&t);
                let sel2 = copy_strings(&sel);
                assert(strings_view(sel2@) =~= strings_view(sel@));
                self.context.selected_files = sel;
                if sel2.len() == 0 {
                    self.answer_without_files()
                } else {
                    self.state = RagState::SelectionReceived;
                    RagAction::ReadFiles(sel2)
                }
            },
        }
    }

    /// Takes what reading the selected files gave, one entry per selected
    /// path: the text, or `None` when the file could not be read. Unreadable
    /// files are dropped and recorded, not fatal. The readable ones, most
    /// relevant first, are kept as long as their total size stays within the
    /// budget; then the LLM is asked for the answer with them as context.
    pub fn on_file_contents(&mut self, contents: Vec<Option<String>>) -> (a: RagAction)
        requires
            old(self).state() == RagState::SelectionReceived,
            contents@.len() == old(self).ctx().selected_files@.len(),
        ensures
            contents_taken(*old(self), *final(self), contents@),
            final(self).enabled() == old(self).enabled(),
            final(self).budget() == old(self).budget(),
            final(self).state() == RagState::AnswerRequested,
            final(self).ctx() == (RagContext {
                file_contents: final(self).ctx().file_contents,
                unreadable_files: final(self).ctx().unreadable_files,
                ..old(self).ctx()
            }),
            strings_view(final(self).ctx().unreadable_files@) == unreadable(strings_view(old(self).ctx().selected_files@), contents@),
            pairs_view(final(self).ctx().file_contents@) == within_budget(
                readable(strings_view(old(self).ctx().selected_files@), contents@),
                old(self).budget(),
            ),
            a matches RagAction::AskLlm(m) && answer_prompt_fits(m@, old(self).ctx().query@, final(self).ctx().file_contents@),
    {
        self.state = RagState::ContextAssembled;
        let ghost sel = strings_view(self.context.selected_files@);
        let mut rd: Vec<(String, String)> = Vec::new();
        let mut missing: Vec<String> = Vec::new();
        let mut i: usize = 0;
        while i < contents.len()
            invariant
                i <= contents@.len(),
                contents@.len() == self.context.selected_files@.len(),
                sel == strings_view(self.context.selected_files@),
                pairs_view(rd@) == readable(sel, contents@.take(i as int)),
                strings_view(missing@) == unreadable(sel, contents@.take(i as int)),
            decreases contents@.len() - i,
        {
            assert(contents@.take(i + 1).drop_last() =~= contents@.take(i as int));
            let path = self.context.selected_files[i].clone();
            match &contents[i] {
                Some(c) => {
                    let ghost before = rd@;
                    rd.push((path, c.clone()));
                    assert(pairs_view(rd@) =~= pairs_view(before).push((sel[i as int], c@)));
                },
                None => {
                    let ghost before = missing@;
                    missing.push(path);
                    assert(strings_view(missing@) =~= strings_view(before).push(sel[i as int]));
                },
            }
            i = i + 1;
        }
        assert(contents@.take(contents@.len() as int) =~= contents@);
        let ghost all = pairs_view(rd@);
        let mut rem: usize = self.budget;
        let mut kept: Vec<(String, String)> = Vec::new();
        let mut stop = false;
        let mut i: usize = 0;
        assert(all.skip(0) =~= all);
        while i < rd.len() && !stop
            invariant
                i <= rd@.len(),
                all == pairs_view(rd@),
                within_budget(all, self.budget as nat) == pairs_view(kept@) + if stop {
                    Seq::<(Seq<char>, Seq<char>)>::empty()
                } else {
                    within_budget(all.skip(i as int), rem as nat)
                },
            decreases rd@.len() - i, if stop { 0int } else { 1int },
        {
            let n = rd[i].1.as_str().unicode_len();
            assert(all.skip(i as int)[0] == all[i as int]);
            assert(all.skip(i as int).drop_first() =~= all.skip(i + 1));
            if n <= rem {
                let ghost before = kept@;
                kept.push((rd[i].0.clone(), rd[i].1.clone()));
                assert(pairs_view(kept@) =~= pairs_view(before).push(all[i as int]));
                rem = rem - n;
                i = i + 1;
            } else {
                stop = true;
            }
        }
        proof {
            if !stop {
                assert(all.skip(i as int) =~= Seq::<(Seq<char>, Seq<char>)>::empty());
            }
        }
        assert(within_budget(all, self.budget as nat) =~= pairs_view(kept@));
        self.context.unreadable_files = missing;
        self.context.file_contents = kept;
        self.state = RagState::AnswerRequested;
        let prompt = answer_prompt(&self.context.query, &self.context.file_contents);
        RagAction::AskLlm(prompt)
    }

    /// Takes the LLM's answer. A failed call fails the round; otherwise the
    /// round is done and the answer is handed on.
    pub fn on_answer(&mut self, reply: Result<String, LlmError>) -> (a: RagAction)
        requires
            old(self).state() == RagState::AnswerRequested,
        ensures
            answer_taken(*old(self), *final(self), reply),
            reply is Err ==> a == RagAction::Abort(RagError::GatewayUnavailable),
            reply matches Ok(t) ==> (a matches RagAction::Finish(x) && x@ == t@),
    {
        match reply {
            Err(_) => {
                self.state = RagState::Failed(RagError::GatewayUnavailable);
                RagAction::Abort(RagError::GatewayUnavailable)
            },
            Ok(t) => {
                self.state = RagState::Done;
                RagAction::Finish(t)
            },
        }
    }

    /// Stops a round in flight: it fails with `reason` and its working state
    /// is dropped. A round at rest is left as it is.
    fn stop_round(&mut self, reason: RagError)
        ensures
            final(self).enabled() == old(self).enabled(),
            final(self).budget() == old(self).budget(),
            at_rest(old(self).state()) ==> final(self).state() == old(self).state() && final(self).ctx() == old(self).ctx(),
            !at_rest(old(self).state()) ==> final(self).state() == RagState::Failed(reason)
                && final(self).ctx().query@.len() == 0
                && final(self).ctx().file_contents@.len() == 0
                && final(self).ctx().selected_files@.len() == 0
                && final(self).ctx().search_results@.len() == 0,
    {
        let rest = match self.state {
            RagState::Idle => true,
            RagState::Done => true,
            RagState::Failed(_) => true,
            _ => false,
        };
        if !rest {
            self.context = empty_context(String::new());
            self.state = RagState::Failed(reason);
        }
    }

    /// The user cancelled: a round in flight fails with `Cancelled` and
    /// keeps nothing of its working state.
    pub fn cancel(&mut self)
        ensures
            final(self).enabled() == old(self).enabled(),
            at_rest(old(self).state()) ==> final(self).state() == old(self).state(),
            !at_rest(old(self).state()) ==> final(self).state() == RagState::Failed(RagError::Cancelled)
                && final(self).ctx().file_contents@.len() == 0,
    {
        self.stop_round(RagError::Cancelled);
    }

    /// The round's deadline passed: a round in flight fails with
    /// `DeadlineExceeded` and keeps nothing of its working state.
    pub fn deadline_passed(&mut self)
        ensures
            final(self).enabled() == old(self).enabled(),
            at_rest(old(self).state()) ==> final(self).state() == old(self).state(),
            !at_rest(old(self).state()) ==> final(self).state() == RagState::Failed(RagError::DeadlineExceeded)
                && final(self).ctx().file_contents@.len() == 0,
    {
        self.stop_round(RagError::DeadlineExceeded);
    }

    /// The paths whose contents informed the answer, most relevant first.
    pub fn context_files(&self) -> (r: Vec<String>)
        ensures
            strings_view(r@) == paths_of(self.ctx().file_contents@),
    {
        let fs = &self.context.file_contents;
        let mut out: Vec<String> = Vec::new();
        let mut i: usize = 0;
        while i < fs.len()
            invariant
                i <= fs@.len(),
                *fs == self.ctx().file_contents,
                strings_view(out@) == paths_of(fs@.take(i as int)),
            decreases fs@.len() - i,
        {
            let ghost before = out@;
            out.push(fs[i].0.clone());
            assert(fs@.take(i + 1) =~= fs@.take(i as int).push(fs@[i as int]));
            assert(paths_of(fs@.take(i + 1)) =~= paths_of(fs@.take(i as int)).push(fs@[i as int].0@));
            assert(strings_view(out@) =~= strings_view(before).push(fs@[i as int].0@));
            i = i + 1;
        }
        assert(fs@.take(fs@.len() as int) =~= fs@);
        out
    }
}

/// What taking the search results does to the engine.
pub open spec fn results_taken(before: RagEngine, after: RagEngine, results: Seq<SearchResult>) -> bool {
    &&& after.enabled() == before.enabled()
    &&& after.budget() == before.budget()
    &&& after.state() == RagState::SelectionRequested
    &&& after.ctx().query == before.ctx().query
    &&& after.ctx().search_results@ == results
    &&& after.ctx().selected_files == before.ctx().selected_files
    &&& after.ctx().file_contents == before.ctx().file_contents
}

/// What taking the selection reply does to the engine.
pub open spec fn selection_taken(before: RagEngine, after: RagEngine, reply: Result<String, LlmError>) -> bool {
    let chosen = chosen_paths(before.ctx().search_results@, reply_text(reply));
    &&& after.enabled() == before.enabled()
    &&& after.budget() == before.budget()
    &&& (reply is Err ==> after.state() == RagState::Failed(RagError::GatewayUnavailable) && after.ctx() == before.ctx())
    &&& (reply is Ok ==> strings_view(after.ctx().selected_files@) == chosen && after.ctx() == (RagContext {
        selected_files: after.ctx().selected_files,
        file_contents: after.ctx().file_contents,
        ..before.ctx()
    }))
    &&& (reply is Ok && chosen.len() == 0 ==> after.state() == RagState::AnswerRequested
        && after.ctx().file_contents@.len() == 0)
    &&& (reply is Ok && chosen.len() > 0 ==> after.state() == RagState::SelectionReceived)
}

/// What taking the file contents does to the engine.
pub open spec fn contents_taken(before: RagEngine, after: RagEngine, contents: Seq<Option<String>>) -> bool {
    &&& after.enabled() == before.enabled()
    &&& after.budget() == before.budget()
    &&& after.state() == RagState::AnswerRequested
    &&& after.ctx() == (RagContext {
        file_contents: after.ctx().file_contents,
        unreadable_files: after.ctx().unreadable_files,
        ..before.ctx()
    })
    &&& strings_view(after.ctx().unreadable_files@) == unreadable(strings_view(before.ctx().selected_files@), contents)
    &&& pairs_view(after.ctx().file_contents@) == within_budget(
        readable(strings_view(before.ctx().selected_files@), contents),
        before.budget(),
    )
}

/// What taking the answer reply does to the engine.
pub open spec fn answer_taken(before: RagEngine, after: RagEngine, reply: Result<String, LlmError>) -> bool {
    &&& after.enabled() == before.enabled()
    &&& after.budget() == before.budget()
    &&& after.ctx() == before.ctx()
    &&& (reply is Err ==> after.state() == RagState::Failed(RagError::GatewayUnavailable))
    &&& (reply is Ok ==> after.state() == RagState::Done)
}

/// What taking the keyword reply does to the engine's state and context.
pub open spec fn keywords_taken(before: RagEngine, after: RagEngine, reply: Result<String, LlmError>) -> bool {
    &&& after.enabled() == before.enabled()
    &&& after.budget() == before.budget()
    &&& after.ctx().query == before.ctx().query
    &&& (reply is Err ==> after.state() == RagState::Failed(RagError::GatewayUnavailable) && after.ctx() == before.ctx())
    &&& (reply is Ok ==> strings_view(after.ctx().keywords@) == tokens(reply_text(reply), true))
    &&& (reply is Ok ==> after.ctx() == (RagContext {
        keywords: after.ctx().keywords,
        file_contents: after.ctx().file_contents,
        ..before.ctx()
    }))
    &&& (reply is Ok && tokens(reply_text(reply), true).len() == 0 ==> after.state() == RagState::AnswerRequested
        && after.ctx().file_contents@.len() == 0)
    &&& (reply is Ok && tokens(reply_text(reply), true).len() > 0 ==> after.state() == RagState::Searching)
}

/// When the keyword reply holds no keyword, the round does not fail: it goes
/// straight to the answer, with no search and no selection (those parts of
/// the context stay as the round started them), and once the answer comes it
/// is done with no file contents.
pub proof fn lemma_no_keywords_still_done(
    e0: RagEngine,
    e1: RagEngine,
    e2: RagEngine,
    reply: Result<String, LlmError>,
    answer: Result<String, LlmError>,
)
    requires
        e0.state() == RagState::KeywordsRequested,
        keywords_taken(e0, e1, reply),
        reply is Ok,
        tokens(reply_text(reply), true).len() == 0,
        answer_taken(e1, e2, answer),
        answer is Ok,
    ensures
        e1.state() == RagState::AnswerRequested,
        e2.state() == RagState::Done,
        e2.ctx().file_contents@.len() == 0,
        e2.ctx().search_results == e0.ctx().search_results,
        e2.ctx().selected_files == e0.ctx().selected_files,
{
}

} // verus!

verus! {

/// The text of a read, if it succeeded.
pub open spec fn text_of(o: Option<String>) -> Option<Seq<char>> {
    match o {
        Some(c) => Some(c@),
        None => None,
    }
}

/// Whether `pair` is the path `paths[i]` with the text read for it, for
/// some `i`.
pub open spec fn read_from(pair: (Seq<char>, Seq<char>), paths: Seq<Seq<char>>, contents: Seq<Option<String>>) -> bool {
    exists|i: int| 0 <= i < contents.len() && i < paths.len() && pair.0 == #[trigger] paths[i] && text_of(contents[i]) == Some(pair.1)
}

proof fn lemma_within_budget_prefix(files: Seq<(Seq<char>, Seq<char>)>, budget: nat)
    ensures
        within_budget(files, budget).len() <= files.len(),
        forall|k: int| 0 <= k < within_budget(files, budget).len() ==> #[trigger] within_budget(files, budget)[k] == files[k],
    decreases files.len(),
{
    if files.len() > 0 && files[0].1.len() <= budget {
        let rest = files.drop_first();
        let b2 = (budget - files[0].1.len()) as nat;
        lemma_within_budget_prefix(rest, b2);
        let w = within_budget(files, budget);
        assert forall|k: int| 0 <= k < w.len() implies #[trigger] w[k] == files[k] by {
            if k > 0 {
                assert(w[k] == within_budget(rest, b2)[k - 1]);
            }
        }
    }
}

proof fn lemma_readable_from(paths: Seq<Seq<char>>, contents: Seq<Option<String>>)
    requires
        paths.len() >= contents.len(),
    ensures
        forall|k: int| 0 <= k < readable(paths, contents).len() ==> read_from(#[trigger] readable(paths, contents)[k], paths, contents),
    decreases contents.len(),
{
    if contents.len() > 0 {
        let before = contents.drop_last();
        lemma_readable_from(paths, before);
        let rd = readable(paths, contents);
        let rb = readable(paths, before);
        assert forall|k: int| 0 <= k < rd.len() implies read_from(#[trigger] rd[k], paths, contents) by {
            if k < rb.len() {
                assert(rd[k] == rb[k]);
                assert(read_from(rb[k], paths, before));
                let i = choose|i: int| 0 <= i < before.len() && i < paths.len() && rb[k].0 == #[trigger] paths[i] && text_of(before[i]) == Some(rb[k].1);
                assert(before[i] == contents[i]);
            } else {
                let i = contents.len() - 1;
                match contents.last() {
                    Some(c) => {
                        assert(rd == rb.push((paths[i], c@)));
                        assert(rd[k] == (paths[i], c@));
                        assert(text_of(contents[i]) == Some(rd[k].1));
                        assert(rd[k].0 == paths[i]);
                    },
                    None => {
                        assert(rd == rb);
                    },
                }
            }
        }
    }
}

/// What an answer gets after the selected files were read: every kept file
/// is a selected path with the full text that was read for it, and a selected
/// path whose read failed (a file deleted in the meantime) is never among
/// them.
pub proof fn lemma_unreadable_file_dropped(paths: Seq<Seq<char>>, contents: Seq<Option<String>>, budget: nat)
    requires
        contents.len() == paths.len(),
    ensures
        forall|k: int| 0 <= k < within_budget(readable(paths, contents), budget).len() ==> read_from(
            #[trigger] within_budget(readable(paths, contents), budget)[k],
            paths,
            contents,
        ),
        forall|i: int, k: int|
            0 <= i < paths.len() && contents[i] is None && (forall|j: int| 0 <= j < paths.len() && j != i ==> paths[j] != paths[i])
                && 0 <= k < within_budget(readable(paths, contents), budget).len()
                ==> (#[trigger] within_budget(readable(paths, contents), budget)[k]).0 != #[trigger] paths[i],
{
    let rd = readable(paths, contents);
    let w = within_budget(rd, budget);
    lemma_within_budget_prefix(rd, budget);
    lemma_readable_from(paths, contents);
    assert forall|k: int| 0 <= k < w.len() implies read_from(#[trigger] w[k], paths, contents) by {
        assert(w[k] == rd[k]);
        assert(read_from(rd[k], paths, contents));
    }
    assert forall|i: int, k: int|
        0 <= i < paths.len() && contents[i] is None && (forall|j: int| 0 <= j < paths.len() && j != i ==> paths[j] != paths[i])
            && 0 <= k < w.len() implies (#[trigger] w[k]).0 != #[trigger] paths[i] by {
        assert(w[k] == rd[k]);
        if w[k].0 == paths[i] {
            assert(read_from(rd[k], paths, contents));
            let i2 = choose|i2: int| 0 <= i2 < contents.len() && i2 < paths.len() && rd[k].0 == #[trigger] paths[i2] && text_of(contents[i2]) == Some(rd[k].1);
            assert(i2 != i);
        }
    }
}

} // verus!
