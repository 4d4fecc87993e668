use llm_tui_assistant::conversation::ConversationManager;
use llm_tui_assistant::filesystem::{classify, FileSystemManager, ScannedFile};
use llm_tui_assistant::prompt::decimal_text;
use llm_tui_assistant::rag::{RagAction, RagEngine, RagState};
use llm_tui_assistant::search::{search, Document};
use llm_tui_assistant::session::{AppController, TurnAction};
use llm_tui_assistant::types::{
    Command, FileSystemError, FileType, KeyAction, LlmError, Message, MessageRole, RagError,
    SourceType, TuiError, UserAction,
};
use llm_tui_assistant::ui::TuiState;

fn default_accept() -> Vec<String> {
    vec![r"\.txt$", r"\.md$", r"\.json$", r"\.toml$", r"\.yaml$", r"\.yml$"]
        .into_iter()
        .map(String::from)
        .collect()
}

fn default_reject() -> Vec<String> {
    vec![r"\.git/", r"target/", r"node_modules/", r"\.DS_Store$"]
        .into_iter()
        .map(String::from)
        .collect()
}

fn scanned(path: &str, text: &str) -> ScannedFile {
    ScannedFile {
        path: path.to_string(),
        size: text.len() as u64,
        modified: 0,
        head: text.as_bytes().to_vec(),
    }
}

fn corpus() -> Vec<ScannedFile> {
    vec![
        scanned("/corpus/a.md", "apples bananas"),
        scanned("/corpus/b.txt", "bananas cherries"),
        scanned("/corpus/c.log", "apples"),
    ]
}

fn text_of(path: &str) -> Option<String> {
    match path {
        "/corpus/a.md" => Some("apples bananas".to_string()),
        "/corpus/b.txt" => Some("bananas cherries".to_string()),
        "/corpus/c.log" => Some("apples".to_string()),
        _ => None,
    }
}

fn indexed_manager() -> FileSystemManager {
    let mut m = FileSystemManager::new();
    m.add_source("/corpus".to_string(), Some(SourceType::Directory), 0).unwrap();
    m.set_include_patterns(default_accept()).unwrap();
    m.set_exclude_patterns(default_reject()).unwrap();
    m.index_sources(&corpus(), vec![]).unwrap();
    m
}

fn docs_for(m: &FileSystemManager) -> Vec<Document> {
    m.search_targets()
        .into_iter()
        .map(|p| Document { content: text_of(&p), path: p })
        .collect()
}

fn keywords(ks: &[&str]) -> Vec<String> {
    ks.iter().map(|k| k.to_string()).collect()
}

#[test]
fn search_scenario_bananas() {
    let m = indexed_manager();
    let paths: Vec<String> = m.get_indexed_files().iter().map(|f| f.path.clone()).collect();
    assert_eq!(paths, vec!["/corpus/a.md".to_string(), "/corpus/b.txt".to_string()]);
    let results = m.search_files(&keywords(&["bananas"]), &docs_for(&m));
    let found: Vec<String> = results.iter().map(|r| r.file_path.clone()).collect();
    assert_eq!(found, vec!["/corpus/a.md".to_string(), "/corpus/b.txt".to_string()]);
    assert_eq!(results[0].relevance_score, 1);
    assert_eq!(results[0].matching_lines, vec![(1, "apples bananas".to_string())]);
}

#[test]
fn search_ranks_more_hits_first() {
    let docs = vec![
        Document { path: "/a.txt".to_string(), content: Some("pear".to_string()) },
        Document { path: "/b.txt".to_string(), content: Some("pear\npear pear".to_string()) },
    ];
    let results = search(&keywords(&["pear"]), &docs);
    assert_eq!(results.len(), 2);
    assert_eq!(results[0].file_path, "/b.txt");
    assert_eq!(results[0].relevance_score, 3);
    assert_eq!(results[0].snippet, "pear pear");
    assert_eq!(results[0].matching_lines, vec![(1, "pear".to_string()), (2, "pear pear".to_string())]);
}

#[test]
fn search_score_formula() {
    let docs = vec![Document { path: "/x.md".to_string(), content: Some("apple apple banana".to_string()) }];
    let results = search(&keywords(&["apple", "banana", "kiwi"]), &docs);
    assert_eq!(results.len(), 1);
    assert_eq!(results[0].relevance_score, 6);
}

#[test]
fn search_more_keywords_never_lower() {
    let docs = vec![Document { path: "/a.md".to_string(), content: Some("apples bananas".to_string()) }];
    let narrow = search(&keywords(&["apples"]), &docs);
    let wide = search(&keywords(&["apples", "bananas"]), &docs);
    assert_eq!(narrow[0].relevance_score, 1);
    assert_eq!(wide[0].relevance_score, 4);
    let repeated = search(&keywords(&["apples", "APPLES"]), &docs);
    assert_eq!(repeated[0].relevance_score, 1);
}

#[test]
fn search_is_case_insensitive() {
    let docs = vec![Document { path: "/a.md".to_string(), content: Some("Bananas are yellow".to_string()) }];
    let results = search(&keywords(&["BANANAS"]), &docs);
    assert_eq!(results.len(), 1);
    assert_eq!(results[0].snippet, "Bananas are yellow");
}

#[test]
fn search_empty_keywords_finds_nothing() {
    let m = indexed_manager();
    assert!(m.search_files(&vec![], &docs_for(&m)).is_empty());
    assert!(search(&keywords(&["", "  "]), &docs_for(&m)).is_empty());
}

#[test]
fn search_skips_unreadable_files() {
    let docs = vec![
        Document { path: "/gone.md".to_string(), content: None },
        Document { path: "/here.md".to_string(), content: Some("kiwi".to_string()) },
    ];
    let results = search(&keywords(&["kiwi"]), &docs);
    assert_eq!(results.len(), 1);
    assert_eq!(results[0].file_path, "/here.md");
}

#[test]
fn index_twice_is_identical() {
    let mut m = indexed_manager();
    let first: Vec<(String, u64, bool)> =
        m.get_indexed_files().iter().map(|f| (f.path.clone(), f.size, f.indexable)).collect();
    m.index_sources(&corpus(), vec![]).unwrap();
    let second: Vec<(String, u64, bool)> =
        m.get_indexed_files().iter().map(|f| (f.path.clone(), f.size, f.indexable)).collect();
    assert_eq!(first, second);
}

#[test]
fn index_skips_files_outside_sources_and_duplicates() {
    let mut m = indexed_manager();
    let mut files = corpus();
    files.push(scanned("/elsewhere/d.md", "apples"));
    files.push(scanned("/corpus/a.md", "again"));
    files.push(scanned("/corpus/.git/e.md", "apples"));
    m.index_sources(&files, vec![]).unwrap();
    assert_eq!(m.get_indexed_files().len(), 2);
}

#[test]
fn remove_source_removes_exactly_its_entries() {
    let mut m = FileSystemManager::new();
    m.add_source("/corpus".to_string(), Some(SourceType::Directory), 0).unwrap();
    m.add_source("/corpus2".to_string(), Some(SourceType::Directory), 0).unwrap();
    m.set_include_patterns(default_accept()).unwrap();
    let mut files = corpus();
    files.push(scanned("/corpus2/x.md", "plums"));
    m.index_sources(&files, vec![]).unwrap();
    assert_eq!(m.get_indexed_files().len(), 3);
    m.remove_source(&"/corpus".to_string()).unwrap();
    let left: Vec<String> = m.get_indexed_files().iter().map(|f| f.path.clone()).collect();
    assert_eq!(left, vec!["/corpus2/x.md".to_string()]);
    assert_eq!(m.list_sources().len(), 1);
    assert!(m.remove_source(&"/unknown".to_string()).is_ok());
    assert_eq!(m.list_sources().len(), 1);
}

#[test]
fn add_missing_source_fails_with_not_found() {
    let mut m = FileSystemManager::new();
    let r = m.add_source("/does/not/exist".to_string(), None, 0);
    assert!(matches!(r, Err(FileSystemError::NotFound(_))));
    assert!(m.list_sources().is_empty());
}

#[test]
fn bad_pattern_is_refused_whole() {
    let mut m = indexed_manager();
    let r = m.set_include_patterns(vec![r"\.md$".to_string(), "[invalid".to_string()]);
    match r {
        Err(FileSystemError::Indexing(msg)) => assert!(msg.contains("[invalid")),
        _ => panic!("expected an indexing error"),
    }
    assert_eq!(m.get_indexed_files().len(), 2);
}

#[test]
fn classify_by_extension_and_bytes() {
    assert!(matches!(classify("/x/notes.md", &vec![]), FileType::Markdown));
    assert!(matches!(classify("/x/data.json", &vec![]), FileType::Json));
    assert!(matches!(classify("/x/app.log", &vec![]), FileType::Log));
    assert!(matches!(classify("/x/README", &vec![]), FileType::Text));
    match classify("/x/main.rs", &b"fn main() {}".to_vec()) {
        FileType::Code(lang) => assert_eq!(lang, "rs"),
        _ => panic!("expected code"),
    }
    assert!(matches!(classify("/x/notes.md", &vec![1, 0, 2]), FileType::Binary));
}

#[test]
fn oversized_file_is_not_indexable() {
    let mut m = FileSystemManager::new();
    m.add_source("/corpus".to_string(), Some(SourceType::Directory), 0).unwrap();
    m.set_include_patterns(default_accept()).unwrap();
    m.set_max_file_size(5);
    m.index_sources(&corpus(), vec![]).unwrap();
    assert!(m.get_indexed_files().iter().all(|f| !f.indexable));
    assert!(m.search_targets().is_empty());
}

fn message(role: MessageRole, text: &str, provisional: bool) -> Message {
    Message { role, content: text.to_string(), timestamp: 1, provisional, context_files: vec![] }
}

#[test]
fn provisional_messages_do_not_survive_reload() {
    let mut cm = ConversationManager::new().unwrap();
    assert!(cm.append(message(MessageRole::User, "kept", false)));
    assert!(!cm.append(message(MessageRole::User, "secret", true)));
    assert_eq!(cm.get_messages().len(), 2);
    let stored = vec![
        message(MessageRole::User, "kept", false),
        message(MessageRole::User, "secret", true),
    ];
    let id = cm.conversation_id().clone();
    cm.clear_conversation();
    assert!(cm.get_messages().is_empty());
    cm.restore(id.clone(), stored, 0);
    assert_eq!(cm.conversation_id(), &id);
    let texts: Vec<String> = cm.get_messages().iter().map(|m| m.content.clone()).collect();
    assert_eq!(texts, vec!["kept".to_string()]);
}

#[test]
fn toggle_provisional_keeps_old_flags() {
    let mut cm = ConversationManager::new().unwrap();
    cm.append(message(MessageRole::User, "a", false));
    cm.toggle_provisional_mode();
    assert!(cm.is_provisional_mode());
    assert!(!cm.get_messages()[0].provisional);
}

fn ask(a: &RagAction) -> &Vec<Message> {
    match a {
        RagAction::AskLlm(m) => m,
        other => panic!("expected a request to the LLM, got {:?}", other),
    }
}

#[test]
fn round_without_keywords_is_done_with_no_context() {
    let mut e = RagEngine::new();
    e.toggle_enabled();
    let a = e.process_query("what?".to_string(), vec![]);
    assert_eq!(ask(&a).len(), 2);
    assert_eq!(e.current_state(), RagState::KeywordsRequested);
    let a = e.on_keywords(Ok("  ,, ".to_string()));
    assert_eq!(e.current_state(), RagState::AnswerRequested);
    assert_eq!(ask(&a)[1].content, "Question: what?");
    let a = e.on_answer(Ok("fine".to_string()));
    assert!(matches!(a, RagAction::Finish(ref t) if t == "fine"));
    assert_eq!(e.current_state(), RagState::Done);
    assert!(e.context().file_contents.is_empty());
}

#[test]
fn deleted_selected_file_is_dropped_with_warning() {
    let m = indexed_manager();
    let mut e = RagEngine::new();
    e.toggle_enabled();
    let a = e.process_query("fruit?".to_string(), m.catalog_snapshot());
    assert!(ask(&a)[1].content.contains("/corpus/a.md (markdown)"));
    assert!(!ask(&a)[1].content.contains("apples bananas"));
    let a = e.on_keywords(Ok("bananas".to_string()));
    let ks = match a {
        RagAction::Search(k) => k,
        _ => panic!("expected a search"),
    };
    assert_eq!(ks, vec!["bananas".to_string()]);
    let results = m.search_files(&ks, &docs_for(&m));
    let a = e.on_search_results(results);
    assert!(ask(&a)[1].content.contains("/corpus/a.md (score 1): apples bananas"));
    let a = e.on_selection(Ok("/corpus/a.md\n/corpus/b.txt".to_string()));
    match a {
        RagAction::ReadFiles(p) => assert_eq!(p, vec!["/corpus/a.md".to_string(), "/corpus/b.txt".to_string()]),
        _ => panic!("expected files to read"),
    }
    let a = e.on_file_contents(vec![None, Some("bananas cherries".to_string())]);
    assert_eq!(e.current_state(), RagState::AnswerRequested);
    assert_eq!(e.context().unreadable_files, vec!["/corpus/a.md".to_string()]);
    assert_eq!(e.context().file_contents, vec![("/corpus/b.txt".to_string(), "bananas cherries".to_string())]);
    assert!(ask(&a)[1].content.contains("--- /corpus/b.txt ---\nbananas cherries\n"));
    e.on_answer(Ok("done".to_string()));
    assert_eq!(e.current_state(), RagState::Done);
    assert_eq!(e.context_files(), vec!["/corpus/b.txt".to_string()]);
}

#[test]
fn context_budget_drops_least_relevant_whole_files() {
    let mut e = RagEngine::new();
    e.toggle_enabled();
    e.set_context_budget(5);
    e.process_query("q".to_string(), vec![]);
    e.on_keywords(Ok("x".to_string()));
    let docs = vec![
        Document { path: "/1.md".to_string(), content: Some("x x".to_string()) },
        Document { path: "/2.md".to_string(), content: Some("x".to_string()) },
    ];
    e.on_search_results(search(&keywords(&["x"]), &docs));
    e.on_selection(Ok("/1.md /2.md".to_string()));
    e.on_file_contents(vec![Some("abc".to_string()), Some("defg".to_string())]);
    assert_eq!(e.context().file_contents, vec![("/1.md".to_string(), "abc".to_string())]);
}

#[test]
fn gateway_failure_and_cancel_fail_the_round() {
    let mut e = RagEngine::new();
    e.toggle_enabled();
    e.process_query("q".to_string(), vec![]);
    let a = e.on_keywords(Err(LlmError::RateLimit));
    assert!(matches!(a, RagAction::Abort(RagError::GatewayUnavailable)));
    assert_eq!(e.current_state(), RagState::Failed(RagError::GatewayUnavailable));
    e.process_query("q".to_string(), vec![]);
    e.cancel();
    assert_eq!(e.current_state(), RagState::Failed(RagError::Cancelled));
    e.process_query("q".to_string(), vec![]);
    e.deadline_passed();
    assert_eq!(e.current_state(), RagState::Failed(RagError::DeadlineExceeded));
}

#[test]
fn disabled_engine_does_nothing() {
    let mut e = RagEngine::new();
    assert!(matches!(e.process_query("q".to_string(), vec![]), RagAction::Disabled));
    assert_eq!(e.current_state(), RagState::Idle);
}

#[test]
fn direct_turn_records_both_sides() {
    let mut c = AppController::new();
    let a = c.begin_turn("hello".to_string(), 5).unwrap();
    match a {
        TurnAction::AskLlm(m) => {
            assert_eq!(m.len(), 1);
            assert_eq!(m[0].content, "hello");
        }
        _ => panic!("expected a request"),
    }
    assert!(c.begin_turn("again".to_string(), 6).is_err());
    let a = c.on_llm_reply(Ok("hi".to_string()), 7).unwrap();
    assert!(matches!(a, TurnAction::Completed { ref answer, appended: 2, flush: true } if answer == "hi"));
    let h = c.conversation_manager().get_messages();
    assert_eq!(h.len(), 2);
    assert_eq!(h[0].content, "hello");
    assert_eq!(h[1].content, "hi");
}

#[test]
fn provisional_turn_is_provisional_on_both_sides() {
    let mut c = AppController::new();
    c.handle_command(Command::ToggleProvisional, None, 0).unwrap();
    c.begin_turn("secret".to_string(), 1).unwrap();
    let a = c.on_llm_reply(Ok("ok".to_string()), 2).unwrap();
    assert!(matches!(a, TurnAction::Completed { flush: false, .. }));
    assert!(c.conversation_manager().get_messages().iter().all(|m| m.provisional));
}

#[test]
fn failed_round_falls_back_to_direct_answer() {
    let mut c = AppController::new();
    c.handle_command(Command::ToggleRag, None, 0).unwrap();
    c.begin_turn("q".to_string(), 1).unwrap();
    let a = c.on_llm_reply(Err(LlmError::Network("down".to_string())), 2).unwrap();
    assert!(matches!(a, TurnAction::AskLlm(_)));
    let a = c.on_llm_reply(Ok("answer".to_string()), 3).unwrap();
    assert!(matches!(a, TurnAction::Completed { appended: 3, .. }));
    let h = c.conversation_manager().get_messages();
    assert_eq!(h[1].role, MessageRole::System);
    assert_eq!(h[2].content, "answer");
}

#[test]
fn commands_change_the_session() {
    let mut c = AppController::new();
    assert!(c.handle_command(Command::Help, None, 0).unwrap().contains("/help"));
    assert_eq!(c.handle_command(Command::ToggleRag, None, 0).unwrap(), "RAG enabled");
    assert!(c.rag_engine().is_enabled());
    let r = c.handle_command(Command::AddSource("/nope".to_string()), None, 0);
    assert!(matches!(r, Err(_)));
    let r = c.handle_command(Command::AddSource("/tmp".to_string()), Some(SourceType::Directory), 0);
    assert_eq!(r.unwrap(), "Added source: /tmp");
    assert_eq!(c.handle_command(Command::ListSources, None, 0).unwrap(), "Data sources:\n/tmp");
    assert_eq!(c.handle_command(Command::RemoveSource("/tmp".to_string()), None, 0).unwrap(), "Removed source: /tmp");
    assert!(c.file_manager().list_sources().is_empty());
}

#[test]
fn keys_edit_and_submit_the_line() {
    let mut s = TuiState::default();
    for ch in "hi".chars() {
        s.apply_key(KeyAction::Char(ch)).unwrap();
    }
    assert_eq!(s.get_input_buffer(), "hi");
    s.apply_key(KeyAction::Backspace).unwrap();
    assert_eq!(s.get_input_buffer(), "h");
    assert!(matches!(s.apply_key(KeyAction::Enter), Ok(Some(UserAction::SendMessage))));
    assert_eq!(s.get_input_buffer(), "");
    for ch in "/help".chars() {
        s.apply_key(KeyAction::Char(ch)).unwrap();
    }
    assert!(matches!(s.apply_key(KeyAction::Enter), Ok(Some(UserAction::ExecuteCommand(Command::Help)))));
    for ch in "/bogus".chars() {
        s.apply_key(KeyAction::Char(ch)).unwrap();
    }
    assert!(matches!(s.apply_key(KeyAction::Enter), Err(TuiError::InputHandling(_))));
    assert!(matches!(s.apply_key(KeyAction::Escape), Ok(Some(UserAction::Exit))));
    assert!(matches!(s.apply_key(KeyAction::PageUp), Ok(Some(UserAction::ScrollUp))));
    s.apply_key(KeyAction::Tab).unwrap();
    assert!(s.command_mode);
}

#[test]
fn decimal_text_writes_digits() {
    assert_eq!(decimal_text(0), "0");
    assert_eq!(decimal_text(1234), "1234");
    assert_eq!(decimal_text(u64::MAX), u64::MAX.to_string());
}

#[test]
fn send_message_appends_user_turn() {
    let mut cm = ConversationManager::new().unwrap();
    assert!(!cm.send_message("draft".to_string(), true, 42));
    let m = &cm.get_messages()[0];
    assert_eq!(m.role, MessageRole::User);
    assert_eq!(m.content, "draft");
    assert_eq!(m.timestamp, 42);
    assert!(m.provisional);
}

#[test]
fn controller_round_survives_a_deleted_file() {
    let mut c = AppController::new();
    c.set_patterns(default_accept(), default_reject()).unwrap();
    c.handle_command(Command::AddSource("/corpus".to_string()), Some(SourceType::Directory), 0).unwrap();
    c.index_sources(&corpus(), vec![]);
    c.handle_command(Command::ToggleRag, None, 0).unwrap();
    let a = c.begin_turn("which fruit?".to_string(), 1).unwrap();
    assert!(matches!(a, TurnAction::AskLlm(_)));
    let a = c.on_llm_reply(Ok("bananas".to_string()), 2).unwrap();
    let ks = match a {
        TurnAction::Search(k) => k,
        _ => panic!("expected a search"),
    };
    let docs = docs_for(c.file_manager());
    let results = c.file_manager().search_files(&ks, &docs);
    let a = c.on_search_results(results, 3).unwrap();
    assert!(matches!(a, TurnAction::AskLlm(_)));
    let a = c.on_llm_reply(Ok("/corpus/b.txt".to_string()), 4).unwrap();
    assert!(matches!(a, TurnAction::ReadFiles(ref p) if p == &vec!["/corpus/b.txt".to_string()]));
    let a = c.on_file_contents(vec![None], 5).unwrap();
    assert!(matches!(a, TurnAction::AskLlm(_)));
    assert_eq!(c.rag_engine().context().unreadable_files, vec!["/corpus/b.txt".to_string()]);
    let a = c.on_llm_reply(Ok("no context".to_string()), 6).unwrap();
    assert!(matches!(a, TurnAction::Completed { appended: 2, .. }));
    assert_eq!(c.rag_engine().current_state(), RagState::Done);
    let h = c.conversation_manager().get_messages();
    assert!(h[1].context_files.is_empty());
}

#[test]
fn unreadable_files_are_soft_warnings() {
    let mut m = FileSystemManager::new();
    m.add_source("/corpus".to_string(), Some(SourceType::Directory), 0).unwrap();
    m.add_source("/vanished".to_string(), Some(SourceType::Directory), 0).unwrap();
    m.set_include_patterns(default_accept()).unwrap();
    let r = m.index_sources(&corpus(), vec!["/corpus/locked.md".to_string(), "/vanished".to_string()]);
    assert!(r.is_ok());
    assert_eq!(m.get_indexed_files().len(), 2);
    assert_eq!(m.list_sources().len(), 2);
    assert_eq!(m.index_warnings(), &vec!["/corpus/locked.md".to_string(), "/vanished".to_string()]);
}

#[test]
fn pattern_sets_are_replaced_atomically() {
    let mut c = AppController::new();
    c.set_patterns(default_accept(), default_reject()).unwrap();
    c.handle_command(Command::AddSource("/corpus".to_string()), Some(SourceType::Directory), 0).unwrap();
    c.index_sources(&corpus(), vec![]);
    let r = c.set_patterns(vec![r"\.md$".to_string()], vec!["(unclosed".to_string()]);
    match r {
        Err(llm_tui_assistant::types::AppError::FileSystem(FileSystemError::Indexing(m))) => {
            assert!(m.starts_with("Invalid regex pattern '(unclosed': "));
        }
        _ => panic!("expected an indexing error"),
    }
    assert_eq!(c.file_manager().get_indexed_files().len(), 2);
}

#[test]
fn first_bad_pattern_is_named() {
    let mut m = FileSystemManager::new();
    let r = m.set_exclude_patterns(vec!["ok".to_string(), "[a".to_string(), "(b".to_string()]);
    match r {
        Err(FileSystemError::Indexing(msg)) => assert!(msg.starts_with("Invalid regex pattern '[a': ")),
        _ => panic!("expected an indexing error"),
    }
}

#[test]
fn disabled_round_holds_only_the_query() {
    let mut e = RagEngine::new();
    assert!(matches!(e.process_query("just ask".to_string(), vec![]), RagAction::Disabled));
    assert_eq!(e.context().query, "just ask");
    assert!(e.context().keywords.is_empty());
    assert!(e.context().selected_files.is_empty());
}

#[test]
fn help_and_missing_source_texts() {
    let mut c = AppController::new();
    assert_eq!(
        c.handle_command(Command::Help, None, 0).unwrap(),
        "Help: Available commands: /help, /config, /clear, /toggle-rag, /toggle-provisional, /add-source, /remove-source, /list-sources, /exit"
    );
    let r = c.handle_command(Command::AddSource("/nope".to_string()), None, 0);
    assert!(matches!(
        r,
        Err(llm_tui_assistant::types::AppError::FileSystem(FileSystemError::NotFound(_)))
    ));
}

#[test]
fn message_input_starts_a_turn() {
    let mut c = AppController::new();
    let r = c.process_user_input(llm_tui_assistant::types::UserInput::Message("hi".to_string()), None, 0);
    assert!(matches!(r, Ok(TurnAction::AskLlm(ref m)) if m.len() == 1 && m[0].content == "hi"));
    let r = c.process_user_input(llm_tui_assistant::types::UserInput::Command(Command::Exit), None, 0);
    assert!(matches!(r, Ok(TurnAction::Reply(ref t)) if t == "Exiting application"));
}

#[test]
fn deadline_falls_back_to_direct_answer() {
    let mut c = AppController::new();
    c.handle_command(Command::ToggleRag, None, 0).unwrap();
    c.begin_turn("q".to_string(), 1).unwrap();
    let a = c.deadline_passed().unwrap();
    assert!(matches!(a, TurnAction::AskLlm(ref m) if m.len() == 1));
    assert_eq!(c.rag_engine().current_state(), RagState::Failed(RagError::DeadlineExceeded));
    let a = c.on_llm_reply(Ok("late".to_string()), 2).unwrap();
    assert!(matches!(a, TurnAction::Completed { appended: 3, .. }));
    assert!(c.conversation_manager().get_messages()[2].context_files.is_empty());
}

#[test]
fn cancelled_round_falls_back_to_direct_answer() {
    let mut c = AppController::new();
    c.handle_command(Command::ToggleRag, None, 0).unwrap();
    c.begin_turn("q".to_string(), 1).unwrap();
    let a = c.cancel_turn().unwrap();
    assert!(matches!(a, TurnAction::AskLlm(ref m) if m.len() == 1 && m[0].content == "q"));
    assert_eq!(c.rag_engine().current_state(), RagState::Failed(RagError::Cancelled));
    let a = c.on_llm_reply(Ok("plain".to_string()), 2).unwrap();
    assert!(matches!(a, TurnAction::Completed { appended: 3, .. }));
    let h = c.conversation_manager().get_messages();
    assert_eq!(h[1].role, MessageRole::System);
    assert!(h[2].context_files.is_empty());
}

#[test]
fn cancelled_direct_answer_drops_the_turn() {
    let mut c = AppController::new();
    c.begin_turn("q".to_string(), 1).unwrap();
    assert!(matches!(c.cancel_turn(), Err(llm_tui_assistant::types::AppError::Rag(RagError::Cancelled))));
    assert!(c.conversation_manager().get_messages().is_empty());
    assert!(c.begin_turn("again".to_string(), 2).is_ok());
}

#[test]
fn abandoned_turn_records_nothing() {
    let mut c = AppController::new();
    c.handle_command(Command::ToggleRag, None, 0).unwrap();
    c.begin_turn("q".to_string(), 1).unwrap();
    c.abandon_turn();
    assert_eq!(c.rag_engine().current_state(), RagState::Failed(RagError::Cancelled));
    assert!(c.conversation_manager().get_messages().is_empty());
    assert!(c.begin_turn("again".to_string(), 2).is_ok());
}

#[test]
fn whitespace_agrees_with_std() {
    for c in '\0'..=char::MAX {
        assert_eq!(llm_tui_assistant::text::is_whitespace(c), c.is_whitespace(), "{:?}", c);
    }
}

#[test]
fn remove_unknown_source_keeps_warnings() {
    let mut m = FileSystemManager::new();
    m.add_source("/corpus".to_string(), Some(SourceType::Directory), 0).unwrap();
    m.set_include_patterns(default_accept()).unwrap();
    m.index_sources(&corpus(), vec!["/corpus/locked.md".to_string()]).unwrap();
    m.remove_source(&"/elsewhere".to_string()).unwrap();
    assert_eq!(m.index_warnings(), &vec!["/corpus/locked.md".to_string()]);
    assert_eq!(m.get_indexed_files().len(), 2);
}

#[test]
fn restored_conversation_drops_provisional() {
    let mut c = AppController::new();
    let stored = vec![message(MessageRole::User, "kept", false), message(MessageRole::Assistant, "draft", true)];
    c.restore_conversation("abc".to_string(), stored, 0).unwrap();
    assert_eq!(c.conversation_manager().conversation_id(), "abc");
    assert_eq!(c.conversation_manager().get_messages().len(), 1);
}
