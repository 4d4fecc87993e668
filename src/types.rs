use vstd::prelude::*;

verus! {

/// Who wrote a message.
#[derive(Clone, Copy, Debug, PartialEq, Eq, Structural)]
pub enum MessageRole {
    User,
    Assistant,
    System,
}

/// One turn of a conversation. `timestamp` is in milliseconds since the
/// Unix epoch; `context_files` lists the paths whose content informed it.
#[derive(Clone, Debug)]
pub struct Message {
    pub role: MessageRole,
    pub content: String,
    pub timestamp: i64,
    pub provisional: bool,
    pub context_files: Vec<String>,
}

/// What the user handed to the application.
#[derive(Clone, Debug)]
pub enum UserInput {
    Message(String),
    Command(Command),
    KeyAction(KeyAction),
}

/// What the input layer asks the application to do.
#[derive(Clone, Debug)]
pub enum UserAction {
    SendMessage,
    ExecuteCommand(Command),
    ToggleMode,
    ScrollUp,
    ScrollDown,
    Exit,
}

/// A key press, as the input layer sees it.
#[derive(Clone, Copy, Debug, PartialEq, Eq, Structural)]
pub enum KeyAction {
    Enter,
    Escape,
    Up,
    Down,
    PageUp,
    PageDown,
    Tab,
    Backspace,
    Delete,
    Char(char),
}

/// The commands of the command surface.
#[derive(Clone, Debug)]
pub enum Command {
    Help,
    Config,
    Clear,
    ToggleRag,
    ToggleProvisional,
    AddSource(String),
    RemoveSource(String),
    ListSources,
    Exit,
}

/// One hit of a keyword search. The score is an integer: higher is more
/// relevant. `matching_lines` holds (1-based line number, line text).
#[derive(Clone, Debug)]
pub struct SearchResult {
    pub file_path: String,
    pub relevance_score: u64,
    pub matching_lines: Vec<(usize, String)>,
    pub snippet: String,
}

/// A catalog entry: a snapshot of one indexed file. `modified` is in
/// milliseconds since the Unix epoch.
#[derive(Clone, Debug)]
pub struct FileInfo {
    pub path: String,
    pub size: u64,
    pub modified: i64,
    pub file_type: FileType,
    pub indexable: bool,
}

/// The kind of a file, from its extension and its first bytes.
#[derive(Clone, Debug)]
pub enum FileType {
    Text,
    Markdown,
    Json,
    Config,
    Code(String),
    Log,
    Binary,
}

/// A registered root of files. `last_indexed` is in milliseconds since the
/// Unix epoch.
#[derive(Clone, Debug)]
pub struct DataSource {
    pub path: String,
    pub source_type: SourceType,
    pub last_indexed: i64,
}

/// Whether a data source is a single file or a directory tree.
#[derive(Clone, Copy, Debug, PartialEq, Eq, Structural)]
pub enum SourceType {
    File,
    Directory,
}

/// The working state of one retrieval round. `file_contents` holds
/// (path, text) pairs, most relevant first.
#[derive(Clone, Debug)]
pub struct RagContext {
    pub query: String,
    pub available_files: Vec<FileInfo>,
    pub keywords: Vec<String>,
    pub search_results: Vec<SearchResult>,
    pub selected_files: Vec<String>,
    pub file_contents: Vec<(String, String)>,
    pub unreadable_files: Vec<String>,
}

/// Settings of the LLM provider. `temperature` is in thousandths
/// (700 stands for 0.7).
#[derive(Clone, Debug)]
pub struct LlmProvider {
    pub provider_type: ProviderType,
    pub api_key: String,
    pub model: String,
    pub base_url: Option<String>,
    pub max_tokens: Option<u32>,
    pub temperature: Option<i64>,
}

/// The LLM vendors the assistant can talk to.
#[derive(Clone, Copy, Debug, PartialEq, Eq, Structural)]
pub enum ProviderType {
    OpenAi,
    Anthropic,
    Local,
}

/// Any error of the application.
#[derive(Debug)]
pub enum AppError {
    Tui(TuiError),
    Llm(LlmError),
    Rag(RagError),
    FileSystem(FileSystemError),
    Config(ConfigError),
    Conversation(ConversationError),
}

#[derive(Debug)]
pub enum TuiError {
    TerminalInit(String),
    InputHandling(String),
    Rendering(String),
}

#[derive(Debug, Clone)]
pub enum LlmError {
    Network(String),
    Api(String),
    Authentication,
    RateLimit,
    ContextWindowExceeded,
}

/// Errors of a retrieval round. All of them are recoverable: the session
/// answers without retrieved context instead.
#[derive(Debug, Clone, Copy, PartialEq, Eq, Structural)]
pub enum RagError {
    GatewayUnavailable,
    Cancelled,
    DeadlineExceeded,
    NotIdle,
}

#[derive(Debug)]
pub enum FileSystemError {
    FileAccess(String),
    Indexing(String),
    PermissionDenied(String),
    NotFound(String),
}

#[derive(Debug)]
pub enum ConfigError {
    FileError(String),
    Validation(String),
    Serialization(String),
}

#[derive(Debug)]
pub enum ConversationError {
    MessageProcessing(String),
    Storage(String),
    History(String),
}

#[derive(Debug)]
pub enum CommandError {
    InvalidCommand(String),
    MissingArgument(String),
    InvalidArgument(String),
}

} // verus!

verus! {

/// Whether two messages say the same thing: same role, text, time, flag and
/// context files.
pub open spec fn same_message(a: Message, b: Message) -> bool {
    &&& a.role == b.role
    &&& a.content@ == b.content@
    &&& a.timestamp == b.timestamp
    &&& a.provisional == b.provisional
    &&& a.context_files@.map_values(|p: String| p@) == b.context_files@.map_values(|p: String| p@)
}

/// A copy of a list of strings.
pub fn copy_strings(v: &Vec<String>) -> (r: Vec<String>)
    ensures
        r@.map_values(|p: String| p@) == v@.map_values(|p: String| p@),
{
    let mut out: Vec<String> = Vec::new();
    let mut i: usize = 0;
    while i < v.len()
        invariant
            i <= v@.len(),
            out@.map_values(|p: String| p@) == v@.take(i as int).map_values(|p: String| p@),
        decreases v@.len() - i,
    {
        let ghost before = out@;
        let c = v[i].clone();
        out.push(c);
        assert(v@.take(i + 1) =~= v@.take(i as int).push(v@[i as int]));
        assert(out@.map_values(|p: String| p@) =~= before.map_values(|p: String| p@).push(c@));
        assert(out@.map_values(|p: String| p@) =~= v@.take(i + 1).map_values(|p: String| p@));
        i = i + 1;
    }
    assert(v@.take(v@.len() as int) =~= v@);
    out
}

impl Message {
    /// A copy of the message.
    pub fn duplicate(&self) -> (r: Message)
        ensures
            same_message(r, *self),
    {
        Message {
            role: self.role,
            content: self.content.clone(),
            timestamp: self.timestamp,
            provisional: self.provisional,
            context_files: copy_strings(&self.context_files),
        }
    }
}

} // verus!

verus! {

impl TuiError {
    /// The error as text, for display.
    pub fn message(&self) -> (r: String)
        ensures
            self matches TuiError::TerminalInit(m) ==> r@ == "Terminal initialization failed: "@ + m@,
            self matches TuiError::InputHandling(m) ==> r@ == "Input handling error: "@ + m@,
            self matches TuiError::Rendering(m) ==> r@ == "Rendering error: "@ + m@,
    {
        match self {
            TuiError::TerminalInit(m) => crate::text::concat("Terminal initialization failed: ", m.as_str()),
            TuiError::InputHandling(m) => crate::text::concat("Input handling error: ", m.as_str()),
            TuiError::Rendering(m) => crate::text::concat("Rendering error: ", m.as_str()),
        }
    }
}

impl FileSystemError {
    /// The error as text, for display.
    pub fn message(&self) -> (r: String)
        ensures
            self matches FileSystemError::FileAccess(m) ==> r@ == "File access error: "@ + m@,
            self matches FileSystemError::Indexing(m) ==> r@ == "Indexing error: "@ + m@,
            self matches FileSystemError::PermissionDenied(m) ==> r@ == "Permission denied: "@ + m@,
            self matches FileSystemError::NotFound(m) ==> r@ == "Not found: "@ + m@,
    {
        match self {
            FileSystemError::FileAccess(m) => crate::text::concat("File access error: ", m.as_str()),
            FileSystemError::Indexing(m) => crate::text::concat("Indexing error: ", m.as_str()),
            FileSystemError::PermissionDenied(m) => crate::text::concat("Permission denied: ", m.as_str()),
            FileSystemError::NotFound(m) => crate::text::concat("Not found: ", m.as_str()),
        }
    }
}

impl ConfigError {
    /// The error as text, for display.
    pub fn message(&self) -> (r: String)
        ensures
            self matches ConfigError::FileError(m) ==> r@ == "Configuration file error: "@ + m@,
            self matches ConfigError::Validation(m) ==> r@ == "Validation error: "@ + m@,
            self matches ConfigError::Serialization(m) ==> r@ == "Serialization error: "@ + m@,
    {
        match self {
            ConfigError::FileError(m) => crate::text::concat("Configuration file error: ", m.as_str()),
            ConfigError::Validation(m) => crate::text::concat("Validation error: ", m.as_str()),
            ConfigError::Serialization(m) => crate::text::concat("Serialization error: ", m.as_str()),
        }
    }
}

impl ConversationError {
    /// The error as text, for display.
    pub fn message(&self) -> (r: String)
        ensures
            self matches ConversationError::MessageProcessing(m) ==> r@ == "Message processing error: "@ + m@,
            self matches ConversationError::Storage(m) ==> r@ == "Storage error: "@ + m@,
            self matches ConversationError::History(m) ==> r@ == "History error: "@ + m@,
    {
        match self {
            ConversationError::MessageProcessing(m) => crate::text::concat("Message processing error: ", m.as_str()),
            ConversationError::Storage(m) => crate::text::concat("Storage error: ", m.as_str()),
            ConversationError::History(m) => crate::text::concat("History error: ", m.as_str()),
        }
    }
}

impl CommandError {
    /// The error as text, for display.
    pub fn message(&self) -> (r: String)
        ensures
            self matches CommandError::InvalidCommand(m) ==> r@ == "Invalid command: "@ + m@,
            self matches CommandError::MissingArgument(m) ==> r@ == "Missing argument: "@ + m@,
            self matches CommandError::InvalidArgument(m) ==> r@ == "Invalid argument: "@ + m@,
    {
        match self {
            CommandError::InvalidCommand(m) => crate::text::concat("Invalid command: ", m.as_str()),
            CommandError::MissingArgument(m) => crate::text::concat("Missing argument: ", m.as_str()),
            CommandError::InvalidArgument(m) => crate::text::concat("Invalid argument: ", m.as_str()),
        }
    }
}

impl LlmError {
    /// The error as text, for display.
    pub fn message(&self) -> (r: String)
        ensures
            self matches LlmError::Network(m) ==> r@ == "Network error: "@ + m@,
            self matches LlmError::Api(m) ==> r@ == "API error: "@ + m@,
    {
        match self {
            LlmError::Network(m) => crate::text::concat("Network error: ", m.as_str()),
            LlmError::Api(m) => crate::text::concat("API error: ", m.as_str()),
            LlmError::Authentication => String::from_str("Authentication error"),
            LlmError::RateLimit => String::from_str("Rate limit exceeded"),
            LlmError::ContextWindowExceeded => String::from_str("Context window exceeded"),
        }
    }
}

impl RagError {
    /// The error as text, for display.
    pub fn message(&self) -> (r: String)
        ensures
            *self == RagError::GatewayUnavailable ==> r@ == "Retrieval failed: the LLM gateway is unavailable"@,
            *self == RagError::Cancelled ==> r@ == "Retrieval cancelled"@,
            *self == RagError::DeadlineExceeded ==> r@ == "Retrieval deadline exceeded"@,
            *self == RagError::NotIdle ==> r@ == "A retrieval round is already in flight"@,
    {
        match self {
            RagError::GatewayUnavailable => String::from_str("Retrieval failed: the LLM gateway is unavailable"),
            RagError::Cancelled => String::from_str("Retrieval cancelled"),
            RagError::DeadlineExceeded => String::from_str("Retrieval deadline exceeded"),
            RagError::NotIdle => String::from_str("A retrieval round is already in flight"),
        }
    }
}

impl AppError {
    /// The error as text, for display: the component, then the inner error's
    /// text.
    pub fn message(&self) -> (r: String)
        ensures
            self is Tui ==> crate::text::has_prefix(r@, "TUI error: "@),
            self is Llm ==> crate::text::has_prefix(r@, "LLM error: "@),
            self is Rag ==> crate::text::has_prefix(r@, "RAG error: "@),
            self is FileSystem ==> crate::text::has_prefix(r@, "File system error: "@),
            self is Config ==> crate::text::has_prefix(r@, "Configuration error: "@),
            self is Conversation ==> crate::text::has_prefix(r@, "Conversation error: "@),
    {
        match self {
            AppError::Tui(e) => {
                let inner = e.message();
                let r = crate::text::concat("TUI error: ", inner.as_str());
                assert(r@.subrange(0, "TUI error: "@.len() as int) =~= "TUI error: "@);
                r
            },
            AppError::Llm(e) => {
                let inner = e.message();
                let r = crate::text::concat("LLM error: ", inner.as_str());
                assert(r@.subrange(0, "LLM error: "@.len() as int) =~= "LLM error: "@);
                r
            },
            AppError::Rag(e) => {
                let inner = e.message();
                let r = crate::text::concat("RAG error: ", inner.as_str());
                assert(r@.subrange(0, "RAG error: "@.len() as int) =~= "RAG error: "@);
                r
            },
            AppError::FileSystem(e) => {
                let inner = e.message();
                let r = crate::text::concat("File system error: ", inner.as_str());
                assert(r@.subrange(0, "File system error: "@.len() as int) =~= "File system error: "@);
                r
            },
            AppError::Config(e) => {
                let inner = e.message();
                let r = crate::text::concat("Configuration error: ", inner.as_str());
                assert(r@.subrange(0, "Configuration error: "@.len() as int) =~= "Configuration error: "@);
                r
            },
            AppError::Conversation(e) => {
                let inner = e.message();
                let r = crate::text::concat("Conversation error: ", inner.as_str());
                assert(r@.subrange(0, "Conversation error: "@.len() as int) =~= "Conversation error: "@);
                r
            },
        }
    }
}

} // verus!
