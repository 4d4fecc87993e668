use vstd::prelude::*;
use crate::types::{FileInfo, FileType, Message, MessageRole, SearchResult};

verus! {

/// The decimal digits of `n`.
pub open spec fn decimal(n: nat) -> Seq<char>
    decreases n,
{
    if n < 10 {
        seq![digit(n)]
    } else {
        decimal(n / 10).push(digit(n % 10))
    }
}

pub open spec fn digit(d: nat) -> char {
    if d == 0 { '0' } else if d == 1 { '1' } else if d == 2 { '2' } else if d == 3 { '3' } else if d == 4 {
        '4'
    } else if d == 5 { '5' } else if d == 6 { '6' } else if d == 7 { '7' } else if d == 8 { '8' } else {
        '9'
    }
}

fn digit_char(d: u64) -> (c: char)
    requires
        d < 10,
    ensures
        c == digit(d as nat),
{
    if d == 0 { '0' } else if d == 1 { '1' } else if d == 2 { '2' } else if d == 3 { '3' } else if d == 4 {
        '4'
    } else if d == 5 { '5' } else if d == 6 { '6' } else if d == 7 { '7' } else if d == 8 { '8' } else {
        '9'
    }
}

/// `n` written in decimal.
pub fn decimal_text(n: u64) -> (r: String)
    ensures
        r@ == decimal(n as nat),
    decreases n,
{
    if n < 10 {
        let c = [digit_char(n)];
        let r = crate::text::string_of(&c);
        assert(r@ =~= seq![digit(n as nat)]);
        r
    } else {
        let mut r = decimal_text(n / 10);
        let c = [digit_char(n % 10)];
        let tail = crate::text::string_of(&c);
        r.append(tail.as_str());
        assert(r@ =~= decimal((n / 10) as nat).push(digit((n % 10) as nat)));
        r
    }
}

/// How a file type is named to the LLM.
pub open spec fn kind_name(t: FileType) -> Seq<char> {
    match t {
        FileType::Text => "text"@,
        FileType::Markdown => "markdown"@,
        FileType::Json => "json"@,
        FileType::Config => "config"@,
        FileType::Code(lang) => "code:"@ + lang@,
        FileType::Log => "log"@,
        FileType::Binary => "binary"@,
    }
}

fn type_label(t: &FileType) -> (r: String)
    ensures
        r@ == kind_name(*t),
{
    match t {
        FileType::Text => String::from_str("text"),
        FileType::Markdown => String::from_str("markdown"),
        FileType::Json => String::from_str("json"),
        FileType::Config => String::from_str("config"),
        FileType::Code(lang) => crate::text::concat("code:", lang.as_str()),
        FileType::Log => String::from_str("log"),
        FileType::Binary => String::from_str("binary"),
    }
}

/// The catalog as the LLM sees it: one line per file, path and type, never
/// content.
pub open spec fn file_listing(files: Seq<FileInfo>) -> Seq<char>
    decreases files.len(),
{
    if files.len() == 0 {
        Seq::<char>::empty()
    } else {
        file_listing(files.drop_last()) + files.last().path@ + " ("@ + kind_name(files.last().file_type)
            + ")\n"@
    }
}

/// Search results as the LLM sees them: path, score and snippet of each,
/// never a whole file.
pub open spec fn result_listing(results: Seq<SearchResult>) -> Seq<char>
    decreases results.len(),
{
    if results.len() == 0 {
        Seq::<char>::empty()
    } else {
        let r = results.last();
        result_listing(results.drop_last()) + r.file_path@ + " (score "@ + decimal(
            r.relevance_score as nat,
        ) + "): "@ + r.snippet@ + "\n"@
    }
}

/// Assembled file contents as the LLM sees them.
pub open spec fn context_block(files: Seq<(String, String)>) -> Seq<char>
    decreases files.len(),
{
    if files.len() == 0 {
        Seq::<char>::empty()
    } else {
        context_block(files.drop_last()) + "--- "@ + files.last().0@ + " ---\n"@ + files.last().1@
            + "\n"@
    }
}

/// Whether `m` is a prompt message of role `role` with text `text`.
pub open spec fn prompt_message(m: Message, role: MessageRole, text: Seq<char>) -> bool {
    m.role == role && m.content@ == text && m.provisional && m.context_files@.len() == 0
}

fn message(role: MessageRole, content: String) -> (m: Message)
    ensures
        prompt_message(m, role, content@),
{
    Message { role, content, timestamp: 0, provisional: true, context_files: Vec::new() }
}

pub open spec fn keyword_instructions() -> Seq<char> {
    "You help find local files relevant to a question. Reply with search keywords only, separated by commas."@
}

pub open spec fn selection_instructions() -> Seq<char> {
    "You help choose local files relevant to a question. Reply with the full paths of the files worth reading, one per line, or with nothing if none is."@
}

pub open spec fn answer_instructions() -> Seq<char> {
    "Answer the question. Use the files given as context where they help."@
}

/// The request for keywords: the instructions, then the query and the
/// listing of the available files.
pub open spec fn keyword_prompt_fits(r: Seq<Message>, query: Seq<char>, files: Seq<FileInfo>) -> bool {
    &&& r.len() == 2
    &&& prompt_message(r[0], MessageRole::System, keyword_instructions())
    &&& prompt_message(r[1], MessageRole::User, query + "\n\nAvailable files:\n"@ + file_listing(files))
}

/// The request for a selection: the instructions, then the query and the
/// listing of the search results.
pub open spec fn selection_prompt_fits(r: Seq<Message>, query: Seq<char>, results: Seq<SearchResult>) -> bool {
    &&& r.len() == 2
    &&& prompt_message(r[0], MessageRole::System, selection_instructions())
    &&& prompt_message(r[1], MessageRole::User, query + "\n\nSearch results:\n"@ + result_listing(results))
}

/// The request for the answer: the instructions, then the assembled files
/// and the query.
pub open spec fn answer_prompt_fits(r: Seq<Message>, query: Seq<char>, files: Seq<(String, String)>) -> bool {
    &&& r.len() == 2
    &&& prompt_message(r[0], MessageRole::System, answer_instructions())
    &&& prompt_message(r[1], MessageRole::User, context_block(files) + "Question: "@ + query)
}

pub fn keyword_prompt(query: &String, files: &Vec<FileInfo>) -> (r: Vec<Message>)
    ensures
        keyword_prompt_fits(r@, query@, files@),
{
    let mut text = crate::text::concat(query.as_str(), "\n\nAvailable files:\n");
    let ghost head = text@;
    let mut i: usize = 0;
    while i < files.len()
        invariant
            i <= files@.len(),
            text@ == head + file_listing(files@.take(i as int)),
        decreases files@.len() - i,
    {
        assert(files@.take(i + 1).drop_last() =~= files@.take(i as int));
        let f = &files[i];
        text.append(f.path.as_str());
        text.append(" (");
        let t = type_label(&f.file_type);
        text.append(t.as_str());
        text.append(")\n");
        assert(text@ =~= head + file_listing(files@.take(i + 1)));
        i = i + 1;
    }
    assert(files@.take(files@.len() as int) =~= files@);
    let mut r: Vec<Message> = Vec::new();
    r.push(message(MessageRole::System, String::from_str("You help find local files relevant to a question. Reply with search keywords only, separated by commas.")));
    r.push(message(MessageRole::User, text));
    r
}

pub fn selection_prompt(query: &String, results: &Vec<SearchResult>) -> (r: Vec<Message>)
    ensures
        selection_prompt_fits(r@, query@, results@),
{
    let mut text = crate::text::concat(query.as_str(), "\n\nSearch results:\n");
    let ghost head = text@;
    let mut i: usize = 0;
    while i < results.len()
        invariant
            i <= results@.len(),
            text@ == head + result_listing(results@.take(i as int)),
        decreases results@.len() - i,
    {
        assert(results@.take(i + 1).drop_last() =~= results@.take(i as int));
        let x = &results[i];
        text.append(x.file_path.as_str());
        text.append(" (score ");
        let n = decimal_text(x.relevance_score);
        text.append(n.as_str());
        text.append("): ");
        text.append(x.snippet.as_str());
        text.append("\n");
        assert(text@ =~= head + result_listing(results@.take(i + 1)));
        i = i + 1;
    }
    assert(results@.take(results@.len() as int) =~= results@);
    let mut r: Vec<Message> = Vec::new();
    r.push(message(MessageRole::System, String::from_str("You help choose local files relevant to a question. Reply with the full paths of the files worth reading, one per line, or with nothing if none is.")));
    r.push(message(MessageRole::User, text));
    r
}

pub fn answer_prompt(query: &String, files: &Vec<(String, String)>) -> (r: Vec<Message>)
    ensures
        answer_prompt_fits(r@, query@, files@),
{
    let mut text = String::new();
    let mut i: usize = 0;
    while i < files.len()
        invariant
            i <= files@.len(),
            text@ == context_block(files@.take(i as int)),
        decreases files@.len() - i,
    {
        assert(files@.take(i + 1).drop_last() =~= files@.take(i as int));
        let f = &files[i];
        text.append("--- ");
        text.append(f.0.as_str());
        text.append(" ---\n");
        text.append(f.1.as_str());
        text.append("\n");
        assert(text@ =~= context_block(files@.take(i + 1)));
        i = i + 1;
    }
    assert(files@.take(files@.len() as int) =~= files@);
    text.append("Question: ");
    text.append(query.as_str());
    let mut r: Vec<Message> = Vec::new();
    r.push(message(MessageRole::System, String::from_str("Answer the question. Use the files given as context where they help.")));
    r.push(message(MessageRole::User, text));
    r
}

} // verus!
