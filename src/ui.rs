use vstd::prelude::*;
use crate::text::{chars_of, split_tokens, string_of, words};
use crate::types::{Command, KeyAction, Message, TuiError, UserAction};

verus! {

#[verifier::external_type_specification]
#[verifier::external_body]
pub struct ExInstant(std::time::Instant);

/// Relies on std::time::Instant::now: the current instant of the monotonic
/// clock.
#[verifier::external_body]
fn instant_now() -> (r: std::time::Instant) {
    std::time::Instant::now()
}

/// What the terminal shows besides the conversation: the line being typed,
/// the scroll position, the input mode, a status line, whether help is open,
/// and when the last key was typed.
#[derive(Debug)]
pub struct TuiState {
    pub input_buffer: String,
    pub scroll_position: usize,
    pub command_mode: bool,
    pub status_message: Option<String>,
    pub show_help: bool,
    pub last_input_time: std::time::Instant,
}

impl Default for TuiState {
    fn default() -> (r: Self)
        ensures
            r.input_buffer@.len() == 0,
            r.scroll_position == 0,
            !r.command_mode,
            r.status_message is None,
            !r.show_help,
    {
        TuiState {
            input_buffer: String::new(),
            scroll_position: 0,
            command_mode: false,
            status_message: None,
            show_help: false,
            last_input_time: instant_now(),
        }
    }
}

/// What the terminal shows of the application: the transcript, the two
/// modes, a status text and the part of an answer streamed so far.
#[derive(Debug)]
pub struct AppDisplayData {
    pub messages: Vec<Message>,
    pub provisional_mode: bool,
    pub rag_enabled: bool,
    pub current_status: String,
    pub streaming_response: Option<String>,
}

impl Default for AppDisplayData {
    fn default() -> (r: Self)
        ensures
            r.messages@.len() == 0,
            !r.provisional_mode,
            !r.rag_enabled,
            r.current_status@.len() == 0,
            r.streaming_response is None,
    {
        AppDisplayData {
            messages: Vec::new(),
            provisional_mode: false,
            rag_enabled: false,
            current_status: String::new(),
            streaming_response: None,
        }
    }
}

fn is_word(w: &String, lit: &str) -> (r: bool)
    ensures
        r == (w@ == lit@),
{
    let l = String::from_str(lit);
    *w == l
}

/// The command that a word names.
#[derive(Clone, Copy, Debug, PartialEq, Eq, Structural)]
pub enum CommandName {
    Help,
    Config,
    Clear,
    ToggleRag,
    ToggleProvisional,
    AddSource,
    RemoveSource,
    ListSources,
    Exit,
    Unknown,
}

/// The command named by the first word of a command line.
pub open spec fn command_name(w: Seq<char>) -> CommandName {
    if w == "help"@ {
        CommandName::Help
    } else if w == "config"@ {
        CommandName::Config
    } else if w == "clear"@ {
        CommandName::Clear
    } else if w == "toggle-rag"@ {
        CommandName::ToggleRag
    } else if w == "toggle-prov"@ || w == "toggle-provisional"@ {
        CommandName::ToggleProvisional
    } else if w == "add-source"@ {
        CommandName::AddSource
    } else if w == "remove-source"@ {
        CommandName::RemoveSource
    } else if w == "list-sources"@ {
        CommandName::ListSources
    } else if w == "exit"@ || w == "quit"@ {
        CommandName::Exit
    } else {
        CommandName::Unknown
    }
}

fn name_of(w: &String) -> (r: CommandName)
    ensures
        r == command_name(w@),
{
    if is_word(w, "help") {
        CommandName::Help
    } else if is_word(w, "config") {
        CommandName::Config
    } else if is_word(w, "clear") {
        CommandName::Clear
    } else if is_word(w, "toggle-rag") {
        CommandName::ToggleRag
    } else if is_word(w, "toggle-prov") || is_word(w, "toggle-provisional") {
        CommandName::ToggleProvisional
    } else if is_word(w, "add-source") {
        CommandName::AddSource
    } else if is_word(w, "remove-source") {
        CommandName::RemoveSource
    } else if is_word(w, "list-sources") {
        CommandName::ListSources
    } else if is_word(w, "exit") || is_word(w, "quit") {
        CommandName::Exit
    } else {
        CommandName::Unknown
    }
}

/// Whether `r` is what parsing the command line `s` gives.
pub open spec fn parse_outcome(s: Seq<char>, r: Result<Command, TuiError>) -> bool {
    &&& (r matches Err(e) ==> e is InputHandling)
    &&& (words(s).len() == 0 ==> r is Err)
    &&& (words(s).len() > 0 ==> {
            let name = command_name(words(s)[0]);
            let n = words(s).len();
            &&& (name == CommandName::Help <==> r matches Ok(Command::Help))
            &&& (name == CommandName::Config <==> r matches Ok(Command::Config))
            &&& (name == CommandName::Clear <==> r matches Ok(Command::Clear))
            &&& (name == CommandName::ToggleRag <==> r matches Ok(Command::ToggleRag))
            &&& (name == CommandName::ToggleProvisional <==> r matches Ok(Command::ToggleProvisional))
            &&& (name == CommandName::ListSources <==> r matches Ok(Command::ListSources))
            &&& (name == CommandName::Exit <==> r matches Ok(Command::Exit))
            &&& (name == CommandName::AddSource && n >= 2 <==> r is Ok && r->Ok_0 is AddSource)
            &&& (name == CommandName::RemoveSource && n >= 2 <==> r is Ok && r->Ok_0 is RemoveSource)
            &&& (r matches Ok(Command::AddSource(p)) ==> p@ == words(s)[1])
            &&& (r matches Ok(Command::RemoveSource(p)) ==> p@ == words(s)[1])
        })
}

/// Parses a command line (without its leading `/`): the first word names the
/// command, `add-source` and `remove-source` take the second word as path,
/// and further words are ignored. An empty line, an unknown command or a
/// missing path is an `InputHandling` error.
pub fn parse_command(command_str: &str) -> (r: Result<Command, TuiError>)
    ensures
        parse_outcome(command_str@, r),
{
    let parts = split_tokens(command_str, false);
    if parts.len() == 0 {
        return Err(TuiError::InputHandling(String::from_str("Empty command")));
    }
    match name_of(&parts[0]) {
        CommandName::Help => Ok(Command::Help),
        CommandName::Config => Ok(Command::Config),
        CommandName::Clear => Ok(Command::Clear),
        CommandName::ToggleRag => Ok(Command::ToggleRag),
        CommandName::ToggleProvisional => Ok(Command::ToggleProvisional),
        CommandName::AddSource => {
            if parts.len() < 2 {
                return Err(TuiError::InputHandling(String::from_str("add-source requires a path argument")));
            }
            Ok(Command::AddSource(parts[1].clone()))
        },
        CommandName::RemoveSource => {
            if parts.len() < 2 {
                return Err(TuiError::InputHandling(String::from_str("remove-source requires a path argument")));
            }
            Ok(Command::RemoveSource(parts[1].clone()))
        },
        CommandName::ListSources => Ok(Command::ListSources),
        CommandName::Exit => Ok(Command::Exit),
        CommandName::Unknown => Err(TuiError::InputHandling(crate::text::concat("Unknown command: ", parts[0].as_str()))),
    }
}

/// A submitted line as a command line: without its leading `/`, if any.
pub open spec fn command_line(b: Seq<char>) -> Seq<char> {
    if b.len() > 0 && b[0] == '/' {
        b.drop_first()
    } else {
        b
    }
}

impl TuiState {
    /// The line being typed.
    pub fn get_input_buffer(&self) -> (r: &str)
        ensures
            r@ == self.input_buffer@,
    {
        self.input_buffer.as_str()
    }

    /// Empties the line being typed.
    pub fn clear_input_buffer(&mut self)
        ensures
            final(self).input_buffer@.len() == 0,
            final(self).status_message == old(self).status_message,
            final(self).command_mode == old(self).command_mode,
            final(self).show_help == old(self).show_help,
    {
        self.input_buffer = String::new();
    }

    /// Sets or clears the status line.
    pub fn set_status_message(&mut self, message: Option<String>)
        ensures
            final(self).status_message == message,
            final(self).input_buffer == old(self).input_buffer,
    {
        self.status_message = message;
    }

    /// Opens or closes the help.
    pub fn toggle_help(&mut self)
        ensures
            final(self).show_help == !old(self).show_help,
            final(self).input_buffer == old(self).input_buffer,
            final(self).command_mode == old(self).command_mode,
    {
        self.show_help = !self.show_help;
    }

    /// Applies one key press. Escape closes the help, else empties the line,
    /// else asks to exit. Tab switches between message and command mode.
    /// Enter on a non-empty line empties it and hands it on: as a command in
    /// command mode or when it starts with `/` (which is dropped), as a
    /// message otherwise. Backspace drops the last character, a character is
    /// appended, and the page keys scroll.
    pub fn apply_key(&mut self, key: KeyAction) -> (r: Result<Option<UserAction>, TuiError>)
        ensures
            key is Tab ==> final(self).command_mode == !old(self).command_mode && r matches Ok(None),
            key is Escape && old(self).show_help ==> !final(self).show_help && r matches Ok(None),
            key is Escape && !old(self).show_help && old(self).input_buffer@.len() > 0 ==> final(self).input_buffer@.len() == 0
                && r matches Ok(None),
            key is Escape && !old(self).show_help && old(self).input_buffer@.len() == 0 ==> r matches Ok(Some(UserAction::Exit)),
            key is Enter && old(self).input_buffer@.len() > 0 ==> final(self).input_buffer@.len() == 0,
            key is Enter && old(self).input_buffer@.len() > 0 && !old(self).command_mode && old(self).input_buffer@[0] != '/'
                ==> r matches Ok(Some(UserAction::SendMessage)),
            key is Enter && old(self).input_buffer@.len() == 0 ==> r matches Ok(None),
            key is Enter && old(self).input_buffer@.len() > 0 && (old(self).command_mode || old(self).input_buffer@[0] == '/')
                ==> match r {
                Ok(Some(UserAction::ExecuteCommand(c))) => parse_outcome(command_line(old(self).input_buffer@), Ok(c)),
                Err(e) => parse_outcome(command_line(old(self).input_buffer@), Err(e)),
                _ => false,
            },
            key matches KeyAction::Char(c) ==> final(self).input_buffer@ == old(self).input_buffer@.push(c) && r matches Ok(None),
            key is Backspace && old(self).input_buffer@.len() > 0 ==> final(self).input_buffer@ == old(self).input_buffer@.drop_last(),
            key is PageUp ==> r matches Ok(Some(UserAction::ScrollUp)),
            key is PageDown ==> r matches Ok(Some(UserAction::ScrollDown)),
            !(key is Enter) && !(key is Escape) && !(key is Char) && !(key is Backspace) ==> final(self).input_buffer == old(self).input_buffer,
    {
        match key {
            KeyAction::Escape => {
                if self.show_help {
                    self.show_help = false;
                    Ok(None)
                } else if self.input_buffer.as_str().unicode_len() > 0 {
                    self.input_buffer = String::new();
                    Ok(None)
                } else {
                    Ok(Some(UserAction::Exit))
                }
            },
            KeyAction::Tab => {
                self.command_mode = !self.command_mode;
                Ok(None)
            },
            KeyAction::Enter => {
                let line = chars_of(self.input_buffer.as_str());
                if line.len() == 0 {
                    return Ok(None);
                }
                self.input_buffer = String::new();
                if self.command_mode || line[0] == '/' {
                    let start: usize = if line[0] == '/' { 1 } else { 0 };
                    let mut rest: Vec<char> = Vec::new();
                    let mut i: usize = start;
                    while i < line.len()
                        invariant
                            start <= i <= line@.len(),
                            start == (if line@[0] == '/' { 1int } else { 0int }),
                            rest@ == line@.subrange(start as int, i as int),
                        decreases line@.len() - i,
                    {
                        rest.push(line[i]);
                        i = i + 1;
                    }
                    assert(rest@ =~= command_line(line@));
                    let text = string_of(rest.as_slice());
                    match parse_command(text.as_str()) {
                        Ok(c) => Ok(Some(UserAction::ExecuteCommand(c))),
                        Err(e) => Err(e),
                    }
                } else {
                    Ok(Some(UserAction::SendMessage))
                }
            },
            KeyAction::Backspace => {
                let line = chars_of(self.input_buffer.as_str());
                if line.len() > 0 {
                    let mut kept: Vec<char> = Vec::new();
                    let mut i: usize = 0;
                    while i < line.len() - 1
                        invariant
                            i < line@.len(),
                            kept@ == line@.take(i as int),
                        decreases line@.len() - i,
                    {
                        kept.push(line[i]);
                        i = i + 1;
                    }
                    assert(kept@ =~= line@.drop_last());
                    self.input_buffer = string_of(kept.as_slice());
                }
                Ok(None)
            },
            KeyAction::PageUp => Ok(Some(UserAction::ScrollUp)),
            KeyAction::PageDown => Ok(Some(UserAction::ScrollDown)),
            KeyAction::Char(c) => {
                let one = [c];
                let s = string_of(&one);
                assert(s@ =~= seq![c]);
                self.input_buffer.append(s.as_str());
                self.last_input_time = instant_now();
                Ok(None)
            },
            _ => Ok(None),
        }
    }
}

} // verus!
