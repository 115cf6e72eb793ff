//! The commands that a line of input denotes.

use crate::encoding::lemma_text_after_ascii;
use vstd::prelude::*;
use vstd::string::*;
use vstd::utf8::*;

verus! {

/// What the user asks for with one line of input.
#[derive(Debug, PartialEq, Eq)]
pub enum Command {
    /// Send the line as a chat message.
    Text(String),
    /// Register the given display name.
    RegisterUsername(String),
    /// Connect to the given address, `host:port`.
    Connect(String),
    /// Close the active connection.
    Disconnect,
    /// Leave the program.
    Quit,
}

/// The mathematical value of a [`Command`].
pub enum CommandView {
    Text(Seq<char>),
    RegisterUsername(Seq<char>),
    Connect(Seq<char>),
    Disconnect,
    Quit,
}

impl View for Command {
    type V = CommandView;

    open spec fn view(&self) -> CommandView {
        match self {
            Command::Text(line) => CommandView::Text(line@),
            Command::RegisterUsername(name) => CommandView::RegisterUsername(name@),
            Command::Connect(address) => CommandView::Connect(address@),
            Command::Disconnect => CommandView::Disconnect,
            Command::Quit => CommandView::Quit,
        }
    }
}

/// The pattern of a line that registers a display name.
pub const REGISTER_PATTERN: &'static str = "^/register (.*)$";

/// The pattern of a line that leaves the program.
pub const QUIT_PATTERN: &'static str = "^/quit$";

/// The pattern of a line that connects to an address.
pub const CONNECT_PATTERN: &'static str = "^/connect (.*):(.*)$";

/// The pattern of a line that closes the connection.
pub const DISCONNECT_PATTERN: &'static str = "^/disconnect$";

/// Whether `regex::Regex::new` accepts `pattern`: the pattern is well formed
/// and what it compiles to is within the size that the `regex` crate allows
/// by default.
pub uninterp spec fn regex_compiles(pattern: Seq<char>) -> bool;

/// Whether the regular expression `pattern` has a match somewhere in
/// `haystack`, as the `regex` crate decides it.
pub uninterp spec fn regex_is_match(pattern: Seq<char>, haystack: Seq<char>) -> bool;

/// Compiles `pattern` with `regex::Regex::new` and searches `haystack` with
/// `regex::Regex::is_match`.
///
/// There is an answer exactly where the pattern compiles, which depends on
/// the pattern alone. The answer says whether the expression has a match in
/// the haystack, which depends on the two texts alone.
#[verifier::external_body]
fn search(pattern: &str, haystack: &str) -> (answer: Option<bool>)
    ensures
        answer is Some <==> regex_compiles(pattern@),
        answer matches Some(found) ==> found == regex_is_match(pattern@, haystack@),
{
    match regex::Regex::new(pattern) {
        Ok(expression) => Some(expression.is_match(haystack)),
        Err(_) => None,
    }
}

/// What is left of `line` once the white space at its two ends is removed,
/// as `str::trim` decides it.
pub uninterp spec fn trimmed(line: Seq<char>) -> Seq<char>;

/// `str::trim` of the standard library: the part of the line between the
/// white space at its start and the white space at its end, which depends on
/// the characters of the line alone.
pub assume_specification[ str::trim ](line: &str) -> (inner: &str)
    ensures
        inner@ == trimmed(line@),
;

/// The text that starts at byte `offset` of the UTF-8 encoding of `line`.
pub open spec fn text_from(line: Seq<char>, offset: int) -> Seq<char> {
    decode_utf8(encode_utf8(line).skip(offset))
}

/// Whether byte `offset` of the UTF-8 encoding of `line` starts a character
/// or is the end of the line.
pub open spec fn splits_at(line: Seq<char>, offset: int) -> bool {
    is_char_boundary(encode_utf8(line), offset)
}

impl CommandView {
    /// The command that a line denotes, given which of the four patterns
    /// match it. The patterns are tried in the order of the parameters, and
    /// a line that matches none is a chat message.
    pub open spec fn chosen(
        line: Seq<char>,
        register: bool,
        quit: bool,
        connect: bool,
        disconnect: bool,
    ) -> CommandView {
        if register {
            CommandView::RegisterUsername(text_from(line, 10))
        } else if quit {
            CommandView::Quit
        } else if connect {
            CommandView::Connect(text_from(line, 9))
        } else if disconnect {
            CommandView::Disconnect
        } else {
            CommandView::Text(line)
        }
    }

    /// The command that a line denotes: the one that is chosen where each
    /// pattern matches as the `regex` crate decides it. A name or an address
    /// is only cut off where the line can be split at its first byte.
    pub open spec fn denoted(line: Seq<char>) -> CommandView {
        CommandView::chosen(
            line,
            regex_is_match(REGISTER_PATTERN@, line) && splits_at(line, 10),
            regex_is_match(QUIT_PATTERN@, line),
            regex_is_match(CONNECT_PATTERN@, line) && splits_at(line, 9),
            regex_is_match(DISCONNECT_PATTERN@, line),
        )
    }

    /// The command that is read out of a line: the one that the line
    /// denotes, provided that the four patterns compile; the line as a chat
    /// message if one of them does not.
    pub open spec fn parsed(line: Seq<char>) -> CommandView {
        if patterns_compile() {
            CommandView::denoted(line)
        } else {
            CommandView::Text(line)
        }
    }
}

/// Whether each of the four patterns of the command syntax compiles.
pub open spec fn patterns_compile() -> bool {
    &&& regex_compiles(REGISTER_PATTERN@)
    &&& regex_compiles(QUIT_PATTERN@)
    &&& regex_compiles(CONNECT_PATTERN@)
    &&& regex_compiles(DISCONNECT_PATTERN@)
}

/// The ten characters that open a line that registers a display name.
pub open spec fn register_opening() -> Seq<char> {
    seq!['/', 'r', 'e', 'g', 'i', 's', 't', 'e', 'r', ' ']
}

/// The nine characters that open a line that connects to an address.
pub open spec fn connect_opening() -> Seq<char> {
    seq!['/', 'c', 'o', 'n', 'n', 'e', 'c', 't', ' ']
}

/// A line made of `/register`, a space and a name denotes the registration
/// of that name, whatever the name holds, as soon as the registration
/// pattern matches the line; and where the patterns compile, that is what is
/// read out of the line.
pub proof fn lemma_register_form(name: Seq<char>)
    ensures
        regex_is_match(REGISTER_PATTERN@, register_opening() + name) ==> CommandView::denoted(
            register_opening() + name,
        ) == CommandView::RegisterUsername(name),
        patterns_compile() && regex_is_match(REGISTER_PATTERN@, register_opening() + name)
            ==> CommandView::parsed(register_opening() + name) == CommandView::RegisterUsername(
            name,
        ),
{
    lemma_text_after_ascii(register_opening(), name);
}

/// A line made of `/connect`, a space and an address denotes the connection
/// to that address, whatever the address holds, as soon as the connect
/// pattern matches the line and neither of the two patterns before it does;
/// and where the patterns compile, that is what is read out of the line.
pub proof fn lemma_connect_form(address: Seq<char>)
    ensures
        ({
            let line = connect_opening() + address;
            regex_is_match(CONNECT_PATTERN@, line) && !regex_is_match(REGISTER_PATTERN@, line)
                && !regex_is_match(QUIT_PATTERN@, line) ==> {
                &&& CommandView::denoted(line) == CommandView::Connect(address)
                &&& patterns_compile() ==> CommandView::parsed(line) == CommandView::Connect(
                    address,
                )
            }
        }),
{
    lemma_text_after_ascii(connect_opening(), address);
}

/// The part of `line` from byte `offset` on.
fn tail(line: &str, offset: usize) -> (rest: String)
    requires
        splits_at(line@, offset as int),
    ensures
        rest@ == text_from(line@, offset as int),
{
    let (_, rest) = line.split_at(offset);
    proof {
        encode_utf8_decode_utf8(rest@);
        assert(rest.spec_bytes() =~= encode_utf8(line@).skip(offset as int));
    }
    rest.to_owned()
}

impl Command {
    /// The command that `cmd` denotes, given which of the four patterns
    /// match it.
    ///
    /// A name starts at byte 10 of the line, an address at byte 9.
    pub fn from_matches(
        cmd: String,
        register: bool,
        quit: bool,
        connect: bool,
        disconnect: bool,
    ) -> (command: Command)
        requires
            register ==> splits_at(cmd@, 10),
            !register && !quit && connect ==> splits_at(cmd@, 9),
        ensures
            command@ == CommandView::chosen(cmd@, register, quit, connect, disconnect),
    {
        if register {
            Command::RegisterUsername(tail(cmd.as_str(), 10))
        } else if quit {
            Command::Quit
        } else if connect {
            Command::Connect(tail(cmd.as_str(), 9))
        } else if disconnect {
            Command::Disconnect
        } else {
            Command::Text(cmd)
        }
    }

    /// The command that one line of input denotes.
    ///
    /// The line is held against the four patterns: registration, quit,
    /// connect, disconnect, and the first that matches decides. A line that
    /// matches none of them is a chat message and is kept whole. Should one
    /// of the patterns not compile, the line is a chat message too.
    pub fn parse(cmd: String) -> (command: Command)
        ensures
            command@ == CommandView::parsed(cmd@),
    {
        let line = cmd.as_str();
        let register = search(REGISTER_PATTERN, line);
        let quit = search(QUIT_PATTERN, line);
        let connect = search(CONNECT_PATTERN, line);
        let disconnect = search(DISCONNECT_PATTERN, line);
        match (register, quit, connect, disconnect) {
            (Some(register), Some(quit), Some(connect), Some(disconnect)) => {
                let register = register && line.is_char_boundary(10);
                let connect = connect && line.is_char_boundary(9);
                Command::from_matches(cmd, register, quit, connect, disconnect)
            },
            _ => Command::Text(cmd),
        }
    }

    /// The command that a line of input denotes once the white space at its
    /// two ends, the line break among it, is removed: what [`Command::parse`]
    /// reads out of the trimmed line.
    pub fn from_line(line: &str) -> (command: Command)
        ensures
            command@ == CommandView::parsed(trimmed(line@)),
    {
        Command::parse(line.trim().to_owned())
    }
}

} // verus!
