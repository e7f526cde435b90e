//! What an interactive shell decides before it touches the connection: the
//! address to connect to, and what to do with a line that the user typed.

use vstd::prelude::*;
use vstd::utf8::encode_utf8;
use crate::config::PACKET_BODY_MAX_LEN;

verus! {

/// Where the server is.
#[derive(Debug)]
pub struct Args {
    /// The IPv4 address of the server.
    pub ip: String,
    /// The port that the server listens on.
    pub port: String,
}

impl Default for Args {
    /// A server on this machine, on the usual port.
    fn default() -> (args: Args)
        ensures
            args.ip@ == "127.0.0.1"@,
            args.port@ == "27015"@,
    {
        Args { ip: "127.0.0.1".to_owned(), port: "27015".to_owned() }
    }
}

impl Args {
    /// The address to connect to: the IP address, a colon and the port.
    pub fn address(&self) -> (address: String)
        ensures
            address@ == self.ip@ + seq![':'] + self.port@,
    {
        let mut address = self.ip.clone();
        proof {
            reveal_strlit(":");
        }
        address.append(":");
        address.append(self.port.as_str());
        address
    }
}

/// What to do with a line that the user typed.
#[derive(Debug, PartialEq, Eq)]
pub enum ShellInput {
    /// The command does not fit into one packet: tell the user, send
    /// nothing.
    TooLong,
    /// The command would shut the server down: tell the user, send nothing.
    Refused,
    /// Send this command.
    Command(String),
}

/// A `ShellInput` as mathematical values.
pub enum ShellInputView {
    TooLong,
    Refused,
    Command(Seq<char>),
}

impl View for ShellInput {
    type V = ShellInputView;

    open spec fn view(&self) -> ShellInputView {
        match self {
            ShellInput::TooLong => ShellInputView::TooLong,
            ShellInput::Refused => ShellInputView::Refused,
            ShellInput::Command(command) => ShellInputView::Command(command@),
        }
    }
}

/// True for the characters to which Unicode gives the property White_Space:
/// tab to carriage return, the space, next line, the no-break space, the
/// ogham space mark, en quad to hair space, the line and the paragraph
/// separator, the narrow no-break space, the medium mathematical space and
/// the ideographic space.
pub open spec fn is_white_space(c: char) -> bool {
    let u: u32 = c as u32;
    ||| 0x09 <= u <= 0x0d
    ||| u == 0x20
    ||| u == 0x85
    ||| u == 0xa0
    ||| u == 0x1680
    ||| 0x2000 <= u <= 0x200a
    ||| u == 0x2028
    ||| u == 0x2029
    ||| u == 0x202f
    ||| u == 0x205f
    ||| u == 0x3000
}

/// The text without the whitespace that ends it: the longest beginning of
/// the text that does not end in a character with the property White_Space.
pub open spec fn trimmed_end(line: Seq<char>) -> Seq<char>
    decreases line.len(),
{
    if line.len() > 0 && is_white_space(line.last()) {
        trimmed_end(line.drop_last())
    } else {
        line
    }
}

/// `str::trim_end`: the line without the whitespace that ends it, where
/// whitespace is what Unicode gives the property White_Space.
#[verifier::external_body]
fn trim_end(line: &str) -> (command: &str)
    ensures
        command@ == trimmed_end(line@),
{
    line.trim_end()
}

/// What to do with a command: one whose UTF-8 bytes are more than
/// `PACKET_BODY_MAX_LEN` is too long, `exit` and `quit` are refused, and
/// every other command is sent as it is.
pub open spec fn command_input(command: Seq<char>) -> ShellInputView {
    if encode_utf8(command).len() > PACKET_BODY_MAX_LEN {
        ShellInputView::TooLong
    } else if command == "exit"@ || command == "quit"@ {
        ShellInputView::Refused
    } else {
        ShellInputView::Command(command)
    }
}

/// Decides what to do with a command.
pub fn interpret_command(command: &str) -> (input: ShellInput)
    ensures
        input@ == command_input(command@),
{
    if command.as_bytes().len() > PACKET_BODY_MAX_LEN {
        return ShellInput::TooLong;
    }
    let owned = command.to_owned();
    if owned == "exit".to_owned() || owned == "quit".to_owned() {
        ShellInput::Refused
    } else {
        ShellInput::Command(owned)
    }
}

/// Decides what to do with a line as it was read: the whitespace that ends
/// it is dropped, and the rest is the command.
pub fn interpret_line(line: &str) -> (input: ShellInput)
    ensures
        input@ == command_input(trimmed_end(line@)),
{
    interpret_command(trim_end(line))
}

} // verus!
