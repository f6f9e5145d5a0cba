//! Commands the user can type, and the library that keeps them.

use std::cmp::Ordering;

use vstd::prelude::*;

use crate::text::chars_lt;
use crate::text::chars_of;
use crate::text::lex_lt;

pub mod commands;
pub mod handler;
pub mod library;
pub mod order;
pub mod request;

pub use library::CommandLibrary;

verus! {

/// What Jelly does with a command once the user has typed it.
#[derive(Clone, Copy, PartialEq, Eq, Structural, Debug)]
pub enum CommandKind {
    /// Its name is sent as a raw diagnostic text message.
    Text,
    /// A Jelly internal command (help, forcing commands available).
    Jelly,
    /// A CoAP GET request to the command's first required end-point.
    CoapGet,
    /// Queries `/.well-known/core` and shows the resources one per line.
    Wkc,
    /// Queries several end-points in a row.
    MultiEndpointSample,
    /// Reads device memory in chunks.
    MemRead,
    /// Lists the device's threads.
    Ps,
    /// Lists, reads or writes SAUL sensors and actuators.
    Saul,
    /// The example command that POSTs its arguments.
    SampleCommand,
    /// Shows or changes the device's network interfaces.
    Ifconfig,
    /// Runs a Roto script of that name.
    Roto,
    /// Reads buttons and sets LEDs to match.
    ButtonLed,
    /// Crawls the device's resources.
    Spider,
    /// Writes a value to a resource.
    Write,
    /// Turns a regular command line into a shell `ifconfig`.
    IfconfigWrapper,
}

/// A command the user can type into Jelly.
pub struct Command {
    /// The name of the command, what the user types.
    pub cmd: String,
    /// What the command does.
    pub description: String,
    /// The CoAP end-point(s) the command requires, if any.
    pub required_endpoints: Vec<String>,
    /// How the command is carried out.
    pub kind: CommandKind,
}

/// A command as a value.
pub struct CommandView {
    pub cmd: Seq<char>,
    pub description: Seq<char>,
    pub required_endpoints: Seq<Seq<char>>,
    pub kind: CommandKind,
}

impl View for Command {
    type V = CommandView;

    open spec fn view(&self) -> CommandView {
        CommandView {
            cmd: self.cmd@,
            description: self.description@,
            required_endpoints: self.required_endpoints@.map_values(|e: String| e@),
            kind: self.kind,
        }
    }
}

/// The name of the command that lists all commands; it is always sorted first.
pub open spec fn help_name() -> Seq<char> {
    seq!['h', 'e', 'l', 'p']
}

/// Whether a command name is a CoAP resource path, which sorts last.
pub open spec fn is_path_name(name: Seq<char>) -> bool {
    name.len() > 0 && name[0] == '/'
}

/// Whether command `a` sorts strictly before command `b`: `help` first, then
/// commands that are not resource paths, those needing more end-points first,
/// then resource paths in lexicographic order.
pub open spec fn command_before(a: CommandView, b: CommandView) -> bool {
    if a.cmd == help_name() {
        true
    } else if b.cmd == help_name() {
        false
    } else if is_path_name(a.cmd) != is_path_name(b.cmd) {
        !is_path_name(a.cmd)
    } else if is_path_name(a.cmd) {
        lex_lt(a.cmd, b.cmd)
    } else {
        a.required_endpoints.len() > b.required_endpoints.len()
    }
}

/// Whether commands `a` and `b` sort as equal.
pub open spec fn command_tie(a: CommandView, b: CommandView) -> bool {
    !command_before(a, b) && !command_before(b, a)
}

pub open spec fn strip_shell_prefix(location: Seq<char>) -> Seq<char> {
    location.skip(7)
}

/// Whether `location` starts with `/shell/`.
pub open spec fn has_shell_prefix(location: Seq<char>) -> bool {
    location.len() >= 7 && location.take(7) == seq!['/', 's', 'h', 'e', 'l', 'l', '/']
}

fn is_help(name: &Vec<char>) -> (r: bool)
    ensures
        r == (name@ == help_name()),
{
    let r = name.len() == 4 && name[0] == 'h' && name[1] == 'e' && name[2] == 'l' && name[3]
        == 'p';
    proof {
        if name@ == help_name() {
            assert(name@[0] == 'h' && name@[1] == 'e' && name@[2] == 'l' && name@[3] == 'p');
        }
        if r {
            assert(name@ =~= help_name());
        }
    }
    r
}

impl Command {
    /// A command without end-point, sent as raw diagnostic message.
    pub fn new_text_type(cmd: &str, description: &str) -> (r: Self)
        ensures
            r@.cmd == cmd@,
            r@.description == description@,
            r@.required_endpoints.len() == 0,
            r@.kind == CommandKind::Text,
    {
        Self {
            cmd: cmd.to_owned(),
            description: description.to_owned(),
            required_endpoints: Vec::new(),
            kind: CommandKind::Text,
        }
    }

    /// A command for Jelly internal usage.
    pub fn new_jelly_type(cmd: &str, description: &str) -> (r: Self)
        ensures
            r@.cmd == cmd@,
            r@.description == description@,
            r@.required_endpoints.len() == 0,
            r@.kind == CommandKind::Jelly,
    {
        Self {
            cmd: cmd.to_owned(),
            description: description.to_owned(),
            required_endpoints: Vec::new(),
            kind: CommandKind::Jelly,
        }
    }

    /// A command that GETs the resource at `resource`; the location is the
    /// command's name.
    pub fn new_coap_get(resource: &str, description: &str) -> (r: Self)
        ensures
            r@.cmd == resource@,
            r@.description == description@,
            r@.required_endpoints == seq![resource@],
            r@.kind == CommandKind::CoapGet,
    {
        let mut eps: Vec<String> = Vec::new();
        eps.push(resource.to_owned());
        let r = Self {
            cmd: resource.to_owned(),
            description: description.to_owned(),
            required_endpoints: eps,
            kind: CommandKind::CoapGet,
        };
        assert(r@.required_endpoints =~= seq![resource@]);
        r
    }

    /// A text command for the RIOT shell end-point `location`, which must
    /// start with `/shell/`; the rest of the location is the command's name.
    pub fn from_location(location: &str, description: &str) -> (r: Self)
        requires
            has_shell_prefix(location@),
        ensures
            r@.cmd == strip_shell_prefix(location@),
            r@.description == description@,
            r@.required_endpoints.len() == 0,
            r@.kind == CommandKind::Text,
    {
        let chars = chars_of(location);
        let name = crate::text::string_from_range(chars.as_slice(), 7, chars.len());
        assert(chars@.subrange(7, chars@.len() as int) == location@.skip(7));
        Self {
            cmd: name,
            description: description.to_owned(),
            required_endpoints: Vec::new(),
            kind: CommandKind::Text,
        }
    }

    /// Replaces the description of the command.
    pub fn update_description(&mut self, description: &str)
        ensures
            final(self)@.description == description@,
            final(self)@.cmd == old(self)@.cmd,
            final(self)@.required_endpoints == old(self)@.required_endpoints,
            final(self)@.kind == old(self)@.kind,
    {
        self.description = description.to_owned();
    }

    /// Whether the command's name starts with `prefix`.
    pub fn starts_with(&self, prefix: &str) -> (r: bool)
        ensures
            r == prefix@.is_prefix_of(self@.cmd),
    {
        let name = chars_of(self.cmd.as_str());
        let p = chars_of(prefix);
        crate::text::starts_with_chars(name.as_slice(), p.as_slice())
    }

    /// Whether the command sorts strictly before `other`.
    pub fn sorts_before(&self, other: &Self) -> (r: bool)
        ensures
            r == command_before(self@, other@),
    {
        let a = chars_of(self.cmd.as_str());
        let b = chars_of(other.cmd.as_str());
        if is_help(&a) {
            return true;
        }
        if is_help(&b) {
            return false;
        }
        let a_path = a.len() > 0 && a[0] == '/';
        let b_path = b.len() > 0 && b[0] == '/';
        if a_path != b_path {
            !a_path
        } else if a_path {
            chars_lt(a.as_slice(), b.as_slice())
        } else {
            other.required_endpoints.len() < self.required_endpoints.len()
        }
    }

    /// How the command sorts against `other`; `help` sorts before every
    /// command, itself included.
    pub fn order(&self, other: &Self) -> (r: Ordering)
        ensures
            r == Ordering::Less <==> command_before(self@, other@),
            r == Ordering::Greater <==> !command_before(self@, other@) && command_before(
                other@,
                self@,
            ),
            r == Ordering::Equal <==> command_tie(self@, other@),
    {
        if self.sorts_before(other) {
            Ordering::Less
        } else if other.sorts_before(self) {
            Ordering::Greater
        } else {
            Ordering::Equal
        }
    }
}

} // verus!
