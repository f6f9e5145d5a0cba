//! The commands Jelly implements itself.

pub mod button_led;
pub mod coap_get_template;
pub mod ifconfig;
pub mod ifconfig_wrapper;
pub mod ip;
pub mod wkc;
pub mod write;
pub mod multi_endpoints_sample;
pub mod mem;
pub mod ps;
pub mod sample;
pub mod saul;
pub mod spider;

use vstd::prelude::*;

use super::Command;
use super::CommandKind;
use super::CommandView;

verus! {

/// The commands Jelly implements, before any Roto script commands: `Saul`,
/// `MultiEndpointSample`, `MemRead`, `Ps`, `Wkc`, the text command `help`,
/// a GET of `/.well-known/core`, and the Jelly commands `Help` and
/// `ForceCmdsAvailable`.
pub fn all_commands() -> (r: Vec<Command>)
    ensures
        r@.len() == 9,
        r@[0]@.cmd == "Saul"@,
        r@[1]@.cmd == "MultiEndpointSample"@,
        r@[2]@.cmd == "MemRead"@,
        r@[3]@.cmd == "Ps"@,
        r@[4]@.cmd == "Wkc"@,
        r@[5]@.cmd == "help"@ && r@[5]@.kind == CommandKind::Text && r@[5]@.required_endpoints.len() == 0,
        r@[6]@.cmd == "/.well-known/core"@ && r@[6]@.kind == CommandKind::CoapGet,
        r@[7]@.cmd == "Help"@ && r@[7]@.kind == CommandKind::Jelly,
        r@[8]@.cmd == "ForceCmdsAvailable"@ && r@[8]@.kind == CommandKind::Jelly,
{
    let mut all_cmds: Vec<Command> = Vec::new();
    all_cmds.push(saul::cmd());
    all_cmds.push(multi_endpoints_sample::cmd());
    all_cmds.push(mem::cmd());
    all_cmds.push(ps::cmd());
    all_cmds.push(wkc::Wkc::cmd());
    all_cmds.push(Command::new_text_type("help", "Prints all available commands"));
    all_cmds.push(Command::new_coap_get("/.well-known/core", "Query the wkc"));
    all_cmds.push(Command::new_jelly_type("Help", "Jelly Help"));
    all_cmds.push(
        Command::new_jelly_type(
            "ForceCmdsAvailable",
            "Enables all implemented commands disregarding their requirements",
        ),
    );
    all_cmds
}

/// The two commands a fresh library offers: the text command `help` and the
/// GET of `/.well-known/core`.
pub open spec fn default_views() -> Seq<CommandView> {
    seq![
        CommandView { cmd: "help"@, description: "Prints all available commands"@, required_endpoints: Seq::empty(), kind: CommandKind::Text },
        CommandView {
            cmd: "/.well-known/core"@,
            description: "Query the wkc"@,
            required_endpoints: seq!["/.well-known/core"@],
            kind: CommandKind::CoapGet,
        },
    ]
}

/// The Jelly commands `Help` and `ForceCmdsAvailable`, which need no
/// end-point of the device.
pub open spec fn jelly_views() -> Seq<CommandView> {
    seq![
        CommandView { cmd: "Help"@, description: "Jelly Help"@, required_endpoints: Seq::empty(), kind: CommandKind::Jelly },
        CommandView {
            cmd: "ForceCmdsAvailable"@,
            description: "Enables all implemented commands disregarding their requirements"@,
            required_endpoints: Seq::empty(),
            kind: CommandKind::Jelly,
        },
    ]
}

/// The commands the shell offers before the device answered: the library's
/// two defaults and the commands that need no end-point.
pub open spec fn starting_views() -> Seq<CommandView> {
    default_views() + jelly_views()
}

/// The two commands a fresh library offers (see `default_views`).
pub fn default_commands() -> (r: Vec<Command>)
    ensures
        super::library::views(r@) == default_views(),
{
    let mut r: Vec<Command> = Vec::new();
    let a = Command::new_text_type("help", "Prints all available commands");
    let b = Command::new_coap_get("/.well-known/core", "Query the wkc");
    assert(a@.required_endpoints =~= Seq::<Seq<char>>::empty());
    r.push(a);
    r.push(b);
    assert(super::library::views(r@) =~= default_views());
    r
}

/// The Jelly commands that need no end-point (see `jelly_views`).
pub fn jelly_commands() -> (r: Vec<Command>)
    ensures
        super::library::views(r@) == jelly_views(),
{
    let mut r: Vec<Command> = Vec::new();
    let c = Command::new_jelly_type("Help", "Jelly Help");
    let d = Command::new_jelly_type(
        "ForceCmdsAvailable",
        "Enables all implemented commands disregarding their requirements",
    );
    assert(c@.required_endpoints =~= Seq::<Seq<char>>::empty());
    assert(d@.required_endpoints =~= Seq::<Seq<char>>::empty());
    r.push(c);
    r.push(d);
    assert(super::library::views(r@) =~= jelly_views());
    r
}

/// The commands that talk to the device and become available once it
/// offers their end-points: `Saul`, `MultiEndpointSample`, `MemRead`, `Ps`
/// and `Wkc`.
pub fn device_commands() -> (r: Vec<Command>)
    ensures
        r@.len() == 5,
        r@[0]@.cmd == "Saul"@,
        r@[1]@.cmd == "MultiEndpointSample"@,
        r@[2]@.cmd == "MemRead"@,
        r@[3]@.cmd == "Ps"@,
        r@[4]@.cmd == "Wkc"@,
        forall|i: int| 0 <= i < 5 ==> #[trigger] r@[i]@.required_endpoints.len() > 0,
{
    let mut r: Vec<Command> = Vec::new();
    r.push(saul::cmd());
    r.push(multi_endpoints_sample::cmd());
    r.push(mem::cmd());
    r.push(ps::cmd());
    r.push(wkc::Wkc::cmd());
    r
}

/// A command that runs the Roto script `name`.
pub fn roto_cmd(name: &str) -> (r: Command)
    ensures
        r@.cmd == name@,
        r@.description == "Run a Roto Script"@,
        r@.required_endpoints.len() == 0,
        r@.kind == CommandKind::Roto,
{
    Command {
        cmd: name.to_owned(),
        description: "Run a Roto Script".to_owned(),
        required_endpoints: Vec::new(),
        kind: CommandKind::Roto,
    }
}

} // verus!
