//! A front end to RIOT's shell `ifconfig`: a command line in a more
//! regular form becomes the shell command that is sent.

use vstd::prelude::*;

use super::super::handler::CommandType;
use super::super::Command;
use super::super::CommandKind;
use crate::numfmt::decimal;
use crate::numfmt::digits;
use crate::text::debug_string;
use crate::text::debug_text;
use crate::text::string_push_str;

verus! {

/// The setting a `set` changes, under the name RIOT's shell knows it by.
#[allow(non_camel_case_types)]
#[derive(Clone, Copy, PartialEq, Eq, Structural, Debug)]
pub enum SetKey {
    Addr,
    Addr_long,
    Addr_short,
    Cca_threshold,
    Freq,
    Channel,
    Chan,
    Checksum,
    Csma_retries,
    Encrypt,
    Hop_limit,
    Hl,
    Key,
    Mtu,
    Nid,
    Page,
    Pan,
    Pan_id,
    Phy_busy,
    Power,
    Retrans,
    Src_len,
    State,
}

/// A setting and the value it is set to.
pub struct SetOperation {
    pub key: SetKey,
    pub value: String,
}

/// What the wrapper is asked to do with an interface.
pub enum WrapperOperation {
    /// Sets a hardware specific value.
    SetValue(SetOperation),
    Add,
    Del,
    Stats,
    Up,
    Down,
}

/// The command line, as read by the command-line parser: the interface
/// and the operation, each if given.
pub struct IfconfigWrapperCli {
    pub id: Option<u8>,
    pub operation: Option<WrapperOperation>,
}

/// The `ifconfig` wrapper command.
pub struct IfconfigWrapper {}

/// The name of a setting, as the variant is written.
pub open spec fn key_name(k: SetKey) -> Seq<char> {
    match k {
        SetKey::Addr => "Addr"@,
        SetKey::Addr_long => "Addr_long"@,
        SetKey::Addr_short => "Addr_short"@,
        SetKey::Cca_threshold => "Cca_threshold"@,
        SetKey::Freq => "Freq"@,
        SetKey::Channel => "Channel"@,
        SetKey::Chan => "Chan"@,
        SetKey::Checksum => "Checksum"@,
        SetKey::Csma_retries => "Csma_retries"@,
        SetKey::Encrypt => "Encrypt"@,
        SetKey::Hop_limit => "Hop_limit"@,
        SetKey::Hl => "Hl"@,
        SetKey::Key => "Key"@,
        SetKey::Mtu => "Mtu"@,
        SetKey::Nid => "Nid"@,
        SetKey::Page => "Page"@,
        SetKey::Pan => "Pan"@,
        SetKey::Pan_id => "Pan_id"@,
        SetKey::Phy_busy => "Phy_busy"@,
        SetKey::Power => "Power"@,
        SetKey::Retrans => "Retrans"@,
        SetKey::Src_len => "Src_len"@,
        SetKey::State => "State"@,
    }
}

/// A setting as the wrapper writes it into the shell command: as `Debug`
/// shows the variant, such as `Channel { value: "26" }`.
pub open spec fn set_text(key: SetKey, value: Seq<char>) -> Seq<char> {
    key_name(key) + " { value: "@ + debug_text(value) + " }"@
}

/// Whether the wrapper can turn the command line into a shell command:
/// with an interface given, only `set` is known.
pub open spec fn wrapper_accepts(cli: &IfconfigWrapperCli) -> bool {
    cli.id is Some && cli.operation is Some ==> cli.operation->0 is SetValue
}

/// The setting of a `set` on the command line, if it is one.
pub open spec fn setting_of(cli: &IfconfigWrapperCli) -> Option<(SetKey, Seq<char>)> {
    match cli.operation {
        Some(WrapperOperation::SetValue(s)) => Some((s.key, s.value@)),
        _ => None,
    }
}

/// The shell command for the interface `id` and, for a `set`, the setting
/// `key` and its value: `ifconfig <id> set <setting> <setting>` and a
/// newline; `ifconfig <id>` alone without an operation; the help of
/// `ifconfig` without an interface.
pub open spec fn wrapper_text(id: Option<u8>, set: Option<(SetKey, Seq<char>)>) -> Seq<char> {
    match id {
        None => "ifconfig --help"@,
        Some(i) => match set {
            None => "ifconfig "@ + digits(i as nat, 10),
            Some((k, v)) => "ifconfig "@ + digits(i as nat, 10) + " set "@ + set_text(k, v) + " "@ + set_text(k, v) + "\n"@,
        },
    }
}

/// The name of a setting.
fn key_str(k: SetKey) -> (r: &'static str)
    ensures
        r@ == key_name(k),
{
    match k {
        SetKey::Addr => "Addr",
        SetKey::Addr_long => "Addr_long",
        SetKey::Addr_short => "Addr_short",
        SetKey::Cca_threshold => "Cca_threshold",
        SetKey::Freq => "Freq",
        SetKey::Channel => "Channel",
        SetKey::Chan => "Chan",
        SetKey::Checksum => "Checksum",
        SetKey::Csma_retries => "Csma_retries",
        SetKey::Encrypt => "Encrypt",
        SetKey::Hop_limit => "Hop_limit",
        SetKey::Hl => "Hl",
        SetKey::Key => "Key",
        SetKey::Mtu => "Mtu",
        SetKey::Nid => "Nid",
        SetKey::Page => "Page",
        SetKey::Pan => "Pan",
        SetKey::Pan_id => "Pan_id",
        SetKey::Phy_busy => "Phy_busy",
        SetKey::Power => "Power",
        SetKey::Retrans => "Retrans",
        SetKey::Src_len => "Src_len",
        SetKey::State => "State",
    }
}

/// A setting as text (see `set_text`).
fn set_string(s: &SetOperation) -> (r: String)
    ensures
        r@ == set_text(s.key, s.value@),
{
    let mut t = key_str(s.key).to_owned();
    string_push_str(&mut t, " { value: ");
    string_push_str(&mut t, debug_string(s.value.as_str()).as_str());
    string_push_str(&mut t, " }");
    t
}

impl IfconfigWrapper {
    /// The command: `Ifconfig`, needing `/.well-known/core` and
    /// `/shell/ifconfig`.
    pub fn cmd() -> (r: Command)
        ensures
            r@.cmd == "Ifconfig"@,
            r@.description == "ifconfig wrapper with better usage"@,
            r@.required_endpoints == seq!["/.well-known/core"@, "/shell/ifconfig"@],
            r@.kind == CommandKind::IfconfigWrapper,
    {
        let mut eps: Vec<String> = Vec::new();
        eps.push("/.well-known/core".to_owned());
        eps.push("/shell/ifconfig".to_owned());
        let r = Command {
            cmd: "Ifconfig".to_owned(),
            description: "ifconfig wrapper with better usage".to_owned(),
            required_endpoints: eps,
            kind: CommandKind::IfconfigWrapper,
        };
        assert(r@.required_endpoints =~= seq!["/.well-known/core"@, "/shell/ifconfig"@]);
        r
    }

    /// The shell command that the command line stands for, sent as a
    /// diagnostic text message (see `wrapper_text`).
    pub fn parse(cli: &IfconfigWrapperCli) -> (r: CommandType)
        requires
            wrapper_accepts(cli),
        ensures
            r matches CommandType::Text(t) && t@ == wrapper_text(cli.id, setting_of(cli)),
    {
        match cli.id {
            None => CommandType::Text("ifconfig --help".to_owned()),
            Some(id) => {
                let mut t = "ifconfig ".to_owned();
                string_push_str(&mut t, decimal(id as u64).as_str());
                match &cli.operation {
                    Some(WrapperOperation::SetValue(s)) => {
                        let setting = set_string(s);
                        string_push_str(&mut t, " set ");
                        string_push_str(&mut t, setting.as_str());
                        string_push_str(&mut t, " ");
                        string_push_str(&mut t, setting.as_str());
                        string_push_str(&mut t, "\n");
                    },
                    _ => {},
                }
                CommandType::Text(t)
            },
        }
    }
}

} // verus!
