//! The input line together with the commands it can name.

use vstd::prelude::*;

use crate::command::library::first_location_is;
use crate::command::library::name_starts_with;
use crate::command::library::named;
use crate::command::library::views;
use crate::command::Command;
use crate::command::CommandLibrary;
use crate::command::CommandView;
use crate::datatypes::user_input::first_word;
use crate::datatypes::user_input::first_word_exec;
use crate::datatypes::user_input::raw_input;
use crate::datatypes::user_input::raw_input_exec;
use crate::datatypes::user_input::split_redirect;
use crate::datatypes::user_input::split_redirect_exec;
use crate::datatypes::user_input::InputKind;
use crate::datatypes::user_input::SaveTarget;
use crate::datatypes::user_input::SaveToFile;
use crate::datatypes::user_input_manager::finish_input;
use crate::datatypes::user_input_manager::next_input;
use crate::datatypes::user_input_manager::previous_input;
use crate::datatypes::user_input_manager::InputState;
use crate::seqs::first_index;
use crate::text::byte_len;
use crate::text::chars_of;
use crate::text::longest_common_prefix_spec;
use crate::text::string_from_chars;
use crate::text::trim_ascii_end;
use crate::text::utf8;

verus! {

/// What a committed input line is.
pub enum InputType<'a> {
    /// Not a known command, but it starts with `/`: sent as a configuration
    /// message.
    RawCoap(String),
    /// Not a known command: sent as a diagnostic message.
    RawCommand(String),
    /// A known command with a CoAP end-point and a handler: the command, the
    /// command line, and where its output goes.
    JellyCoapCommand(&'a Command, String, SaveToFile),
    /// A known command without end-point: the command and the command line.
    JellyCommand(&'a Command, String),
}

/// What a committed line is, as a value.
pub enum InputClass {
    RawCoap(Seq<char>),
    RawCommand(Seq<char>),
    /// A command with end-points: the command, the line, where the output
    /// goes.
    CoapCommand(CommandView, Seq<char>, SaveTarget),
    /// A command without end-points and the line.
    JellyCommand(CommandView, Seq<char>),
}

/// What the line `input` is, with the commands `avail` available (see
/// `UserInputManager::classify_input`).
pub open spec fn classify(input: Seq<char>, avail: Seq<CommandView>) -> InputClass {
    let (line, target) = split_redirect(input);
    let i = first_index(avail, named(trim_ascii_end(first_word(line))));
    if i < avail.len() {
        if avail[i].required_endpoints.len() == 0 {
            InputClass::JellyCommand(avail[i], line)
        } else {
            InputClass::CoapCommand(avail[i], line, target)
        }
    } else {
        match raw_input(input) {
            InputKind::RawCoap(s) => InputClass::RawCoap(s),
            InputKind::RawCommand(s) => InputClass::RawCommand(s),
            InputKind::Command(_, l, _) => InputClass::RawCommand(l),
        }
    }
}

/// The input line, its history, and the command library it completes from.
pub struct UserInputManager {
    pub known_commands: CommandLibrary,
    line: crate::datatypes::user_input_manager::UserInputManager,
}

impl UserInputManager {
    /// The input line and its history.
    pub closed spec fn state(&self) -> InputState {
        self.line@
    }

    /// The command library.
    pub closed spec fn commands(&self) -> CommandLibrary {
        self.known_commands
    }

    /// The history position never lies beyond the history.
    pub closed spec fn wf(&self) -> bool {
        self.line.wf()
    }

    /// An empty input line, an empty history, and the library of the
    /// commands Jelly implements, in which the commands that need no
    /// end-point of the device are available at once.
    pub fn new() -> (r: Self)
        ensures
            r.wf(),
            r.state().input.len() == 0,
            r.state().history.len() == 0,
            r.state().cursor == 0,
            r.commands().available() == crate::command::library::sorted_commands(
                crate::command::commands::starting_views(),
            ),
            r.commands().stored().len() == 5,
    {
        let mut known_commands = CommandLibrary::default();
        let none: Vec<String> = Vec::new();
        proof {
            assert(none@.map_values(|e: String| e@) =~= Seq::<Seq<char>>::empty());
        }
        known_commands.update_available_cmds_based_on_endpoints(none.as_slice());
        Self { known_commands, line: crate::datatypes::user_input_manager::UserInputManager::new() }
    }

    /// The text typed so far.
    pub fn user_input(&self) -> (r: &str)
        ensures
            r@ == self.state().input,
    {
        self.line.input_str()
    }

    /// The cursor, as a byte offset into the input.
    pub fn cursor_position(&self) -> (r: usize)
        ensures
            r == self.state().cursor,
    {
        self.line.cursor()
    }

    /// Makes every known command available.
    pub fn force_all_commands_availabe(&mut self)
        ensures
            final(self).state() == old(self).state(),
            final(self).wf() == old(self).wf(),
            final(self).commands().stored().len() == 0,
            final(self).commands().available() == crate::command::library::sorted_commands(
                old(self).commands().available() + old(self).commands().stored(),
            ),
    {
        self.known_commands.force_all_cmds_available();
    }

    /// Appends `string` to the input, moving the cursor by its length in
    /// bytes.
    pub fn insert_string(&mut self, string: &str)
        requires
            old(self).state().cursor + byte_len(string@) <= usize::MAX,
        ensures
            final(self).state() == (InputState {
                input: old(self).state().input + string@,
                cursor: old(self).state().cursor + byte_len(string@),
                ..old(self).state()
            }),
            final(self).wf() == old(self).wf(),
            final(self).commands() == old(self).commands(),
    {
        self.line.insert_string(string);
    }

    /// Inserts `chr` at the cursor, which must lie on a character boundary.
    pub fn insert_char(&mut self, chr: char)
        requires
            vstd::utf8::is_char_boundary(utf8(old(self).state().input), old(self).state().cursor as int),
            old(self).state().cursor < usize::MAX,
        ensures
            utf8(final(self).state().input) == utf8(old(self).state().input).take(old(self).state().cursor as int) + utf8(seq![chr])
                + utf8(old(self).state().input).skip(old(self).state().cursor as int),
            final(self).state().cursor == old(self).state().cursor + 1,
            final(self).state().history == old(self).state().history,
            final(self).state().index == old(self).state().index,
            final(self).wf() == old(self).wf(),
            final(self).commands() == old(self).commands(),
    {
        self.line.insert_char(chr);
    }

    /// Deletes the character before the cursor (see the line editor's
    /// `remove_char`).
    pub fn remove_char(&mut self)
        requires
            old(self).state().cursor > 0 && old(self).state().cursor <= byte_len(old(self).state().input) ==> vstd::utf8::is_char_boundary(
                utf8(old(self).state().input),
                old(self).state().cursor - 1,
            ),
        ensures
            ({
                let c = old(self).state().cursor;
                let b = utf8(old(self).state().input);
                if c > 0 && c <= byte_len(old(self).state().input) {
                    &&& utf8(final(self).state().input) == b.take(c - 1) + vstd::utf8::pop_first_scalar(b.skip(c - 1))
                    &&& final(self).state().cursor == c - 1
                    &&& final(self).state().history == old(self).state().history
                    &&& final(self).state().index == old(self).state().index
                } else {
                    final(self).state() == old(self).state()
                }
            }),
            final(self).wf() == old(self).wf(),
            final(self).commands() == old(self).commands(),
    {
        self.line.remove_char();
    }

    /// Moves the cursor one byte back, unless it is at the start.
    pub fn move_cursor_left(&mut self)
        ensures
            final(self).state() == (InputState {
                cursor: if old(self).state().cursor > 0 { (old(self).state().cursor - 1) as nat } else { 0 },
                ..old(self).state()
            }),
            final(self).wf() == old(self).wf(),
            final(self).commands() == old(self).commands(),
    {
        self.line.move_cursor_left();
    }

    /// Moves the cursor one byte on, unless it is at the end.
    pub fn move_cursor_right(&mut self)
        ensures
            final(self).state() == (InputState {
                cursor: if old(self).state().cursor < byte_len(old(self).state().input) { old(self).state().cursor + 1 } else { old(self).state().cursor },
                ..old(self).state()
            }),
            final(self).wf() == old(self).wf(),
            final(self).commands() == old(self).commands(),
    {
        self.line.move_cursor_right();
    }

    /// The available commands the input is a prefix of, and the input
    /// prolonged for as long as their names all agree.
    pub fn suggestion(&self) -> (r: (String, Vec<&Command>))
        ensures
            crate::command::library::views_of_refs(r.1@) == self.commands().available().filter(name_starts_with(self.state().input)),
            r.0@ == longest_common_prefix_spec(
                self.state().input,
                self.commands().available().filter(name_starts_with(self.state().input)).map_values(|c: CommandView| c.cmd),
            ),
    {
        self.known_commands.longest_common_prefixed_by_cmd(self.line.input_str())
    }

    /// Replaces the input by its completion (see `suggestion`) and puts the
    /// cursor at the end.
    pub fn set_suggest_completion(&mut self)
        ensures
            final(self).state() == (InputState {
                input: longest_common_prefix_spec(
                    old(self).state().input,
                    old(self).commands().available().filter(name_starts_with(old(self).state().input)).map_values(|c: CommandView| c.cmd),
                ),
                cursor: byte_len(final(self).state().input),
                ..old(self).state()
            }),
            final(self).wf() == old(self).wf(),
            final(self).commands() == old(self).commands(),
    {
        let (suggestion, _) = self.known_commands.longest_common_prefixed_by_cmd(self.line.input_str());
        self.line.replace_input(suggestion);
    }

    /// Scrolls one entry back in the history.
    pub fn set_to_previous_input(&mut self)
        requires
            old(self).wf(),
        ensures
            final(self).wf(),
            final(self).state() == previous_input(old(self).state()),
            final(self).commands() == old(self).commands(),
    {
        self.line.set_to_previous_input();
    }

    /// Scrolls one entry forward in the history.
    pub fn set_to_next_input(&mut self)
        requires
            old(self).wf(),
        ensures
            final(self).wf(),
            final(self).state() == next_input(old(self).state()),
            final(self).commands() == old(self).commands(),
    {
        self.line.set_to_next_input();
    }

    /// Commits the input to the history and clears it.
    pub fn finish_current_input(&mut self)
        requires
            old(self).wf(),
        ensures
            final(self).wf(),
            final(self).state() == finish_input(old(self).state()),
            final(self).commands() == old(self).commands(),
    {
        self.line.finish_current_input();
    }

    /// Whether nothing is typed.
    pub fn input_empty(&self) -> (r: bool)
        ensures
            r == (self.state().input.len() == 0),
    {
        self.line.input_empty()
    }

    /// What the typed line is: a line whose first word names an available
    /// command is that command (a CoAP command when it requires end-points,
    /// with its output redirected as `split_redirect` says); any other line
    /// is a raw message.
    pub fn classify_input(&self) -> (r: InputType<'_>)
        ensures
            ({
                let (line, target) = split_redirect(self.state().input);
                let avail = self.commands().available();
                let i = first_index(avail, named(trim_ascii_end(first_word(line))));
                if i < avail.len() {
                    if avail[i].required_endpoints.len() == 0 {
                        r matches InputType::JellyCommand(c, l) && c@ == avail[i] && l@ == line
                    } else {
                        r matches InputType::JellyCoapCommand(c, l, f) && c@ == avail[i] && l@ == line && f@ == target
                    }
                } else {
                    match raw_input(self.state().input) {
                        InputKind::RawCoap(s) => r matches InputType::RawCoap(t) && t@ == s,
                        InputKind::RawCommand(s) => r matches InputType::RawCommand(t) && t@ == s,
                        InputKind::Command(_, _, _) => false,
                    }
                }
            }),
    {
        let m = chars_of(self.line.input_str());
        let (line, file) = split_redirect_exec(&m);
        let word = first_word_exec(&line);
        match self.known_commands.find_by_cmd(word.as_str()) {
            Some(cmd) => {
                if cmd.required_endpoints.len() == 0 {
                    InputType::JellyCommand(cmd, string_from_chars(line.as_slice()))
                } else {
                    InputType::JellyCoapCommand(cmd, string_from_chars(line.as_slice()), file)
                }
            },
            None => {
                match raw_input_exec(self.line.input_str()) {
                    crate::datatypes::user_input::InputType::RawCoap(s) => InputType::RawCoap(s),
                    crate::datatypes::user_input::InputType::RawCommand(s) => InputType::RawCommand(s),
                    crate::datatypes::user_input::InputType::Command(s, _, _) => InputType::RawCommand(s),
                }
            },
        }
    }

    /// The names of the available commands, separated by `, `.
    pub fn command_name_list(&self) -> (r: String)
        ensures
            r@ == crate::text::join_with(
                self.commands().available().map_values(|c: CommandView| c.cmd),
                ", "@,
            ),
    {
        let names = self.known_commands.list_by_cmd();
        assert(names@.map_values(|s: String| s@) =~= self.commands().available().map_values(|c: CommandView| c.cmd));
        crate::text::join(names.as_slice(), ", ")
    }

    /// Whether an available command's first end-point is `location`.
    pub fn command_exists_by_location(&self, location: &str) -> (r: bool)
        ensures
            r == (first_index(self.commands().available(), first_location_is(location@)) < self.commands().available().len()),
    {
        self.known_commands.find_by_first_location(location).is_some()
    }

    /// Makes `cmd` available, after all other available commands.
    pub fn add_command(&mut self, cmd: Command)
        ensures
            final(self).state() == old(self).state(),
            final(self).wf() == old(self).wf(),
            final(self).commands().available() == old(self).commands().available().push(cmd@),
            final(self).commands().stored() == old(self).commands().stored(),
    {
        self.known_commands.add(cmd);
    }

    /// Makes available the known commands whose end-points are all in `eps`.
    pub fn check_for_new_available_commands(&mut self, eps: &[String])
        ensures
            final(self).state() == old(self).state(),
            final(self).wf() == old(self).wf(),
            final(self).commands().stored() == old(self).commands().stored().filter(
                crate::command::library::endpoints_missing(eps@.map_values(|e: String| e@)),
            ),
            final(self).commands().available() == crate::command::library::sorted_commands(
                old(self).commands().available() + old(self).commands().stored().filter(
                    crate::command::library::endpoints_met(eps@.map_values(|e: String| e@)),
                ),
            ),
    {
        self.known_commands.update_available_cmds_based_on_endpoints(eps);
    }

    /// Replaces the description of the first available command whose first
    /// end-point is `location`, if there is one.
    pub fn update_command_description_by_location(&mut self, location: &str, description: &str)
        ensures
            final(self).state() == old(self).state(),
            final(self).wf() == old(self).wf(),
            final(self).commands().stored() == old(self).commands().stored(),
            ({
                let avail = old(self).commands().available();
                let i = first_index(avail, first_location_is(location@));
                if i < avail.len() {
                    final(self).commands().available() == avail.update(i, CommandView { description: description@, ..avail[i] })
                } else {
                    final(self).commands().available() == avail
                }
            }),
    {
        if let Some(cmd) = self.known_commands.find_by_first_location_mut(location) {
            cmd.update_description(description);
        }
    }

    /// Replaces the description of the first available command named `name`
    /// (trailing ASCII whitespace removed), if there is one.
    pub fn update_command_description_by_name(&mut self, name: &str, description: &str)
        ensures
            final(self).state() == old(self).state(),
            final(self).wf() == old(self).wf(),
            final(self).commands().stored() == old(self).commands().stored(),
            ({
                let avail = old(self).commands().available();
                let i = first_index(avail, named(trim_ascii_end(name@)));
                if i < avail.len() {
                    final(self).commands().available() == avail.update(i, CommandView { description: description@, ..avail[i] })
                } else {
                    final(self).commands().available() == avail
                }
            }),
    {
        if let Some(cmd) = self.known_commands.find_by_cmd_mut(name) {
            cmd.update_description(description);
        }
    }
}

} // verus!
