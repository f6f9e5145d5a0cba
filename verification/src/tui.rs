//! The first terminal front end: one input line with its history and a
//! list of completions, raw diagnostic and CoAP messages, and a poll of
//! the device's version, board and interfaces.

use vstd::prelude::*;

use crate::app::handler::request_message;
use crate::app::handler::request_message_exec;
use crate::app::handler::token_bytes;
use crate::app::handler::with_newline;
use crate::app::handler::Key;
use crate::app::handler::Outgoing;
use crate::app::handler::OutgoingRequest;
use crate::app::handler::OutgoingView;
use crate::command::request::RequestPlan;
use crate::columns::align_left;
use crate::columns::hex_lower;
use crate::columns::hex_word;
use crate::datatypes::coap_log::path_segments;
use crate::datatypes::coap_log::token_le16;
use crate::datatypes::coap_log::CoapMessage;
use crate::datatypes::coap_log::CodeClass;
use crate::datatypes::coap_log::MessageView;
use crate::numfmt::digits;
use crate::numfmt::pad_left;
use crate::seqs::first_index;
use crate::text::chars_of;
use crate::text::lossy_utf8;
use crate::text::starts_with_chars;
use crate::text::string_from_chars;
use crate::text::string_from_utf8_lossy;
use crate::text::string_push;
use crate::text::string_push_str;
use crate::text::utf8;

verus! {

/// What has the keyboard.
#[derive(Clone, Copy, PartialEq, Eq, Structural, Debug)]
pub enum ElementInFocus {
    UserInput,
}

/// What the screen needs after an event.
#[derive(Clone, Copy, PartialEq, Eq, Structural, Debug)]
pub enum Refresh {
    /// Draw it again.
    Update,
    /// Leave it as it is.
    Skip,
    /// Leave the front end.
    Quit,
}

/// A request sent, and the last response to it.
pub struct SentRequest {
    pub request: CoapMessage,
    pub response: Option<CoapMessage>,
}

/// The front end as a value.
pub struct TuiState {
    /// The device's interfaces, version and board, as the poll read them.
    pub ip: Seq<char>,
    pub version: Seq<char>,
    pub board: Seq<char>,
    /// How many requests carried a token.
    pub tokens_used: u16,
    /// The lines committed, oldest first, and the place in them.
    pub history: Seq<Seq<char>>,
    pub cursor: nat,
    /// The line being typed.
    pub line: Seq<char>,
    /// The completions offered, in the order they are tried.
    pub autocomplete: Seq<Seq<char>>,
    /// The diagnostic text received.
    pub diagnostics: Seq<char>,
    /// The requests sent with the last response to each, and every
    /// configuration message sent or received.
    pub requests: Seq<(MessageView, Option<MessageView>)>,
    pub packets: Seq<MessageView>,
    /// What waits to be sent, oldest first.
    pub outbox: Seq<OutgoingView>,
}

/// The completions a fresh front end offers.
pub open spec fn default_completions() -> Seq<Seq<char>> {
    seq![
        "help"@,
        "/.well-known/"@,
        "/.well-known/core"@,
        "/.well-known/ifconfig"@,
        "/sha256"@,
        "/riot/"@,
        "/echo/"@,
        "/shell/"@,
        "/shell/version"@,
        "/shell/nib"@,
        "/shell/reboot"@,
        "/shell/saul"@,
        "/shell/ps_regular"@,
        "/shell/pm"@,
        "/shell/txtsnd"@,
        "/shell/ifconfig"@,
        "/config/ps"@,
        "ifconfig"@,
        "nib"@,
        "pm"@,
        "ps_regular"@,
        "reboot"@,
        "saul"@,
        "txtsnd"@,
        "version"@,
    ]
}

/// Whether `line` is a prefix of a completion.
pub open spec fn completes(line: Seq<char>) -> spec_fn(Seq<char>) -> bool {
    |k: Seq<char>| line.is_prefix_of(k)
}

/// The first completion that `line` is a prefix of, if any.
pub open spec fn suggestion(line: Seq<char>, completions: Seq<Seq<char>>) -> Option<Seq<char>> {
    let i = first_index(completions, completes(line));
    if i < completions.len() {
        Some(completions[i])
    } else {
        None
    }
}

/// The front end after Enter: a line starting with `/` goes out as a GET
/// of that path with a new token, asking for blocks of 256 bytes, and is
/// logged; any other line goes out as a diagnostic message, ended by a
/// newline.  The line sent, unless it is a lone newline, goes into the
/// history, whose place moves to its end; the line is cleared.
pub open spec fn entered(s: TuiState) -> TuiState {
    let raw = s.line.len() > 0 && s.line[0] == '/';
    let sent_line = if raw {
        s.line
    } else {
        with_newline(s.line)
    };
    let token = token_bytes((s.tokens_used + 1) as u16);
    let plan = RequestPlan::get_view(s.line);
    let m = request_message(plan, token, true);
    let after = if raw {
        TuiState {
            tokens_used: (s.tokens_used + 1) as u16,
            outbox: s.outbox.push(OutgoingView::Configuration { plan, message_id: None, token, block2: true }),
            packets: s.packets.push(m),
            requests: s.requests.push((m, None)),
            ..s
        }
    } else {
        TuiState { outbox: s.outbox.push(OutgoingView::Diagnostic(sent_line)), ..s }
    };
    if sent_line != "\n"@ {
        TuiState {
            history: s.history.push(sent_line),
            cursor: s.history.len() + 1,
            line: Seq::empty(),
            ..after
        }
    } else {
        TuiState { line: Seq::empty(), ..after }
    }
}

/// What a key does to the front end, and what the screen then needs.
pub open spec fn key_pressed(s: TuiState, key: Key) -> (Refresh, TuiState) {
    match key {
        Key::CtrlC | Key::Esc => (Refresh::Quit, s),
        Key::Enter => (Refresh::Update, entered(s)),
        Key::Backspace => (Refresh::Update, TuiState {
            line: if s.line.len() > 0 {
                s.line.drop_last()
            } else {
                s.line
            },
            ..s
        }),
        Key::Up => (Refresh::Update, if s.cursor > 0 {
            TuiState { cursor: (s.cursor - 1) as nat, line: s.history[s.cursor as int - 1], ..s }
        } else {
            s
        }),
        Key::Down => (Refresh::Update, if s.cursor < s.history.len() {
            TuiState {
                cursor: s.cursor + 1,
                line: if s.cursor + 1 == s.history.len() {
                    Seq::empty()
                } else {
                    s.history[s.cursor as int + 1]
                },
                ..s
            }
        } else {
            s
        }),
        Key::Tab => (Refresh::Update, match suggestion(s.line, s.autocomplete) {
            Some(c) => TuiState { line: c, ..s },
            None => s,
        }),
        Key::Char(c) => (Refresh::Update, TuiState { line: s.line.push(c), ..s }),
        _ => (Refresh::Skip, s),
    }
}

/// The views of the requests sent.
pub open spec fn sent_views(s: Seq<SentRequest>) -> Seq<(MessageView, Option<MessageView>)> {
    s.map_values(
        |q: SentRequest|
            (
                q.request@,
                match q.response {
                    Some(m) => Some(m@),
                    None => None,
                },
            ),
    )
}

/// What the front end polls the device for, in this order.
#[derive(Clone, Copy, PartialEq, Eq, Structural, Debug)]
pub enum PollItem {
    Version,
    Board,
    Interfaces,
}

/// The path polled for an item.
pub open spec fn poll_path(item: PollItem) -> Seq<char> {
    match item {
        PollItem::Version => "/riot/ver"@,
        PollItem::Board => "/riot/board"@,
        PollItem::Interfaces => "/.well-known/ifconfig"@,
    }
}

/// The text of a poll answer: its payload read as UTF-8 (lossily), or a
/// note that the answer could not be read.
pub open spec fn poll_text(item: PollItem, payload: Option<Seq<u8>>) -> Seq<char> {
    match payload {
        Some(p) => lossy_utf8(p),
        None => match item {
            PollItem::Version => "Failed to parse /riot/ver packet"@,
            PollItem::Board => "Failed to parse /riot/board packet"@,
            PollItem::Interfaces => "Failed to parse ifconfig packet"@,
        },
    }
}

/// Whether a character opens a parenthesis, or closes one.
pub open spec fn is_open(c: char) -> bool {
    c == '('
}

pub open spec fn is_close(c: char) -> bool {
    c == ')'
}

/// The text between the first `(` and the next `)`, if there is one.
pub open spec fn parenthesized(t: Seq<char>) -> Option<Seq<char>> {
    let i = first_index(t, |c: char| is_open(c));
    if i < t.len() {
        let rest = t.skip(i + 1);
        let j = first_index(rest, |c: char| is_close(c));
        if j < rest.len() {
            Some(rest.take(j))
        } else {
            None
        }
    } else {
        None
    }
}

/// The first place at or after `from` where `c` stands, or the length.
fn find_char(v: &Vec<char>, from: usize, c: char) -> (r: usize)
    requires
        from <= v@.len(),
    ensures
        r - from == first_index(v@.skip(from as int), |x: char| x == c),
        from <= r <= v@.len(),
{
    let ghost rest = v@.skip(from as int);
    let mut i = from;
    while i < v.len() && v[i] != c
        invariant
            from <= i <= v@.len(),
            rest == v@.skip(from as int),
            forall|j: int| 0 <= j < i - from ==> !((|x: char| x == c)(#[trigger] rest[j])),
        decreases v@.len() - i,
    {
        assert(rest[i - from] == v@[i as int]);
        i = i + 1;
    }
    proof {
        if i < v@.len() {
            assert(rest[i - from] == v@[i as int]);
        }
        crate::seqs::lemma_first_index(rest, |x: char| x == c, i - from);
    }
    i
}

/// The text between the first `(` and the next `)` (see
/// `parenthesized`).
fn parenthesized_exec(t: &str) -> (r: Option<String>)
    ensures
        match parenthesized(t@) {
            Some(v) => r matches Some(x) && x@ == v,
            None => r is None,
        },
{
    let v = chars_of(t);
    let i = find_char(&v, 0, '(');
    assert(v@.skip(0) =~= v@);
    assert((|x: char| x == '(') == (|c: char| is_open(c)));
    if i == v.len() {
        return None;
    }
    let j = find_char(&v, i + 1, ')');
    assert((|x: char| x == ')') == (|c: char| is_close(c)));
    if j == v.len() {
        return None;
    }
    let r = crate::text::string_from_range(v.as_slice(), i + 1, j);
    assert(v@.subrange(i + 1, j as int) =~= v@.skip(i + 1).take(j - (i + 1)));
    Some(r)
}

/// The request that polls for an item: a GET of its path without token,
/// asking for blocks of 256 bytes.
pub fn poll_request(item: PollItem) -> (r: OutgoingRequest)
    ensures
        r.plan@ == RequestPlan::get_view(poll_path(item)),
        r.message_id is None,
        r.token@.len() == 0,
        r.block2,
{
    let path = match item {
        PollItem::Version => "/riot/ver",
        PollItem::Board => "/riot/board",
        PollItem::Interfaces => "/.well-known/ifconfig",
    };
    OutgoingRequest { plan: RequestPlan::get(path), message_id: None, token: Vec::new(), block2: true }
}

/// The first terminal front end.
pub struct App {
    focus: ElementInFocus,
    ip: String,
    version: String,
    board: String,
    token_count: u16,
    user_commands: Vec<String>,
    user_command: String,
    user_command_cursor: usize,
    autocomplete: Vec<String>,
    diagnostic_messages: String,
    configuration_requests: Vec<SentRequest>,
    configuration_packets: Vec<CoapMessage>,
    outbox: Vec<Outgoing>,
}

impl View for App {
    type V = TuiState;

    closed spec fn view(&self) -> TuiState {
        TuiState {
            ip: self.ip@,
            version: self.version@,
            board: self.board@,
            tokens_used: self.token_count,
            history: self.user_commands@.map_values(|c: String| c@),
            cursor: self.user_command_cursor as nat,
            line: self.user_command@,
            autocomplete: self.autocomplete@.map_values(|c: String| c@),
            diagnostics: self.diagnostic_messages@,
            requests: sent_views(self.configuration_requests@),
            packets: self.configuration_packets@.map_values(|m: CoapMessage| m@),
            outbox: self.outbox@.map_values(|o: Outgoing| o@),
        }
    }
}

impl App {
    /// The place in the history lies within it.
    pub closed spec fn wf(&self) -> bool {
        self.user_command_cursor <= self.user_commands@.len()
    }

    /// A front end with nothing typed, sent or polled yet, offering the
    /// default completions.
    pub fn new() -> (r: Self)
        ensures
            r.wf(),
            r@ == (TuiState {
                ip: Seq::empty(),
                version: Seq::empty(),
                board: Seq::empty(),
                tokens_used: 0,
                history: Seq::empty(),
                cursor: 0,
                line: Seq::empty(),
                autocomplete: default_completions(),
                diagnostics: Seq::empty(),
                requests: Seq::empty(),
                packets: Seq::empty(),
                outbox: Seq::empty(),
            }),
    {
        let mut autocomplete: Vec<String> = Vec::new();
        autocomplete.push("help".to_owned());
        autocomplete.push("/.well-known/".to_owned());
        autocomplete.push("/.well-known/core".to_owned());
        autocomplete.push("/.well-known/ifconfig".to_owned());
        autocomplete.push("/sha256".to_owned());
        autocomplete.push("/riot/".to_owned());
        autocomplete.push("/echo/".to_owned());
        autocomplete.push("/shell/".to_owned());
        autocomplete.push("/shell/version".to_owned());
        autocomplete.push("/shell/nib".to_owned());
        autocomplete.push("/shell/reboot".to_owned());
        autocomplete.push("/shell/saul".to_owned());
        autocomplete.push("/shell/ps_regular".to_owned());
        autocomplete.push("/shell/pm".to_owned());
        autocomplete.push("/shell/txtsnd".to_owned());
        autocomplete.push("/shell/ifconfig".to_owned());
        autocomplete.push("/config/ps".to_owned());
        autocomplete.push("ifconfig".to_owned());
        autocomplete.push("nib".to_owned());
        autocomplete.push("pm".to_owned());
        autocomplete.push("ps_regular".to_owned());
        autocomplete.push("reboot".to_owned());
        autocomplete.push("saul".to_owned());
        autocomplete.push("txtsnd".to_owned());
        autocomplete.push("version".to_owned());
        let r = Self {
            focus: ElementInFocus::UserInput,
            ip: String::new(),
            version: String::new(),
            board: String::new(),
            token_count: 0,
            user_commands: Vec::new(),
            user_command: String::new(),
            user_command_cursor: 0,
            autocomplete,
            diagnostic_messages: String::new(),
            configuration_requests: Vec::new(),
            configuration_packets: Vec::new(),
            outbox: Vec::new(),
        };
        assert(r@.autocomplete =~= default_completions());
        assert(r@.history =~= Seq::<Seq<char>>::empty());
        assert(r@.requests =~= Seq::<(MessageView, Option<MessageView>)>::empty());
        assert(r@.packets =~= Seq::<MessageView>::empty());
        assert(r@.outbox =~= Seq::<OutgoingView>::empty());
        r
    }

    /// The next token: the number of requests so far, counted up, as two
    /// little-endian bytes.
    fn get_new_token(&mut self) -> (r: Vec<u8>)
        requires
            old(self).token_count < u16::MAX,
        ensures
            final(self).token_count == old(self).token_count + 1,
            final(self).user_commands == old(self).user_commands,
            final(self).user_command == old(self).user_command,
            final(self).user_command_cursor == old(self).user_command_cursor,
            final(self).outbox == old(self).outbox,
            final(self).configuration_requests == old(self).configuration_requests,
            final(self).configuration_packets == old(self).configuration_packets,
            final(self)@ == (TuiState { tokens_used: (old(self)@.tokens_used + 1) as u16, ..old(self)@ }),
            r@ == token_bytes(final(self).token_count),
    {
        self.token_count = self.token_count + 1;
        let n = self.token_count;
        let mut t: Vec<u8> = Vec::new();
        t.push((n % 256) as u8);
        t.push((n / 256) as u8);
        assert(t@ =~= token_bytes(n));
        t
    }

    /// The first completion that `cmd` is a prefix of, if any.
    pub fn suggest_cmd(&self, cmd: &str) -> (r: Option<String>)
        ensures
            match suggestion(cmd@, self@.autocomplete) {
                Some(c) => r matches Some(x) && x@ == c,
                None => r is None,
            },
    {
        let ghost ks = self@.autocomplete;
        let prefix = chars_of(cmd);
        let mut i: usize = 0;
        while i < self.autocomplete.len()
            invariant
                i <= self.autocomplete@.len(),
                ks == self@.autocomplete,
                ks.len() == self.autocomplete@.len(),
                prefix@ == cmd@,
                forall|j: int| 0 <= j < i ==> !completes(cmd@)(#[trigger] ks[j]),
            decreases self.autocomplete@.len() - i,
        {
            let k = chars_of(self.autocomplete[i].as_str());
            assert(ks[i as int] == self.autocomplete@[i as int]@);
            if starts_with_chars(k.as_slice(), prefix.as_slice()) {
                proof {
                    crate::seqs::lemma_first_index(ks, completes(cmd@), i as int);
                }
                return Some(self.autocomplete[i].clone());
            }
            i = i + 1;
        }
        proof {
            crate::seqs::lemma_first_index(ks, completes(cmd@), i as int);
        }
        None
    }

    /// A key was pressed (see `key_pressed`).
    pub fn on_key(&mut self, key: Key) -> (r: Refresh)
        requires
            old(self).wf(),
            key is Enter && old(self)@.line.len() > 0 && old(self)@.line[0] == '/' ==> old(self)@.tokens_used < u16::MAX,
        ensures
            final(self).wf(),
            (r, final(self)@) == key_pressed(old(self)@, key),
    {
        let ghost s = self@;
        match key {
            Key::CtrlC | Key::Esc => Refresh::Quit,
            Key::Enter => {
                let line = chars_of(self.user_command.as_str());
                let raw = line.len() > 0 && line[0] == '/';
                if !raw {
                    if !(line.len() > 0 && line[line.len() - 1] == '\n') {
                        string_push(&mut self.user_command, '\n');
                    }
                    let ghost l = self.user_command@;
                    self.outbox.push(Outgoing::Diagnostic(self.user_command.clone()));
                    assert(self@.outbox =~= s.outbox.push(OutgoingView::Diagnostic(l)));
                } else {
                    let plan = RequestPlan::get(self.user_command.as_str());
                    let token = self.get_new_token();
                    let m = request_message_exec(&plan, &token, true);
                    let m2 = request_message_exec(&plan, &token, true);
                    let ghost mv = m@;
                    let ghost pv = plan@;
                    let ghost tv = token@;
                    self.outbox.push(Outgoing::Configuration(OutgoingRequest { plan, message_id: None, token, block2: true }));
                    self.configuration_packets.push(m);
                    self.configuration_requests.push(SentRequest { request: m2, response: None });
                    assert(self@.outbox =~= s.outbox.push(OutgoingView::Configuration { plan: pv, message_id: None, token: tv, block2: true }));
                    assert(self@.packets =~= s.packets.push(mv));
                    assert(self@.requests =~= s.requests.push((mv, None)));
                }
                let committed = chars_of(self.user_command.as_str());
                let lone_newline = committed.len() == 1 && committed[0] == '\n';
                proof {
                    reveal_strlit("\n");
                    if !lone_newline {
                        assert(committed@ != "\n"@ || committed@.len() == 1);
                    }
                    if committed@ =~= seq!['\n'] {
                        assert(committed@ =~= "\n"@);
                    } else {
                        assert(committed@ != "\n"@);
                    }
                }
                if !lone_newline {
                    let ghost h = self@.history;
                    let ghost c = self.user_command@;
                    self.user_commands.push(self.user_command.clone());
                    self.user_command_cursor = self.user_commands.len();
                    assert(self@.history =~= h.push(c));
                }
                self.user_command = String::new();
                Refresh::Update
            },
            Key::Backspace => {
                let mut v = chars_of(self.user_command.as_str());
                if v.len() > 0 {
                    v.pop();
                }
                self.user_command = string_from_chars(v.as_slice());
                Refresh::Update
            },
            Key::Up => {
                if self.user_command_cursor > 0 {
                    self.user_command_cursor = self.user_command_cursor - 1;
                    self.user_command = self.user_commands[self.user_command_cursor].clone();
                }
                Refresh::Update
            },
            Key::Down => {
                if self.user_command_cursor < self.user_commands.len() {
                    self.user_command_cursor = self.user_command_cursor + 1;
                    if self.user_command_cursor == self.user_commands.len() {
                        self.user_command = String::new();
                    } else {
                        self.user_command = self.user_commands[self.user_command_cursor].clone();
                    }
                }
                Refresh::Update
            },
            Key::Tab => {
                match self.suggest_cmd(self.user_command.as_str()) {
                    Some(cmd) => self.user_command = cmd,
                    None => {},
                }
                Refresh::Update
            },
            Key::Char(c) => {
                string_push(&mut self.user_command, c);
                Refresh::Update
            },
            _ => Refresh::Skip,
        }
    }

    /// Diagnostic text came: it is added to what was received.
    pub fn on_diagnostic_msg(&mut self, data: &str)
        requires
            old(self).wf(),
        ensures
            final(self).wf(),
            final(self)@ == (TuiState { diagnostics: old(self)@.diagnostics + data@, ..old(self)@ }),
    {
        string_push_str(&mut self.diagnostic_messages, data);
    }

    /// A configuration message came: it becomes the response of every
    /// request sent with the same token, and is kept with the others.
    pub fn on_configuration_msg(&mut self, response: CoapMessage)
        requires
            old(self).wf(),
        ensures
            final(self).wf(),
            final(self)@ == (TuiState {
                requests: old(self)@.requests.map_values(
                    |q: (MessageView, Option<MessageView>)|
                        if q.0.token == response@.token {
                            (q.0, Some(response@))
                        } else {
                            q
                        },
                ),
                packets: old(self)@.packets.push(response@),
                ..old(self)@
            }),
    {
        let ghost s = self@;
        let ghost m = response@;
        let n = self.configuration_requests.len();
        let mut i: usize = 0;
        while i < n
            invariant
                n == self.configuration_requests@.len(),
                m == response@,
                self.wf(),
                s.requests.len() == n,
                i <= n,
                self@ == (TuiState { requests: self@.requests, ..s }),
                forall|j: int| 0 <= j < i ==> #[trigger] self@.requests[j] == (if s.requests[j].0.token == m.token {
                    (s.requests[j].0, Some(m))
                } else {
                    s.requests[j]
                }),
                forall|j: int| i <= j < n ==> #[trigger] self@.requests[j] == s.requests[j],
            decreases n - i,
        {
            let ghost before = self@.requests;
            assert(before[i as int] == sent_views(self.configuration_requests@)[i as int]);
            if crate::seqs::bytes_equal(self.configuration_requests[i].request.token.as_slice(), response.token.as_slice()) {
                let ghost old_reqs = self.configuration_requests@;
                let mut q = self.configuration_requests.remove(i);
                assert(q == old_reqs[i as int]);
                assert(before[i as int].0 == q.request@);
                let c = crate::datatypes::coap_log::copy_message(&response);
                assert(c@ == m);
                q.response = Some(c);
                let ghost qv = q;
                assert(qv.response matches Some(x) && x@ == m);
                self.configuration_requests.insert(i, q);
                assert(self.configuration_requests@ =~= old_reqs.update(i as int, qv));
                assert(sent_views(self.configuration_requests@)[i as int] == (s.requests[i as int].0, Some(m)));
                assert(self@.requests =~= before.update(i as int, (s.requests[i as int].0, Some(m))));
            }
            i = i + 1;
        }
        self.configuration_packets.push(response);
        assert(self@.requests =~= s.requests.map_values(
            |q: (MessageView, Option<MessageView>)|
                if q.0.token == m.token {
                    (q.0, Some(m))
                } else {
                    q
                },
        ));
        assert(self@.packets =~= s.packets.push(m));
    }

    /// Hands out what waits to be sent, oldest first, and forgets it.
    pub fn take_outbox(&mut self) -> (r: Vec<Outgoing>)
        requires
            old(self).wf(),
        ensures
            final(self).wf(),
            r@.map_values(|o: Outgoing| o@) == old(self)@.outbox,
            final(self)@ == (TuiState { outbox: Seq::empty(), ..old(self)@ }),
    {
        let mut out: Vec<Outgoing> = Vec::new();
        std::mem::swap(&mut out, &mut self.outbox);
        assert(self@.outbox =~= Seq::<OutgoingView>::empty());
        out
    }

    /// The line being typed.
    pub fn user_command(&self) -> (r: &str)
        ensures
            r@ == self@.line,
    {
        self.user_command.as_str()
    }

    /// The diagnostic text received, and the device's interfaces, version
    /// and board as polled.
    pub fn texts(&self) -> (r: (&str, &str, &str, &str))
        ensures
            r.0@ == self@.diagnostics,
            r.1@ == self@.ip,
            r.2@ == self@.version,
            r.3@ == self@.board,
    {
        (self.diagnostic_messages.as_str(), self.ip.as_str(), self.version.as_str(), self.board.as_str())
    }

    /// Every configuration message sent or received, oldest first.
    pub fn configuration_packets(&self) -> (r: &[CoapMessage])
        ensures
            r@.map_values(|m: CoapMessage| m@) == self@.packets,
    {
        self.configuration_packets.as_slice()
    }

    /// The answer to one poll request came: `payload` is its payload, or
    /// `None` when it could not be read as a CoAP message (see
    /// `poll_text`).  The board's and the interfaces' text is added to
    /// what is known of them; of the version text only the part in
    /// parentheses is, and the result is false, with nothing changed,
    /// when the text has none.
    pub fn take_poll_answer(&mut self, item: PollItem, payload: Option<&[u8]>) -> (r: bool)
        requires
            old(self).wf(),
        ensures
            final(self).wf(),
            ({
                let t = poll_text(
                    item,
                    match payload {
                        Some(p) => Some(p@),
                        None => None,
                    },
                );
                match item {
                    PollItem::Version => match parenthesized(t) {
                        Some(v) => r && final(self)@ == TuiState { version: old(self)@.version + v, ..old(self)@ },
                        None => !r && final(self)@ == old(self)@,
                    },
                    PollItem::Board => r && final(self)@ == TuiState { board: old(self)@.board + t, ..old(self)@ },
                    PollItem::Interfaces => r && final(self)@ == TuiState { ip: old(self)@.ip + t, ..old(self)@ },
                }
            }),
    {
        let text = match payload {
            Some(p) => string_from_utf8_lossy(p),
            None => match item {
                PollItem::Version => "Failed to parse /riot/ver packet".to_owned(),
                PollItem::Board => "Failed to parse /riot/board packet".to_owned(),
                PollItem::Interfaces => "Failed to parse ifconfig packet".to_owned(),
            },
        };
        match item {
            PollItem::Version => match parenthesized_exec(text.as_str()) {
                Some(v) => {
                    string_push_str(&mut self.version, v.as_str());
                    true
                },
                None => false,
            },
            PollItem::Board => {
                string_push_str(&mut self.board, text.as_str());
                true
            },
            PollItem::Interfaces => {
                string_push_str(&mut self.ip, text.as_str());
                true
            },
        }
    }
}

/// A number as `{:04x}` writes it: lower-case hexadecimal, padded with
/// zeros to four digits.
pub open spec fn hex4(n: nat) -> Seq<char> {
    pad_left(hex_lower(n), 4, '0')
}

/// `s` with each `,` turned into a newline and an indent of two spaces.
pub open spec fn spread_commas(s: Seq<char>) -> Seq<char>
    decreases s.len(),
{
    if s.len() == 0 {
        Seq::empty()
    } else {
        spread_commas(s.drop_last()) + if s.last() == ',' {
            "\n  "@
        } else {
            seq![s.last()]
        }
    }
}

/// The payload of a response whose content format is `number`, as the
/// packet view shows it: link format (40) with its links one per line;
/// plain text as it is.
pub open spec fn packet_payload(payload: Seq<u8>, number: u16) -> Seq<char> {
    if number == 40 {
        spread_commas(lossy_utf8(payload))
    } else {
        lossy_utf8(payload)
    }
}

/// A packet as the packet view shows it: a request by its method, path and
/// token; a response by its status, content format, token, size and
/// payload.  `None` for a request without path and for a response whose
/// content format is neither plain text (0) nor link format (40).
pub open spec fn packet_text(m: MessageView) -> Option<Seq<char>> {
    let tok = ")[0x"@ + hex4(token_le16(m.token)) + "]"@;
    match m.class {
        CodeClass::Empty => Some("Empty"@),
        CodeClass::Request => match m.uri_path {
            Some(opts) => Some(" \u{2190} Req("@ + m.code_name + " "@ + path_segments(opts) + tok),
            None => None,
        },
        CodeClass::Response => match m.content_format {
            Some((n, name)) => if n == 0 || n == 40 {
                let p = packet_payload(m.payload, n);
                Some(
                    " \u{2192} Res("@ + m.code_name + "/"@ + name + tok + " "@ + digits(utf8(p).len(), 10)
                        + " bytes\n  "@ + p,
                )
            } else {
                None
            },
            None => Some(" \u{2192} Res("@ + m.code_name + tok + "\n  Empty Payload"@),
        },
        CodeClass::Reserved => Some("Reserved"@),
    }
}

/// `s` with each `,` turned into a newline and an indent (see
/// `spread_commas`).
fn spread_commas_exec(s: &str) -> (r: String)
    ensures
        r@ == spread_commas(s@),
{
    let v = chars_of(s);
    let mut out = String::new();
    for i in 0..v.len()
        invariant
            out@ == spread_commas(v@.take(i as int)),
    {
        assert(v@.take(i + 1).drop_last() =~= v@.take(i as int));
        if v[i] == ',' {
            string_push_str(&mut out, "\n  ");
        } else {
            string_push(&mut out, v[i]);
        }
    }
    assert(v@.take(v@.len() as int) =~= v@);
    out
}

/// A number as `{:04x}` writes it (see `hex4`).
fn hex4_string(n: u64) -> (r: String)
    ensures
        r@ == hex4(n as nat),
{
    let d = crate::numfmt::pad_left_exec(crate::columns::hex_lower_exec(n), 4, '0');
    string_from_chars(d.as_slice())
}

/// The token as a little-endian 16-bit number, `0xffff` for a token of
/// another length.
fn token_le16_exec(t: &[u8]) -> (r: u64)
    ensures
        r == token_le16(t@),
{
    if t.len() == 2 {
        t[0] as u64 + 256 * t[1] as u64
    } else {
        0xffff
    }
}

/// A packet as the packet view shows it (see `packet_text`).
pub fn fmt_packet(m: &CoapMessage) -> (r: Option<String>)
    ensures
        match packet_text(m@) {
            Some(t) => r matches Some(x) && x@ == t,
            None => r is None,
        },
{
    let mut tok = ")[0x".to_owned();
    string_push_str(&mut tok, hex4_string(token_le16_exec(m.token.as_slice())).as_str());
    string_push_str(&mut tok, "]");
    match m.class {
        CodeClass::Empty => Some("Empty".to_owned()),
        CodeClass::Request => match &m.uri_path {
            Some(_) => {
                let mut out = " \u{2190} Req(".to_owned();
                string_push_str(&mut out, m.code_name.as_str());
                string_push_str(&mut out, " ");
                string_push_str(&mut out, crate::datatypes::coap_log::path_string(&m.uri_path).as_str());
                string_push_str(&mut out, tok.as_str());
                Some(out)
            },
            None => None,
        },
        CodeClass::Response => match &m.content_format {
            Some(cf) => {
                if cf.number != 0 && cf.number != 40 {
                    return None;
                }
                let text = string_from_utf8_lossy(m.payload.as_slice());
                let p = if cf.number == 40 {
                    spread_commas_exec(text.as_str())
                } else {
                    text
                };
                let size = crate::text::utf8_bytes(p.as_str()).len();
                let mut out = " \u{2192} Res(".to_owned();
                string_push_str(&mut out, m.code_name.as_str());
                string_push_str(&mut out, "/");
                string_push_str(&mut out, cf.name.as_str());
                string_push_str(&mut out, tok.as_str());
                string_push_str(&mut out, " ");
                string_push_str(&mut out, crate::numfmt::decimal(size as u64).as_str());
                string_push_str(&mut out, " bytes\n  ");
                string_push_str(&mut out, p.as_str());
                Some(out)
            },
            None => {
                let mut out = " \u{2192} Res(".to_owned();
                string_push_str(&mut out, m.code_name.as_str());
                string_push_str(&mut out, tok.as_str());
                string_push_str(&mut out, "\n  Empty Payload");
                Some(out)
            },
        },
        CodeClass::Reserved => Some("Reserved".to_owned()),
    }
}

/// The little-endian 32-bit number at `p`.
pub open spec fn le_u32(b: Seq<u8>, p: int) -> nat {
    b[p] as nat + 256 * b[p + 1] as nat + 65536 * b[p + 2] as nat + 16777216 * b[p + 3] as nat
}

/// Whether a byte is zero.
pub open spec fn is_zero(x: u8) -> bool {
    x == 0
}

/// The head of the thread table.
pub open spec fn ps_head() -> Seq<char> {
    align_left("name"@, 20) + "|stack|used |free |"@ + align_left("start"@, 10) + "|"@ + align_left("SP"@, 10)
        + "|\n"@
}

/// One thread's row: its name, stack size, stack used and free, the start
/// of its stack and its stack pointer (the end of the stack, plus 52, less
/// what is used).
pub open spec fn ps_row(name: Seq<char>, size: nat, used: nat, start: nat) -> Seq<char> {
    align_left(name, 20) + "|"@ + align_left(digits(size, 10), 5) + "|"@ + align_left(digits(used, 10), 5) + "|"@
        + align_left(digits((size - used) as nat, 10), 5) + "|"@ + hex_word(start as u32) + "|"@ + hex_word(
        (start + size + 52 - used) as u32,
    ) + "|\n"@
}

/// The rows of the threads from `pos` on: each a name ended by a zero
/// byte, then its stack size, the stack used and the start of its stack,
/// as little-endian 32-bit numbers; the rows end where no zero byte
/// follows.  `None` when the numbers are cut short, more is used than the
/// stack holds, or the stack pointer does not fit 32 bits.
pub open spec fn ps_rows_from(b: Seq<u8>, pos: int) -> Option<Seq<char>>
    decreases b.len() - pos,
{
    if pos < 0 || pos >= b.len() {
        Some(Seq::empty())
    } else {
        let k = first_index(b.skip(pos), |x: u8| is_zero(x));
        proof {
            crate::seqs::lemma_first_index_bounds(b.skip(pos), |x: u8| is_zero(x));
        }
        if k >= b.len() - pos {
            Some(Seq::empty())
        } else {
            let z = pos + k;
            let p = z + 1;
            if p + 12 > b.len() {
                None
            } else {
                let size = le_u32(b, p);
                let used = le_u32(b, p + 4);
                let start = le_u32(b, p + 8);
                if used > size || start + size + 52 > u32::MAX {
                    None
                } else {
                    match ps_rows_from(b, p + 12) {
                        Some(rest) => Some(ps_row(lossy_utf8(b.subrange(pos, z)), size, used, start) + rest),
                        None => None,
                    }
                }
            }
        }
    }
}

/// A packet as the thread view shows it: a plain-text response as a table
/// of its threads; a response without content format by its token.
/// `None` for a response of another content format, or whose threads
/// cannot be read (see `ps_rows_from`).
pub open spec fn ps_text(m: MessageView) -> Option<Seq<char>> {
    match m.class {
        CodeClass::Empty => Some("Empty"@),
        CodeClass::Request => Some("Request"@),
        CodeClass::Response => match m.content_format {
            Some((n, _)) => if n == 0 {
                match ps_rows_from(m.payload, 0) {
                    Some(rows) => Some(ps_head() + rows),
                    None => None,
                }
            } else {
                None
            },
            None => Some(")[0x"@ + hex4(token_le16(m.token)) + "]\n  Empty Payload"@),
        },
        CodeClass::Reserved => Some("Reserved"@),
    }
}

/// The little-endian 32-bit number at `p`.
fn le_u32_exec(b: &[u8], p: usize) -> (r: u64)
    requires
        p + 4 <= b@.len(),
    ensures
        r == le_u32(b@, p as int),
{
    b[p] as u64 + 256 * b[p + 1] as u64 + 65536 * b[p + 2] as u64 + 16777216 * b[p + 3] as u64
}

/// One thread's row (see `ps_row`).
fn ps_row_string(name: &str, size: u64, used: u64, start: u64) -> (r: String)
    requires
        used <= size,
        start + size + 52 <= u32::MAX,
    ensures
        r@ == ps_row(name@, size as nat, used as nat, start as nat),
{
    let mut out = crate::columns::left(name, 20);
    string_push_str(&mut out, "|");
    string_push_str(&mut out, crate::columns::left(crate::numfmt::decimal(size).as_str(), 5).as_str());
    string_push_str(&mut out, "|");
    string_push_str(&mut out, crate::columns::left(crate::numfmt::decimal(used).as_str(), 5).as_str());
    string_push_str(&mut out, "|");
    string_push_str(&mut out, crate::columns::left(crate::numfmt::decimal(size - used).as_str(), 5).as_str());
    string_push_str(&mut out, "|");
    string_push_str(&mut out, crate::columns::hex_word_string(start as u32).as_str());
    string_push_str(&mut out, "|");
    string_push_str(&mut out, crate::columns::hex_word_string((start + size + 52 - used) as u32).as_str());
    string_push_str(&mut out, "|\n");
    out
}

/// The rows of the threads (see `ps_rows_from`).
fn ps_rows_string(b: &[u8]) -> (r: Option<String>)
    ensures
        match ps_rows_from(b@, 0) {
            Some(t) => r matches Some(x) && x@ == t,
            None => r is None,
        },
{
    let mut out = String::new();
    let mut pos: usize = 0;
    loop
        invariant
            pos <= b@.len(),
            ps_rows_from(b@, 0) == match ps_rows_from(b@, pos as int) {
                Some(t) => Some(out@ + t),
                None => None,
            },
        decreases b@.len() - pos,
    {
        if pos >= b.len() {
            assert(out@ + Seq::<char>::empty() =~= out@);
            return Some(out);
        }
        let ghost rest = b@.skip(pos as int);
        let mut z = pos;
        while z < b.len() && b[z] != 0
            invariant
                pos <= z <= b@.len(),
                rest == b@.skip(pos as int),
                forall|j: int| 0 <= j < z - pos ==> !is_zero(#[trigger] rest[j]),
            decreases b@.len() - z,
        {
            assert(rest[z - pos] == b@[z as int]);
            z = z + 1;
        }
        proof {
            if z < b@.len() {
                assert(rest[z - pos] == b@[z as int]);
            }
            crate::seqs::lemma_first_index(rest, |x: u8| is_zero(x), z - pos);
        }
        if z >= b.len() {
            assert(out@ + Seq::<char>::empty() =~= out@);
            return Some(out);
        }
        let p = z + 1;
        if p > b.len() || b.len() - p < 12 {
            return None;
        }
        let size = le_u32_exec(b, p);
        let used = le_u32_exec(b, p + 4);
        let start = le_u32_exec(b, p + 8);
        if used > size || start + size + 52 > 0xffff_ffff {
            return None;
        }
        let name_bytes = crate::seqs::copy_range(b, pos, z);
        let name = string_from_utf8_lossy(name_bytes.as_slice());
        let ghost before = out@;
        string_push_str(&mut out, ps_row_string(name.as_str(), size, used, start).as_str());
        pos = p + 12;
    }
}

/// A packet as the thread view shows it (see `ps_text`).
pub fn fmt_ps(m: &CoapMessage) -> (r: Option<String>)
    ensures
        match ps_text(m@) {
            Some(t) => r matches Some(x) && x@ == t,
            None => r is None,
        },
{
    match m.class {
        CodeClass::Empty => Some("Empty".to_owned()),
        CodeClass::Request => Some("Request".to_owned()),
        CodeClass::Response => match &m.content_format {
            Some(cf) => {
                if cf.number != 0 {
                    return None;
                }
                match ps_rows_string(m.payload.as_slice()) {
                    Some(rows) => {
                        let mut out = crate::columns::left("name", 20);
                        string_push_str(&mut out, "|stack|used |free |");
                        string_push_str(&mut out, crate::columns::left("start", 10).as_str());
                        string_push_str(&mut out, "|");
                        string_push_str(&mut out, crate::columns::left("SP", 10).as_str());
                        string_push_str(&mut out, "|\n");
                        string_push_str(&mut out, rows.as_str());
                        Some(out)
                    },
                    None => None,
                }
            },
            None => {
                let mut out = ")[0x".to_owned();
                string_push_str(&mut out, hex4_string(token_le16_exec(m.token.as_slice())).as_str());
                string_push_str(&mut out, "]\n  Empty Payload");
                Some(out)
            },
        },
        CodeClass::Reserved => Some("Reserved".to_owned()),
    }
}

/// What Enter sent, unless it was a lone newline, is what Up brings back
/// right after it.
pub proof fn law_enter_then_up_recalls(s: TuiState)
    requires
        s.cursor <= s.history.len(),
    ensures
        ({
            let sent = if s.line.len() > 0 && s.line[0] == '/' {
                s.line
            } else {
                with_newline(s.line)
            };
            let after = key_pressed(s, Key::Enter).1;
            sent != "\n"@ ==> key_pressed(after, Key::Up).1.line == sent
        }),
{
}

} // verus!
