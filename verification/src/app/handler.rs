//! The shell's reactions to what happens: keys typed, lines committed,
//! answers from the device, connections made and lost.

use vstd::prelude::*;

use std::collections::HashMap;

use crate::app::user_input_manager::classify;
use crate::app::user_input_manager::InputClass;
use crate::app::user_input_manager::InputType;
use crate::app::user_input_manager::UserInputManager;
use crate::command::handler::accepts;
use crate::command::handler::can_start;
use crate::command::handler::finished;
use crate::command::handler::first_request;
use crate::command::handler::handler_for;
use crate::command::handler::needs_arguments;
use crate::command::handler::step;
use crate::command::handler::wants_display;
use crate::command::handler::CommandType;
use crate::command::handler::Handler;
use crate::command::handler::HandlerView;
use crate::command::library::endpoints_met;
use crate::command::library::endpoints_missing;
use crate::command::library::first_location_is;
use crate::command::library::named;
use crate::command::library::sorted_commands;
use crate::command::library::name_starts_with;
use crate::command::request::Method;
use crate::command::request::RequestPlan;
use crate::command::request::RequestView;
use crate::command::has_shell_prefix;
use crate::command::strip_shell_prefix;
use crate::command::Command;
use crate::command::CommandKind;
use crate::command::CommandView;
use crate::command::CommandLibrary;
use crate::datatypes::coap_log::CoapLog;
use crate::datatypes::coap_log::CoapMessage;
use crate::datatypes::coap_log::CodeClass;
use crate::datatypes::coap_log::ContentFormatInfo;
use crate::datatypes::coap_log::path_segments;
use crate::datatypes::coap_log::token_to_u64;
use crate::datatypes::coap_log::token_value;
use crate::datatypes::coap_log::MessageView;
use crate::datatypes::coap_log::Request;
use crate::datatypes::coap_log::Response;
use crate::datatypes::diagnostic_log::DiagnosticLog;
use crate::datatypes::job_log::job_output_of;
use crate::datatypes::job_log::shown_text;
use crate::datatypes::job_log::Job;
use crate::datatypes::job_log::JobId;
use crate::datatypes::job_log::JobLog;
use crate::datatypes::job_log::JobOutput;
use crate::datatypes::job_log::JobOutputView;
use crate::datatypes::job_log::JobView;
use crate::datatypes::lines::append_message_lines;
use crate::datatypes::lines::LinesView;
use crate::datatypes::user_input::SaveTarget;
use crate::datatypes::user_input::SaveToFile;
use crate::datatypes::user_input_manager::finish_input;
use crate::datatypes::user_input_manager::next_input;
use crate::datatypes::user_input_manager::previous_input;
use crate::datatypes::user_input_manager::InputState;
use crate::seqs::first_index;
use crate::text::byte_len;
use crate::text::chars_of;
use crate::text::longest_common_prefix_spec;
use crate::text::lossy_utf8;
use crate::text::string_from_chars;
use crate::text::starts_with_chars;
use crate::text::string_from_utf8_lossy;
use crate::text::trim_ascii_end;
use crate::text::utf8;
use crate::text::same_text;

verus! {

broadcast use vstd::std_specs::hash::group_hash_axioms;

/// `t` cut at every `c`, as `str::split` does: `k` separators give `k + 1`
/// pieces, and an empty text gives one empty piece.
pub open spec fn split_on(t: Seq<char>, c: char) -> Seq<Seq<char>>
    decreases t.len(),
{
    if t.len() == 0 {
        seq![Seq::<char>::empty()]
    } else {
        let r = split_on(t.drop_last(), c);
        if t.last() == c {
            r.push(Seq::empty())
        } else {
            r.update(r.len() - 1, r.last().push(t.last()))
        }
    }
}

/// Splitting gives at least one piece.
pub proof fn lemma_split_on_len(t: Seq<char>, c: char)
    ensures
        split_on(t, c).len() >= 1,
    decreases t.len(),
{
    if t.len() > 0 {
        lemma_split_on_len(t.drop_last(), c);
    }
}

/// The views of a list of character vectors.
pub open spec fn char_views(s: Seq<Vec<char>>) -> Seq<Seq<char>> {
    s.map_values(|v: Vec<char>| v@)
}

/// The pieces of `v` between the occurrences of `c` (see `split_on`).
pub fn split_chars(v: &Vec<char>, c: char) -> (r: Vec<Vec<char>>)
    ensures
        char_views(r@) == split_on(v@, c),
{
    let mut pieces: Vec<Vec<char>> = Vec::new();
    pieces.push(Vec::new());
    assert(char_views(pieces@) =~= split_on(v@.take(0), c));
    for i in 0..v.len()
        invariant
            char_views(pieces@) == split_on(v@.take(i as int), c),
            pieces@.len() >= 1,
    {
        let ghost before = char_views(pieces@);
        assert(v@.take(i + 1).drop_last() =~= v@.take(i as int));
        assert(v@.take(i + 1).last() == v@[i as int]);
        if v[i] == c {
            pieces.push(Vec::new());
            assert(char_views(pieces@) =~= before.push(Seq::empty()));
        } else {
            let mut cur = match pieces.pop() {
                Some(p) => p,
                None => Vec::new(),
            };
            cur.push(v[i]);
            pieces.push(cur);
            assert(char_views(pieces@) =~= before.update(before.len() - 1, before.last().push(v@[i as int])));
        }
    }
    assert(v@.take(v@.len() as int) =~= v@);
    pieces
}

/// Whether a character closes a link target.
pub open spec fn is_close(ch: char) -> bool {
    ch == '>'
}

/// The target of one link of a link-format text, when it is a path: the
/// piece must start with `<`; the target runs up to the first `>` (or to
/// the end) and must start with `/`.
pub open spec fn clif_target(piece: Seq<char>) -> Option<Seq<char>> {
    if piece.len() > 0 && piece[0] == '<' {
        let body = piece.skip(1);
        let t = body.take(first_index(body, |ch: char| is_close(ch)));
        if t.len() > 0 && t[0] == '/' {
            Some(t)
        } else {
            None
        }
    } else {
        None
    }
}

/// The path targets of the pieces, in order.
pub open spec fn clif_targets(pieces: Seq<Seq<char>>) -> Seq<Seq<char>>
    decreases pieces.len(),
{
    if pieces.len() == 0 {
        Seq::empty()
    } else {
        clif_targets(pieces.drop_last()) + match clif_target(pieces.last()) {
            Some(t) => seq![t],
            None => Seq::empty(),
        }
    }
}

/// The end-points a `/.well-known/core` answer lists: the path targets of
/// its links, the text split at every `,`.
pub open spec fn clif_endpoints(payload: Seq<u8>) -> Seq<Seq<char>> {
    clif_targets(split_on(lossy_utf8(payload), ','))
}

/// The target of one piece (see `clif_target`).
fn piece_target(piece: &Vec<char>) -> (r: Option<Vec<char>>)
    ensures
        match clif_target(piece@) {
            Some(t) => r matches Some(v) && v@ == t,
            None => r is None,
        },
{
    if piece.len() == 0 || piece[0] != '<' {
        return None;
    }
    let ghost body = piece@.skip(1);
    let mut t: Vec<char> = Vec::new();
    let mut i: usize = 1;
    while i < piece.len() && piece[i] != '>'
        invariant
            1 <= i <= piece@.len(),
            body == piece@.skip(1),
            t@ == body.take(i - 1),
            forall|j: int| 0 <= j < i - 1 ==> !is_close(#[trigger] body[j]),
        decreases piece@.len() - i,
    {
        t.push(piece[i]);
        assert(body.take(i as int) == body.take(i - 1).push(body[i - 1]));
        i = i + 1;
    }
    proof {
        crate::seqs::lemma_first_index(body, |ch: char| is_close(ch), i - 1);
    }
    if t.len() > 0 && t[0] == '/' {
        Some(t)
    } else {
        None
    }
}

/// The end-points a `/.well-known/core` answer lists (see
/// `clif_endpoints`).
pub fn well_known_endpoints(payload: &[u8]) -> (r: Vec<String>)
    ensures
        crate::command::commands::ifconfig::string_views(r@) == clif_endpoints(payload@),
{
    let text = string_from_utf8_lossy(payload);
    let v = chars_of(text.as_str());
    let pieces = split_chars(&v, ',');
    let ghost ps = char_views(pieces@);
    let mut eps: Vec<String> = Vec::new();
    assert(ps.take(0) =~= Seq::<Seq<char>>::empty());
    assert(crate::command::commands::ifconfig::string_views(eps@) =~= Seq::<Seq<char>>::empty());
    for i in 0..pieces.len()
        invariant
            ps == char_views(pieces@),
            ps.len() == pieces@.len(),
            crate::command::commands::ifconfig::string_views(eps@) == clif_targets(ps.take(i as int)),
    {
        let ghost before = crate::command::commands::ifconfig::string_views(eps@);
        assert(ps.take(i + 1).drop_last() =~= ps.take(i as int));
        assert(ps[i as int] == pieces@[i as int]@);
        match piece_target(&pieces[i]) {
            Some(t) => {
                let s = string_from_chars(t.as_slice());
                eps.push(s);
                assert(crate::command::commands::ifconfig::string_views(eps@) =~= before + seq![t@]);
            },
            None => {
                assert(crate::command::commands::ifconfig::string_views(eps@) =~= before + Seq::<Seq<char>>::empty());
            },
        }
    }
    assert(ps.take(ps.len() as int) =~= ps);
    eps
}

/// A CoAP request the shell wants sent as a configuration frame: what to
/// ask, the message id and token it carries, and whether it asks for
/// blocks of 256 bytes (a `Block2` option of `0x05`).
pub struct OutgoingRequest {
    pub plan: RequestPlan,
    pub message_id: Option<u16>,
    pub token: Vec<u8>,
    pub block2: bool,
}

/// What the shell wants done outside: frames to send, and job output to
/// write.
pub enum Outgoing {
    /// Sent as a configuration frame.
    Configuration(OutgoingRequest),
    /// Sent as a diagnostic frame.
    Diagnostic(String),
    /// A job's output to write before the job's text is shown (see
    /// `App::job_output_written`).
    WriteJobOutput(JobId, JobOutput),
}

/// What a key does, besides editing the input.
#[derive(Clone, Copy, PartialEq, Eq, Structural, Debug)]
pub enum KeyOutcome {
    /// Nothing more: carry on.
    Continue,
    /// Leave the shell.
    Quit,
    /// Commit the input (see `App::handle_command_commit`).
    Commit,
    /// Show the overview.
    ShowOverview,
    /// Show the diagnostic messages.
    ShowDiagnostic,
    /// Show the configuration messages.
    ShowConfiguration,
    /// Show the commands.
    ShowCommands,
    /// Show the help.
    ShowHelp,
}

/// A key the user pressed.
#[derive(Clone, Copy, PartialEq, Eq, Structural, Debug)]
pub enum Key {
    Enter,
    Tab,
    Backspace,
    Left,
    Right,
    Up,
    Down,
    Char(char),
    F(u8),
    Esc,
    /// `c` with the control key.
    CtrlC,
    /// Any other key.
    Other,
}

/// The code byte and name of a request method.
pub open spec fn method_code(m: Method) -> (u8, Seq<char>) {
    match m {
        Method::Get => (1, "Get"@),
        Method::Post => (2, "Post"@),
        Method::Put => (3, "Put"@),
        Method::Patch => (6, "Patch"@),
    }
}

/// The `Uri-Path` options `set_path` gives a path: its pieces between the
/// `/`s, a leading empty one left out; none at all when that leaves none.
pub open spec fn path_options(path: Seq<char>) -> Option<Seq<Seq<u8>>> {
    let pieces = split_on(path, '/');
    let kept = if pieces[0].len() == 0 {
        pieces.drop_first()
    } else {
        pieces
    };
    if kept.len() == 0 {
        None
    } else {
        Some(kept.map_values(|p: Seq<char>| crate::text::utf8(p)))
    }
}

/// The request as the log keeps it: its code, the name of its method, the
/// status a request has (`UnKnown`, counted as an error), its token, its
/// path options (none when `with_path` is false), its content format and
/// its payload.
pub open spec fn request_message(plan: RequestView, token: Seq<u8>, with_path: bool) -> MessageView {
    MessageView {
        code: method_code(plan.method).0,
        class: CodeClass::Request,
        code_name: method_code(plan.method).1,
        status_is_error: true,
        token,
        uri_path: if with_path {
            path_options(plan.path)
        } else {
            None
        },
        content_format: if plan.cbor {
            Some((60, "ApplicationCBOR"@))
        } else {
            None
        },
        payload: plan.payload,
    }
}

/// The token for a request number: its two little-endian bytes.
pub open spec fn token_bytes(n: u16) -> Seq<u8> {
    seq![(n % 256) as u8, (n / 256) as u8]
}

/// The views of a list of byte vectors.
pub open spec fn byte_views(s: Seq<Vec<u8>>) -> Seq<Seq<u8>> {
    s.map_values(|v: Vec<u8>| v@)
}

/// The `Uri-Path` options of a path (see `path_options`).
pub(crate) fn path_options_exec(path: &str) -> (r: Option<Vec<Vec<u8>>>)
    ensures
        match path_options(path@) {
            Some(o) => r matches Some(v) && byte_views(v@) == o,
            None => r is None,
        },
{
    let v = chars_of(path);
    let pieces = split_chars(&v, '/');
    proof {
        lemma_split_on_len(v@, '/');
    }
    let ghost ps = char_views(pieces@);
    let ghost kept = if ps[0].len() == 0 {
        ps.drop_first()
    } else {
        ps
    };
    let start: usize = if pieces[0].len() == 0 { 1 } else { 0 };
    assert(ps[0] == pieces@[0]@);
    if start == pieces.len() {
        assert(kept.len() == 0);
        return None;
    }
    let mut out: Vec<Vec<u8>> = Vec::new();
    for i in start..pieces.len()
        invariant
            start <= pieces@.len(),
            ps == char_views(pieces@),
            kept == ps.skip(start as int),
            byte_views(out@) == kept.take(i - start).map_values(|p: Seq<char>| crate::text::utf8(p)),
    {
        let s = string_from_chars(pieces[i].as_slice());
        let b = crate::text::utf8_bytes(s.as_str());
        let ghost before = byte_views(out@);
        out.push(b);
        assert(ps[i as int] == pieces@[i as int]@);
        assert(kept.take(i + 1 - start) =~= kept.take(i - start).push(ps[i as int]));
        assert(byte_views(out@) =~= before.push(crate::text::utf8(ps[i as int])));
    }
    assert(kept.take(pieces@.len() - start) =~= kept);
    Some(out)
}

/// The code byte of a request method (see `method_code`).
pub(crate) fn method_number(m: Method) -> (r: u8)
    ensures
        r == method_code(m).0,
{
    match m {
        Method::Get => 1,
        Method::Post => 2,
        Method::Put => 3,
        Method::Patch => 6,
    }
}

/// The request as the log keeps it (see `request_message`).
pub(crate) fn request_message_exec(plan: &RequestPlan, token: &Vec<u8>, with_path: bool) -> (r: CoapMessage)
    ensures
        r@ == request_message(plan@, token@, with_path),
{
    let (code, name) = match plan.method {
        Method::Get => (1u8, "Get"),
        Method::Post => (2u8, "Post"),
        Method::Put => (3u8, "Put"),
        Method::Patch => (6u8, "Patch"),
    };
    let uri_path = if with_path {
        path_options_exec(plan.path.as_str())
    } else {
        None
    };
    let content_format = if plan.cbor {
        Some(ContentFormatInfo { number: 60, name: "ApplicationCBOR".to_owned() })
    } else {
        None
    };
    CoapMessage {
        code,
        class: CodeClass::Request,
        code_name: name.to_owned(),
        status_is_error: true,
        token: token.clone(),
        uri_path,
        content_format,
        payload: plan.payload.clone(),
    }
}

/// A request plan's copy.
fn copy_plan(plan: &RequestPlan) -> (r: RequestPlan)
    ensures
        r@ == plan@,
{
    RequestPlan {
        method: plan.method,
        path: plan.path.clone(),
        query: match &plan.query {
            Some(q) => Some(q.clone()),
            None => None,
        },
        cbor: plan.cbor,
        payload: plan.payload.clone(),
    }
}

/// What waits to be done outside, as a value.
pub enum OutgoingView {
    Configuration { plan: RequestView, message_id: Option<u16>, token: Seq<u8>, block2: bool },
    Diagnostic(Seq<char>),
    WriteJobOutput(JobId, JobOutputView),
}

impl View for Outgoing {
    type V = OutgoingView;

    open spec fn view(&self) -> OutgoingView {
        match self {
            Outgoing::Configuration(o) => OutgoingView::Configuration {
                plan: o.plan@,
                message_id: o.message_id,
                token: o.token@,
                block2: o.block2,
            },
            Outgoing::Diagnostic(s) => OutgoingView::Diagnostic(s@),
            Outgoing::WriteJobOutput(id, out) => OutgoingView::WriteJobOutput(*id, out@),
        }
    }
}

/// The shell as a value.
pub struct AppView {
    pub connected: bool,
    /// The requests sent, as the log keeps them, oldest first.
    pub sent: Seq<MessageView>,
    /// The responses to each request sent, in the same order.
    pub answers: Seq<Seq<MessageView>>,
    /// Configuration messages that answered no request sent.
    pub unmatched: Seq<MessageView>,
    /// The diagnostic lines.
    pub diagnostic: LinesView,
    /// The lines of everything shown.
    pub overall: LinesView,
    /// The input line and its history.
    pub input: InputState,
    /// The commands available, and those known but not available yet.
    pub available: Seq<CommandView>,
    pub stored: Seq<CommandView>,
    /// The path of the device connected to.
    pub device: Option<Seq<char>>,
    /// The board's name and version, once the board answered.
    pub board: Option<Seq<char>>,
    pub version: Option<Seq<char>>,
    /// How many requests carried a token, and the message id last used.
    pub tokens_used: u16,
    pub last_message_id: u16,
    /// The running jobs, by the number their request's token is tracked by.
    pub ongoing: Map<u64, JobId>,
    /// The jobs started, in order.
    pub jobs: Seq<JobView>,
    /// What waits to be done outside, oldest first.
    pub outbox: Seq<OutgoingView>,
}

/// The message id after `m`, wrapping around.
pub open spec fn next_id(m: u16) -> u16 {
    if m == u16::MAX {
        0
    } else {
        (m + 1) as u16
    }
}

/// The shell after a configuration request for `plan` went out with a new
/// message id and a new token, asking for blocks of 256 bytes, and was
/// logged.
pub open spec fn sent_one(v: AppView, plan: RequestView) -> AppView {
    let token = token_bytes((v.tokens_used + 1) as u16);
    AppView {
        tokens_used: (v.tokens_used + 1) as u16,
        last_message_id: next_id(v.last_message_id),
        sent: v.sent.push(request_message(plan, token, true)),
        answers: v.answers.push(Seq::empty()),
        outbox: v.outbox.push(
            OutgoingView::Configuration { plan, message_id: Some(next_id(v.last_message_id)), token, block2: true },
        ),
        ..v
    }
}

/// The shell after configuration requests for `plans` went out in turn
/// (see `sent_one`).
pub open spec fn sent_all(v: AppView, plans: Seq<RequestView>) -> AppView
    decreases plans.len(),
{
    if plans.len() == 0 {
        v
    } else {
        sent_one(sent_all(v, plans.drop_last()), plans.last())
    }
}

/// The path a raw CoAP line asks for: none at all for `/` alone.
pub open spec fn raw_path(endpoint: Seq<char>) -> Seq<char> {
    if endpoint == "/"@ {
        Seq::empty()
    } else {
        endpoint
    }
}

/// `line`, ending in a newline.
pub open spec fn with_newline(line: Seq<char>) -> Seq<char> {
    if line.len() > 0 && line.last() == '\n' {
        line
    } else {
        line.push('\n')
    }
}

/// The parser's result as a value.
pub open spec fn parsed_view(p: Option<Result<Handler, String>>) -> Option<Result<HandlerView, Seq<char>>> {
    match p {
        Some(Ok(h)) => Some(Ok(h@)),
        Some(Err(e)) => Some(Err(e@)),
        None => None,
    }
}

/// Whether the line can be committed with `parsed` as the parser's
/// result: a command whose line is read by the parser must come with the
/// parser's result, whose handler can make its first request; any other
/// command with end-points starts a handler of its own (it is no text or
/// Jelly command).
pub open spec fn commit_ready(v: AppView, parsed: Option<Result<HandlerView, Seq<char>>>) -> bool {
    match classify(v.input.input, v.available) {
        InputClass::CoapCommand(c, _, _) => if needs_arguments(c.kind) {
            parsed matches Some(r) && (r matches Ok(h) ==> can_start(h))
        } else {
            c.kind != CommandKind::Text && c.kind != CommandKind::Jelly
        },
        _ => true,
    }
}

/// The shell after its input line was committed, the parser having given
/// `parsed` (see `App::handle_command_commit`).
pub open spec fn committed(v: AppView, parsed: Option<Result<HandlerView, Seq<char>>>) -> AppView {
    let token = token_bytes((v.tokens_used + 1) as u16);
    let after = match classify(v.input.input, v.available) {
        InputClass::RawCoap(e) => {
            let plan = RequestPlan::get_view(raw_path(e));
            AppView {
                tokens_used: (v.tokens_used + 1) as u16,
                sent: v.sent.push(request_message(plan, token, true)),
                answers: v.answers.push(Seq::empty()),
                outbox: v.outbox.push(OutgoingView::Configuration { plan, message_id: None, token, block2: false }),
                ..v
            }
        },
        InputClass::RawCommand(s) => AppView { outbox: v.outbox.push(OutgoingView::Diagnostic(s)), ..v },
        InputClass::CoapCommand(c, line, target) => {
            let res = if needs_arguments(c.kind) {
                parsed->0
            } else {
                Ok(handler_for(c))
            };
            match res {
                Ok(h) => {
                    let sent = sent_one(v, first_request(h).0);
                    AppView {
                        jobs: v.jobs.push(
                            JobView {
                                handler: Some(first_request(h).1),
                                file: target,
                                cli: line,
                                log: Seq::empty(),
                                finished: false,
                                ended: false,
                            },
                        ),
                        ongoing: v.ongoing.insert(token_value(token), v.jobs.len() as JobId),
                        overall: append_message_lines(append_message_lines(v.overall, line), "\n> "@),
                        ..sent
                    }
                },
                Err(e) => AppView {
                    jobs: v.jobs.push(
                        JobView { handler: None, file: SaveTarget::No, cli: line, log: e, finished: false, ended: false },
                    ),
                    overall: append_message_lines(v.overall, e),
                    ..v
                },
            }
        },
        InputClass::JellyCommand(_, line) => AppView {
            outbox: v.outbox.push(OutgoingView::Diagnostic(with_newline(line))),
            ..v
        },
    };
    AppView { input: finish_input(v.input), ..after }
}

/// The command the committed line names when it is a command with
/// end-points, and the command line (without where its output goes).
pub open spec fn pending(v: AppView) -> Option<(CommandView, Seq<char>)> {
    match classify(v.input.input, v.available) {
        InputClass::CoapCommand(c, line, _) => Some((c, line)),
        _ => None,
    }
}

/// `avail` with the description of the first command whose first
/// end-point is `location` replaced by `d`, if there is one.
pub open spec fn describe_by_location(avail: Seq<CommandView>, location: Seq<char>, d: Seq<char>) -> Seq<CommandView> {
    let i = first_index(avail, first_location_is(location));
    if i < avail.len() {
        avail.update(i, CommandView { description: d, ..avail[i] })
    } else {
        avail
    }
}

/// `avail` with the description of the first command named `name`
/// (trailing ASCII whitespace removed) replaced by `d`, if there is one.
pub open spec fn describe_by_name(avail: Seq<CommandView>, name: Seq<char>, d: Seq<char>) -> Seq<CommandView> {
    let i = first_index(avail, named(trim_ascii_end(name)));
    if i < avail.len() {
        avail.update(i, CommandView { description: d, ..avail[i] })
    } else {
        avail
    }
}

/// The RIOT shell command a `/shell/` end-point offers.
pub open spec fn shell_command(e: Seq<char>) -> CommandView {
    CommandView {
        cmd: strip_shell_prefix(e),
        description: "A RIOT shell command"@,
        required_endpoints: Seq::empty(),
        kind: CommandKind::Text,
    }
}

/// The command that GETs the resource at `e`, described by `d`.
pub open spec fn resource_command(e: Seq<char>, d: Seq<char>) -> CommandView {
    CommandView { cmd: e, description: d, required_endpoints: seq![e], kind: CommandKind::CoapGet }
}

/// The available commands after learning the end-points `eps` in turn,
/// and the `/shell/` end-points whose description is asked for: an
/// end-point that is the first end-point of an available command is
/// skipped; a `/shell/` end-point gives its shell command and a command
/// for its resource; any other gives a command for its resource.
pub open spec fn learn(avail: Seq<CommandView>, eps: Seq<Seq<char>>) -> (Seq<CommandView>, Seq<Seq<char>>)
    decreases eps.len(),
{
    if eps.len() == 0 {
        (avail, Seq::empty())
    } else {
        let (a, s) = learn(avail, eps.drop_last());
        let e = eps.last();
        if first_index(a, first_location_is(e)) < a.len() {
            (a, s)
        } else if has_shell_prefix(e) {
            (
                a.push(shell_command(e)).push(resource_command(e, "A CoAP resource describing a RIOT shell command"@)),
                s.push(e),
            )
        } else {
            (a.push(resource_command(e, "A CoAP resource"@)), s)
        }
    }
}

/// No more descriptions are asked for than there are end-points.
pub proof fn lemma_learn_len(avail: Seq<CommandView>, eps: Seq<Seq<char>>)
    ensures
        learn(avail, eps).1.len() <= eps.len(),
    decreases eps.len(),
{
    if eps.len() > 0 {
        lemma_learn_len(avail, eps.drop_last());
    }
}

/// Sending requests counts the tokens up, while they last.
pub proof fn lemma_sent_all_tokens(v: AppView, plans: Seq<RequestView>)
    requires
        v.tokens_used + plans.len() <= u16::MAX,
    ensures
        sent_all(v, plans).tokens_used == v.tokens_used + plans.len(),
    decreases plans.len(),
{
    if plans.len() > 0 {
        lemma_sent_all_tokens(v, plans.drop_last());
    }
}

/// Sending requests changes nothing but the tokens, the message id, the
/// log of requests and the outbox.
pub proof fn lemma_sent_all_frame(v: AppView, plans: Seq<RequestView>)
    ensures
        ({
            let w = sent_all(v, plans);
            w == AppView {
                tokens_used: w.tokens_used,
                last_message_id: w.last_message_id,
                sent: w.sent,
                answers: w.answers,
                outbox: w.outbox,
                ..v
            }
        }),
    decreases plans.len(),
{
    if plans.len() > 0 {
        lemma_sent_all_frame(v, plans.drop_last());
    }
}

/// Sending requests keeps the requests and answers logged before.
pub proof fn lemma_sent_all_prefix(v: AppView, plans: Seq<RequestView>)
    ensures
        sent_all(v, plans).sent.len() == v.sent.len() + plans.len(),
        sent_all(v, plans).answers.len() == v.answers.len() + plans.len(),
        forall|j: int| 0 <= j < v.sent.len() ==> #[trigger] sent_all(v, plans).sent[j] == v.sent[j],
        forall|j: int| 0 <= j < v.answers.len() ==> #[trigger] sent_all(v, plans).answers[j] == v.answers[j],
    decreases plans.len(),
{
    if plans.len() > 0 {
        lemma_sent_all_prefix(v, plans.drop_last());
    }
}

/// Different request numbers give different tokens.
pub proof fn lemma_token_bytes_injective(a: u16, b: u16)
    requires
        a != b,
    ensures
        token_bytes(a) != token_bytes(b),
{
    if token_bytes(a) == token_bytes(b) {
        assert(token_bytes(a)[0] == token_bytes(b)[0]);
        assert(token_bytes(a)[1] == token_bytes(b)[1]);
        assert(a == (a / 256) * 256 + a % 256);
        assert(b == (b / 256) * 256 + b % 256);
    }
}

/// The requests sent in turn carry the tokens of the numbers that follow
/// the tokens used so far, so that no two of them carry the same token
/// (while tokens last).
pub proof fn law_requests_carry_distinct_tokens(v: AppView, plans: Seq<RequestView>)
    requires
        v.tokens_used + plans.len() <= u16::MAX,
        v.sent.len() == v.answers.len(),
    ensures
        ({
            let w = sent_all(v, plans);
            &&& w.sent.len() == v.sent.len() + plans.len()
            &&& forall|k: int| 0 <= k < plans.len() ==> #[trigger] w.sent[v.sent.len() + k].token == token_bytes(
                (v.tokens_used + k + 1) as u16,
            )
            &&& forall|k: int, l: int|
                0 <= k < l < plans.len() ==> #[trigger] w.sent[v.sent.len() + k].token != #[trigger] w.sent[v.sent.len()
                    + l].token
        }),
    decreases plans.len(),
{
    if plans.len() > 0 {
        let p = plans.drop_last();
        law_requests_carry_distinct_tokens(v, p);
        lemma_sent_all_tokens(v, p);
        let u = sent_all(v, p);
        let w = sent_all(v, plans);
        assert(w == sent_one(u, plans.last()));
        assert forall|k: int| 0 <= k < plans.len() implies #[trigger] w.sent[v.sent.len() + k].token == token_bytes(
            (v.tokens_used + k + 1) as u16,
        ) by {
            if k < p.len() {
                assert(w.sent[v.sent.len() + k] == u.sent[v.sent.len() + k]);
            }
        }
        assert forall|k: int, l: int|
            0 <= k < l < plans.len() implies #[trigger] w.sent[v.sent.len() + k].token != #[trigger] w.sent[v.sent.len()
                + l].token by {
            lemma_token_bytes_injective((v.tokens_used + k + 1) as u16, (v.tokens_used + l + 1) as u16);
        }
    }
}

/// Committing a line keeps the jobs in the order their lines were entered:
/// the earlier jobs stay as they were, and a line that names a command with
/// end-points adds its job, with that command line, at the end.  The job
/// log that a headless session shows at its end lists the jobs in this
/// order (see `App::job_log_text` and `law_answers_keep_job_order`).
pub proof fn law_commit_keeps_job_order(v: AppView, parsed: Option<Result<HandlerView, Seq<char>>>)
    ensures
        committed(v, parsed).jobs.len() >= v.jobs.len(),
        forall|i: int| 0 <= i < v.jobs.len() ==> #[trigger] committed(v, parsed).jobs[i] == v.jobs[i],
        pending(v) matches Some((c, line)) ==> committed(v, parsed).jobs.len() == v.jobs.len() + 1
            && committed(v, parsed).jobs.last().cli == line,
        pending(v) is None ==> committed(v, parsed).jobs == v.jobs,
{
}

/// What every job showed, one after the other, in the order the jobs were
/// started.
pub open spec fn joined_logs(jobs: Seq<JobView>) -> Seq<char>
    decreases jobs.len(),
{
    if jobs.len() == 0 {
        Seq::empty()
    } else {
        joined_logs(jobs.drop_last()) + jobs.last().log
    }
}

proof fn lemma_sent_all_keeps_jobs(v: AppView, plans: Seq<RequestView>)
    ensures
        sent_all(v, plans).jobs == v.jobs,
    decreases plans.len(),
{
    if plans.len() > 0 {
        lemma_sent_all_keeps_jobs(v, plans.drop_last());
    }
}

proof fn lemma_job_answered_keeps_order(v: AppView, m: MessageView, senml_text: Seq<char>)
    requires
        forall|k: u64| #[trigger] v.ongoing.contains_key(k) ==> v.ongoing[k] < v.jobs.len(),
    ensures
        job_answered(v, m, senml_text).jobs.len() == v.jobs.len(),
        forall|i: int|
            0 <= i < v.jobs.len() ==> #[trigger] job_answered(v, m, senml_text).jobs[i].cli == v.jobs[i].cli
                && v.jobs[i].log.is_prefix_of(job_answered(v, m, senml_text).jobs[i].log),
{
    let w = job_answered(v, m, senml_text);
    let t = token_value(m.token);
    if v.ongoing.contains_key(t) {
        let id = v.ongoing[t];
        let text = shown_text(step(v.jobs[id as int].handler->0, m, senml_text).1, v.jobs[id as int].file, None);
        assert forall|i: int| 0 <= i < v.jobs.len() implies #[trigger] w.jobs[i].cli == v.jobs[i].cli
            && v.jobs[i].log.is_prefix_of(w.jobs[i].log) by {
            assert((v.jobs[i].log + text).subrange(0, v.jobs[i].log.len() as int) =~= v.jobs[i].log);
            assert(v.jobs[i].log.subrange(0, v.jobs[i].log.len() as int) =~= v.jobs[i].log);
        }
    } else {
        assert forall|i: int| 0 <= i < v.jobs.len() implies v.jobs[i].log.is_prefix_of(#[trigger] w.jobs[i].log) by {
            assert(v.jobs[i].log.subrange(0, v.jobs[i].log.len() as int) =~= v.jobs[i].log);
        }
    }
}

proof fn lemma_logged_answer_keeps_jobs(v: AppView, m: MessageView)
    ensures
        logged_answer(v, m).jobs == v.jobs,
{
    let i = first_index(v.sent, tracked_by(token_value(m.token)));
    if i < v.sent.len() {
        let v1 = AppView { answers: v.answers.update(i, v.answers[i].push(m)), ..v };
        let eps = clif_endpoints(m.payload);
        lemma_sent_all_keeps_jobs(v1, gets(learn(v1.available, eps).1));
    }
}

/// An answer keeps the jobs in the order their lines were entered: each
/// job keeps its place and its command line, and what it showed so far
/// stays at the start of what it shows. Together with
/// `law_commit_keeps_job_order`, the text a headless session prints at its
/// end (`App::job_log_text`, which is `joined_logs` of the jobs) shows the
/// jobs in the order their lines were read.
pub proof fn law_answers_keep_job_order(v: AppView, m: MessageView, senml_text: Seq<char>)
    requires
        forall|k: u64| #[trigger] v.ongoing.contains_key(k) ==> v.ongoing[k] < v.jobs.len(),
    ensures
        answered(v, m, senml_text).jobs.len() == v.jobs.len(),
        forall|i: int|
            0 <= i < v.jobs.len() ==> #[trigger] answered(v, m, senml_text).jobs[i].cli == v.jobs[i].cli
                && v.jobs[i].log.is_prefix_of(answered(v, m, senml_text).jobs[i].log),
{
    lemma_job_answered_keeps_order(v, m, senml_text);
    lemma_logged_answer_keeps_jobs(job_answered(v, m, senml_text), m);
}

/// A job whose handler is done with the answer no longer runs: it is
/// marked done and its token no longer tracks it.
pub proof fn law_finished_job_stops(v: AppView, m: MessageView, senml_text: Seq<char>)
    requires
        v.ongoing.contains_key(token_value(m.token)),
        v.ongoing[token_value(m.token)] < v.jobs.len(),
        v.jobs[v.ongoing[token_value(m.token)] as int].handler is Some,
        finished(step(v.jobs[v.ongoing[token_value(m.token)] as int].handler->0, m, senml_text).1),
    ensures
        ({
            let w = job_answered(v, m, senml_text);
            let id = v.ongoing[token_value(m.token)];
            &&& !w.ongoing.contains_key(token_value(m.token))
            &&& w.ongoing.dom() == v.ongoing.dom().remove(token_value(m.token))
            &&& w.jobs[id as int].finished
        }),
{
    let t = token_value(m.token);
    let w = job_answered(v, m, senml_text);
    assert(w.ongoing.dom() =~= v.ongoing.dom().remove(t));
}

/// An answer joins the responses of the first request its token tracks,
/// after those that came before; an answer that no request's token tracks
/// is kept apart.
pub proof fn law_answer_joins_its_request(v: AppView, m: MessageView)
    requires
        v.sent.len() == v.answers.len(),
    ensures
        ({
            let w = logged_answer(v, m);
            let i = first_index(v.sent, tracked_by(token_value(m.token)));
            &&& i < v.sent.len() ==> w.answers[i] == v.answers[i].push(m) && w.unmatched == v.unmatched
            &&& i >= v.sent.len() ==> w.unmatched == v.unmatched.push(m) && w.answers == v.answers
        }),
{
    let i = first_index(v.sent, tracked_by(token_value(m.token)));
    crate::seqs::lemma_first_index_bounds(v.sent, tracked_by(token_value(m.token)));
    if i < v.sent.len() {
        let v1 = AppView { answers: v.answers.update(i, v.answers[i].push(m)), ..v };
        lemma_sent_all_frame(v1, gets(learn(v1.available, clif_endpoints(m.payload)).1));
        lemma_sent_all_prefix(v1, gets(learn(v1.available, clif_endpoints(m.payload)).1));
    }
}

/// GETs of the paths `ps`.
pub open spec fn gets(ps: Seq<Seq<char>>) -> Seq<RequestView> {
    ps.map_values(|e: Seq<char>| RequestPlan::get_view(e))
}

/// The shell after the answer `payload` to `/.well-known/core`: it learns
/// the end-points listed (see `learn`), asks for the description of each
/// new `/shell/` end-point, and makes available the known commands whose
/// end-points are all listed.
pub open spec fn learned(v: AppView, payload: Seq<u8>) -> AppView {
    let eps = clif_endpoints(payload);
    let (a, shells) = learn(v.available, eps);
    AppView {
        available: sorted_commands(a + v.stored.filter(endpoints_met(eps))),
        stored: v.stored.filter(endpoints_missing(eps)),
        ..sent_all(v, gets(shells))
    }
}

/// Whether a request's view is tracked by `t`.
pub open spec fn tracked_by(t: u64) -> spec_fn(MessageView) -> bool {
    |r: MessageView| token_value(r.token) == t
}

/// The shell after the answer `m` was logged: it joins the responses to
/// the first request sent that its token's number tracks, and the request's
/// path says what more it means (the board's name or version, the
/// device's resources, or a shell command's description); an answer to no
/// request is kept apart.
pub open spec fn logged_answer(v: AppView, m: MessageView) -> AppView {
    let i = first_index(v.sent, tracked_by(token_value(m.token)));
    if i < v.sent.len() {
        let v1 = AppView { answers: v.answers.update(i, v.answers[i].push(m)), ..v };
        let text = lossy_utf8(m.payload);
        match v.sent[i].uri_path {
            Some(opts) => {
                let path = path_segments(opts);
                if path == "/jelly/board"@ {
                    AppView { board: Some(text), ..v1 }
                } else if path == "/jelly/ver"@ {
                    AppView { version: Some(text), ..v1 }
                } else if path == "/.well-known/core"@ {
                    learned(v1, m.payload)
                } else if has_shell_prefix(path) {
                    AppView {
                        available: describe_by_name(
                            describe_by_location(v1.available, path, text),
                            strip_shell_prefix(path),
                            text,
                        ),
                        ..v1
                    }
                } else {
                    v1
                }
            },
            None => v1,
        }
    } else {
        AppView { unmatched: v.unmatched.push(m), ..v }
    }
}

/// Whether the job the answer `m` is for, if any, can take it.
pub open spec fn job_accepts(v: AppView, m: MessageView) -> bool {
    let t = token_value(m.token);
    v.ongoing.contains_key(t) ==> accepts(v.jobs[v.ongoing[t] as int].handler->0, m)
}

/// The shell after the job that the answer `m` is for, if any, took it:
/// the job's handler steps; what it has to show is shown (its output
/// written first, outside, unless it is only shown); the request that
/// follows, if any, is sent; a finished job is marked done and no longer
/// runs, another runs on, tracked by its new request's token.
pub open spec fn job_answered(v: AppView, m: MessageView, senml_text: Seq<char>) -> AppView {
    let t = token_value(m.token);
    if !v.ongoing.contains_key(t) {
        v
    } else {
        let id = v.ongoing[t];
        let j = v.jobs[id as int];
        let (q, n) = step(j.handler->0, m, senml_text);
        let j1 = JobView { handler: Some(n), ..j };
        let text = shown_text(n, j1.file, None);
        let shown = if wants_display(n) && job_output_of(j1) is Show {
            AppView {
                jobs: v.jobs.update(id as int, JobView { log: j1.log + text, ..j1 }),
                overall: append_message_lines(v.overall, text),
                ..v
            }
        } else if wants_display(n) {
            AppView {
                jobs: v.jobs.update(id as int, j1),
                outbox: v.outbox.push(OutgoingView::WriteJobOutput(id, job_output_of(j1))),
                ..v
            }
        } else {
            AppView { jobs: v.jobs.update(id as int, j1), ..v }
        };
        let asked = match q {
            Some(p) => sent_one(shown, p),
            None => shown,
        };
        let key = match q {
            Some(_) => token_value(token_bytes((v.tokens_used + 1) as u16)),
            None => t,
        };
        if finished(n) {
            AppView {
                jobs: asked.jobs.update(id as int, JobView { finished: true, ended: true, ..asked.jobs[id as int] }),
                ongoing: v.ongoing.remove(t),
                ..asked
            }
        } else {
            AppView { ongoing: v.ongoing.remove(t).insert(key, id), ..asked }
        }
    }
}

/// The shell after the configuration message `m` came (see
/// `App::on_configuration_msg`).
pub open spec fn answered(v: AppView, m: MessageView, senml_text: Seq<char>) -> AppView {
    logged_answer(job_answered(v, m, senml_text), m)
}

/// A committed line, taken apart.
enum Commit {
    RawCoap(String),
    RawCommand(String),
    Coap(Result<Handler, String>, String, SaveToFile),
    Jelly(String),
}

/// Whether `s` ends in a newline.
fn ends_in_newline(s: &str) -> (r: bool)
    ensures
        r == (s@.len() > 0 && s@.last() == '\n'),
{
    let x = chars_of(s);
    x.len() > 0 && x[x.len() - 1] == '\n'
}

/// Whether `s` starts with `/shell/`.
fn is_shell_path(s: &str) -> (r: bool)
    ensures
        r == has_shell_prefix(s@),
{
    let x = chars_of(s);
    let p = chars_of("/shell/");
    proof {
        reveal_strlit("/shell/");
    }
    let r = starts_with_chars(x.as_slice(), p.as_slice());
    proof {
        assert(p@ =~= seq!['/', 's', 'h', 'e', 'l', 'l', '/']);
        if r {
            assert(x@.take(7) =~= seq!['/', 's', 'h', 'e', 'l', 'l', '/']);
        } else if x@.len() >= 7 {
            assert(!(x@.take(7) =~= p@));
        }
    }
    r
}

/// The shell: the connection, the logs, the input line and its commands,
/// the running jobs, and what waits to be done outside.
pub struct App {
    connected: bool,
    configuration_log: CoapLog,
    configuration_packets: Vec<CoapMessage>,
    diagnostic_log: DiagnosticLog,
    user_input_manager: UserInputManager,
    device_path: Option<String>,
    board_name: Option<String>,
    board_version: Option<String>,
    token_count: u16,
    next_mid: u16,
    overall_log: DiagnosticLog,
    ongoing_jobs: HashMap<u64, JobId>,
    job_log: JobLog,
    outbox: Vec<Outgoing>,
}

/// A text's view, if there is one.
pub open spec fn text_view(s: Option<String>) -> Option<Seq<char>> {
    match s {
        Some(p) => Some(p@),
        None => None,
    }
}

impl View for App {
    type V = AppView;

    closed spec fn view(&self) -> AppView {
        AppView {
            connected: self.connected,
            sent: self.configuration_log.requests@.map_values(|q: Request| q.req@),
            answers: self.configuration_log.requests@.map_values(
                |q: Request| q.res@.map_values(|r: Response| r.message()@),
            ),
            unmatched: self.configuration_packets@.map_values(|m: CoapMessage| m@),
            diagnostic: self.diagnostic_log.lines_view(),
            overall: self.overall_log.lines_view(),
            input: self.user_input_manager.state(),
            available: self.user_input_manager.commands().available(),
            stored: self.user_input_manager.commands().stored(),
            device: text_view(self.device_path),
            board: text_view(self.board_name),
            version: text_view(self.board_version),
            tokens_used: self.token_count,
            last_message_id: self.next_mid,
            ongoing: self.ongoing_jobs@,
            jobs: self.job_log.jobs@.map_values(|j: Job| j@),
            outbox: self.outbox@.map_values(|o: Outgoing| o@),
        }
    }
}

impl App {
    /// The input line is well formed, each logged request is tracked by
    /// its token's number, and each running job is a started job with a
    /// handler.
    pub closed spec fn wf(&self) -> bool {
        &&& self.user_input_manager.wf()
        &&& forall|i: int|
            0 <= i < self.configuration_log.requests@.len() ==> #[trigger] self.configuration_log.requests@[i].token
                == token_value(self.configuration_log.requests@[i].req@.token)
        &&& forall|k: u64|
            #[trigger] self.ongoing_jobs@.contains_key(k) ==> self.ongoing_jobs@[k] < self.job_log.jobs@.len()
                && self.job_log.jobs@[self.ongoing_jobs@[k] as int]@.handler is Some
    }

    /// Whether `n` more requests can get a token: tokens count up to
    /// `u16::MAX`.
    pub open spec fn can_send(&self, n: nat) -> bool {
        self@.tokens_used + n <= u16::MAX
    }

    /// A shell not connected to anything, with empty logs, an empty input
    /// line and the commands Jelly implements known, of which the library's
    /// defaults and the commands that need no end-point are available
    /// (`starting_views`, in the library's order); message ids go on
    /// from `first_message_id` (a random number, for the device to tell
    /// sessions apart).
    pub fn new(first_message_id: u16) -> (r: Self)
        ensures
            r.wf(),
            r@ == (AppView {
                connected: false,
                sent: Seq::empty(),
                answers: Seq::empty(),
                unmatched: Seq::empty(),
                diagnostic: crate::datatypes::lines::no_lines(),
                overall: crate::datatypes::lines::no_lines(),
                input: r@.input,
                available: crate::command::library::sorted_commands(crate::command::commands::starting_views()),
                stored: r@.stored,
                device: None,
                board: None,
                version: None,
                tokens_used: 0,
                last_message_id: first_message_id,
                ongoing: Map::empty(),
                jobs: Seq::empty(),
                outbox: Seq::empty(),
            }),
            r@.input.input.len() == 0,
            r@.input.history.len() == 0,
            r@.input.cursor == 0,
            r@.stored.len() == 5,
    {
        let r = Self {
            connected: false,
            configuration_log: CoapLog::new(),
            configuration_packets: Vec::new(),
            diagnostic_log: DiagnosticLog::new(),
            user_input_manager: UserInputManager::new(),
            device_path: None,
            board_name: None,
            board_version: None,
            token_count: 0,
            next_mid: first_message_id,
            overall_log: DiagnosticLog::new(),
            ongoing_jobs: HashMap::new(),
            job_log: JobLog::new(),
            outbox: Vec::new(),
        };
        assert(r@.sent =~= Seq::<MessageView>::empty());
        assert(r@.answers =~= Seq::<Seq<MessageView>>::empty());
        assert(r@.unmatched =~= Seq::<MessageView>::empty());
        assert(r@.jobs =~= Seq::<JobView>::empty());
        assert(r@.outbox =~= Seq::<OutgoingView>::empty());
        assert(r@.ongoing =~= Map::<u64, JobId>::empty());
        r
    }

    /// The next token: the number of requests so far, counted up, as two
    /// little-endian bytes.
    fn get_new_token(&mut self) -> (r: Vec<u8>)
        requires
            old(self).token_count < u16::MAX,
        ensures
            *final(self) == (Self { token_count: (old(self).token_count + 1) as u16, ..*old(self) }),
            r@ == token_bytes(final(self).token_count),
    {
        self.token_count = self.token_count + 1;
        let n = self.token_count;
        let mut t: Vec<u8> = Vec::new();
        t.push((n % 256) as u8);
        t.push((n / 256) as u8);
        assert(t@ =~= token_bytes(n));
        t
    }

    /// The next message id: the last one plus one, wrapping around.
    fn get_new_message_id(&mut self) -> (r: u16)
        ensures
            r == final(self).next_mid,
            *final(self) == (Self { next_mid: next_id(old(self).next_mid), ..*old(self) }),
    {
        self.next_mid = self.next_mid.wrapping_add(1);
        self.next_mid
    }

    /// Sends `plan` as a configuration request with a new message id and
    /// a new token, asking for blocks of 256 bytes, and logs it (see
    /// `sent_one`); gives the token.
    fn send_configuration_request(&mut self, plan: RequestPlan) -> (r: Vec<u8>)
        requires
            old(self).wf(),
            old(self).token_count < u16::MAX,
        ensures
            final(self).wf(),
            final(self)@ == sent_one(old(self)@, plan@),
            r@ == token_bytes(final(self).token_count),
            final(self).job_log == old(self).job_log,
            final(self).ongoing_jobs == old(self).ongoing_jobs,
            final(self).user_input_manager == old(self).user_input_manager,
    {
        let ghost before = self@;
        let mid = self.get_new_message_id();
        let token = self.get_new_token();
        let message = request_message_exec(&plan, &token, true);
        self.configuration_log.push(message);
        let t2 = token.clone();
        let ghost p = plan@;
        self.outbox.push(Outgoing::Configuration(OutgoingRequest { plan, message_id: Some(mid), token: t2, block2: true }));
        assert(self@.sent =~= before.sent.push(request_message(p, token@, true)));
        let ghost last = self.configuration_log.requests@.last();
        assert(last.res@.map_values(|r: Response| r.message()@) =~= Seq::<MessageView>::empty());
        assert(self@.answers =~= before.answers.push(Seq::empty()));
        assert(self@.outbox =~= before.outbox.push(
            OutgoingView::Configuration { plan: p, message_id: Some(mid), token: token@, block2: true },
        ));
        token
    }

    /// The shell is connected to the device at `name`: it asks for the
    /// device's resources, its board and its version.
    pub fn on_connect(&mut self, name: String)
        requires
            old(self).wf(),
            old(self).can_send(3),
        ensures
            final(self).wf(),
            final(self)@ == sent_all(
                AppView { connected: true, device: Some(name@), ..old(self)@ },
                seq![
                    RequestPlan::get_view("/.well-known/core"@),
                    RequestPlan::get_view("/jelly/board"@),
                    RequestPlan::get_view("/jelly/ver"@),
                ],
            ),
    {
        self.connected = true;
        self.device_path = Some(name);
        let ghost v0 = self@;
        let a = RequestPlan::get("/.well-known/core");
        let b = RequestPlan::get("/jelly/board");
        let c = RequestPlan::get("/jelly/ver");
        let ghost plans = seq![a@, b@, c@];
        let _ = self.send_configuration_request(a);
        let _ = self.send_configuration_request(b);
        let _ = self.send_configuration_request(c);
        assert(plans.drop_last() =~= seq![plans[0], plans[1]]);
        assert(plans.drop_last().drop_last() =~= seq![plans[0]]);
        assert(plans.drop_last().drop_last().drop_last() =~= Seq::<RequestView>::empty());
        assert(self@ == sent_one(sent_one(sent_one(v0, plans[0]), plans[1]), plans[2]));
        assert(sent_all(v0, plans) == sent_one(sent_one(sent_one(v0, plans[0]), plans[1]), plans[2])) by {
            reveal_with_fuel(sent_all, 4);
        }
        assert(plans =~= seq![
            RequestPlan::get_view("/.well-known/core"@),
            RequestPlan::get_view("/jelly/board"@),
            RequestPlan::get_view("/jelly/ver"@),
        ]);
    }

    /// The connection is lost.
    pub fn on_disconnect(&mut self)
        requires
            old(self).wf(),
        ensures
            final(self).wf(),
            final(self)@ == (AppView { connected: false, device: None, ..old(self)@ }),
    {
        self.connected = false;
        self.device_path = None;
    }

    /// A diagnostic message came: it goes into the diagnostic log and the
    /// overall log.
    pub fn on_diagnostic_msg(&mut self, msg: &str)
        requires
            old(self).wf(),
        ensures
            final(self).wf(),
            final(self)@ == (AppView {
                diagnostic: append_message_lines(old(self)@.diagnostic, msg@),
                overall: append_message_lines(old(self)@.overall, msg@),
                ..old(self)@
            }),
    {
        self.diagnostic_log.add(msg);
        self.overall_log.add(msg);
    }

    /// Makes every known command available.
    pub fn force_all_commands_availabe(&mut self)
        requires
            old(self).wf(),
        ensures
            final(self).wf(),
            final(self)@ == (AppView {
                available: sorted_commands(old(self)@.available + old(self)@.stored),
                stored: Seq::empty(),
                ..old(self)@
            }),
    {
        self.user_input_manager.force_all_commands_availabe();
        assert(self@.stored =~= Seq::<CommandView>::empty());
    }

    /// How many jobs are still waiting for an answer.
    pub fn unfinished_jobs_count(&self) -> (r: usize)
        ensures
            r == self@.ongoing.len(),
    {
        self.ongoing_jobs.len()
    }

    /// What every job showed, in order.
    pub fn dump_job_log(&self) -> (r: Vec<String>)
        ensures
            r@.len() == self@.jobs.len(),
            forall|i: int| 0 <= i < r@.len() ==> #[trigger] r@[i]@ == self@.jobs[i].log,
    {
        self.job_log.dump()
    }

    /// What every job showed, one after the other, in the order the jobs
    /// were started: what a headless session prints at its end.
    pub fn job_log_text(&self) -> (r: String)
        ensures
            r@ == joined_logs(self@.jobs),
    {
        let logs = self.dump_job_log();
        let ghost jobs = self@.jobs;
        let mut out = String::new();
        assert(jobs.take(0) =~= Seq::<JobView>::empty());
        for i in 0..logs.len()
            invariant
                logs@.len() == jobs.len(),
                forall|k: int| 0 <= k < logs@.len() ==> #[trigger] logs@[k]@ == jobs[k].log,
                out@ == joined_logs(jobs.take(i as int)),
        {
            assert(jobs.take(i + 1).drop_last() =~= jobs.take(i as int));
            assert(jobs.take(i + 1).last() == jobs[i as int]);
            crate::text::string_push_str(&mut out, logs[i].as_str());
        }
        assert(jobs.take(logs@.len() as int) =~= jobs);
        out
    }

    /// Hands out what waits to be done outside, oldest first, and forgets
    /// it.
    pub fn take_outbox(&mut self) -> (r: Vec<Outgoing>)
        requires
            old(self).wf(),
        ensures
            final(self).wf(),
            r@.map_values(|o: Outgoing| o@) == old(self)@.outbox,
            final(self)@ == (AppView { outbox: Seq::empty(), ..old(self)@ }),
    {
        let mut out: Vec<Outgoing> = Vec::new();
        std::mem::swap(&mut out, &mut self.outbox);
        assert(self@.outbox =~= Seq::<OutgoingView>::empty());
        out
    }

    /// The command the input line names, when it is a command with
    /// end-points (see `pending`): its line must be read by the
    /// command-line parser first when `needs_arguments` says so.
    pub fn pending_command(&self) -> (r: Option<(&Command, String)>)
        ensures
            match pending(self@) {
                Some((c, line)) => r matches Some((x, l)) && x@ == c && l@ == line,
                None => r is None,
            },
    {
        match self.user_input_manager.classify_input() {
            InputType::JellyCoapCommand(cmd, line, _) => Some((cmd, line)),
            _ => None,
        }
    }

    /// Whether the input line can be committed with `parsed` as the
    /// parser's result (see `commit_ready`), a token being left and a job
    /// number too.
    pub fn ready_to_commit(&self, parsed: &Option<Result<Handler, String>>) -> (r: bool)
        ensures
            r == (commit_ready(self@, parsed_view(*parsed)) && self.can_send(1) && self@.jobs.len() < usize::MAX),
    {
        if self.token_count == u16::MAX || self.job_log.jobs.len() == usize::MAX {
            return false;
        }
        match self.user_input_manager.classify_input() {
            InputType::JellyCoapCommand(cmd, _, _) => {
                if cmd.needs_arguments() {
                    match parsed {
                        Some(Ok(h)) => h.can_start(),
                        Some(Err(_)) => true,
                        None => false,
                    }
                } else {
                    match cmd.kind {
                        CommandKind::Text | CommandKind::Jelly => false,
                        _ => true,
                    }
                }
            },
            _ => true,
        }
    }

    /// The committed line taken apart, the handler of a command with
    /// end-points made (see `committed`).
    fn classify_commit(&self, parsed: Option<Result<Handler, String>>) -> (r: Commit)
        requires
            commit_ready(self@, parsed_view(parsed)),
        ensures
            match classify(self@.input.input, self@.available) {
                InputClass::RawCoap(e) => r matches Commit::RawCoap(s) && s@ == e,
                InputClass::RawCommand(e) => r matches Commit::RawCommand(s) && s@ == e,
                InputClass::CoapCommand(c, line, target) => r matches Commit::Coap(res, l, f) && l@ == line && f@
                    == target && parsed_view(Some(res)) == Some(
                    if needs_arguments(c.kind) {
                        parsed_view(parsed)->0
                    } else {
                        Ok(handler_for(c))
                    },
                ),
                InputClass::JellyCommand(_, line) => r matches Commit::Jelly(l) && l@ == line,
            },
    {
        match self.user_input_manager.classify_input() {
            InputType::RawCoap(s) => Commit::RawCoap(s),
            InputType::RawCommand(s) => Commit::RawCommand(s),
            InputType::JellyCoapCommand(cmd, line, file) => {
                if cmd.needs_arguments() {
                    match parsed {
                        Some(res) => Commit::Coap(res, line, file),
                        None => {
                            assert(false);
                            Commit::RawCommand(line)
                        },
                    }
                } else {
                    match cmd.parse(line.as_str()) {
                        Ok(CommandType::CoAP(h)) => Commit::Coap(Ok(h), line, file),
                        _ => {
                            assert(false);
                            Commit::RawCommand(line)
                        },
                    }
                }
            },
            InputType::JellyCommand(_, line) => Commit::Jelly(line),
        }
    }

    /// Commits the input line (see `committed`): a line naming a command
    /// with end-points starts a job for it (the parser gave `parsed` for a
    /// command whose line it reads; a failed parse only shows its error);
    /// a line naming a command without end-points is sent as a diagnostic
    /// message, ended by a newline; any other line is sent as it is, a line
    /// starting with `/` as a GET of that path.  The line then goes into
    /// the history.
    pub fn handle_command_commit(&mut self, parsed: Option<Result<Handler, String>>)
        requires
            old(self).wf(),
            commit_ready(old(self)@, parsed_view(parsed)),
            old(self).can_send(1),
            old(self)@.jobs.len() < usize::MAX,
        ensures
            final(self).wf(),
            final(self)@ == committed(old(self)@, parsed_view(parsed)),
    {
        let ghost v = self@;
        let ghost pv = parsed_view(parsed);
        let action = self.classify_commit(parsed);
        match action {
            Commit::RawCoap(endpoint) => {
                let plan = if same_text(endpoint.as_str(), "/") {
                    RequestPlan::get("")
                } else {
                    RequestPlan::get(endpoint.as_str())
                };
                proof {
                    reveal_strlit("");
                    assert(""@ =~= Seq::<char>::empty());
                }
                assert(plan@ == RequestPlan::get_view(raw_path(endpoint@)));
                let token = self.get_new_token();
                let message = request_message_exec(&plan, &token, true);
                self.configuration_log.push(message);
                let ghost p = plan@;
                let ghost t = token@;
                self.outbox.push(Outgoing::Configuration(OutgoingRequest { plan, message_id: None, token, block2: false }));
                let ghost last = self.configuration_log.requests@.last();
                assert(last.res@.map_values(|r: Response| r.message()@) =~= Seq::<MessageView>::empty());
                assert(self@.sent =~= v.sent.push(request_message(p, t, true)));
                assert(self@.answers =~= v.answers.push(Seq::empty()));
                assert(self@.outbox =~= v.outbox.push(OutgoingView::Configuration { plan: p, message_id: None, token: t, block2: false }));
            },
            Commit::RawCommand(cmd) => {
                let ghost c = cmd@;
                self.outbox.push(Outgoing::Diagnostic(cmd));
                assert(self@.outbox =~= v.outbox.push(OutgoingView::Diagnostic(c)));
            },
            Commit::Coap(res, line, file) => {
                match res {
                    Ok(handler) => {
                        let mut handler = handler;
                        let ghost h0 = handler@;
                        let plan = handler.init();
                        let token = self.send_configuration_request(plan);
                        let ghost v1 = self@;
                        let hash = token_to_u64(token.as_slice());
                        let ghost jv = JobView { handler: Some(handler@), file: file@, cli: line@, log: Seq::empty(), finished: false, ended: false };
                        let job_id = self.job_log.start(Job::new(handler, file, line.clone()));
                        self.ongoing_jobs.insert(hash, job_id);
                        self.overall_log.add(line.as_str());
                        self.overall_log.add("\n> ");
                        assert(self@.jobs =~= v1.jobs.push(jv));
                    },
                    Err(e) => {
                        let ghost jv = JobView { handler: None, file: SaveTarget::No, cli: line@, log: e@, finished: false, ended: false };
                        self.job_log.start(Job::new_failed(line, e.as_str()));
                        self.overall_log.add(e.as_str());
                        assert(self@.jobs =~= v.jobs.push(jv));
                    },
                }
            },
            Commit::Jelly(line) => {
                let mut line = line;
                if !ends_in_newline(line.as_str()) {
                    crate::text::string_push(&mut line, '\n');
                }
                let ghost l = line@;
                self.outbox.push(Outgoing::Diagnostic(line));
                assert(self@.outbox =~= v.outbox.push(OutgoingView::Diagnostic(l)));
            },
        }
        self.user_input_manager.finish_current_input();
    }

    /// A line read from standard input: it is appended to the input; the
    /// result says whether it ends in a newline, in which case the input is
    /// to be committed (see `handle_command_commit`).
    pub fn on_msg_string(&mut self, msg: &str) -> (r: bool)
        requires
            old(self).wf(),
            old(self)@.input.cursor + byte_len(msg@) <= usize::MAX,
        ensures
            final(self).wf(),
            final(self)@ == (AppView {
                input: InputState {
                    input: old(self)@.input.input + msg@,
                    cursor: old(self)@.input.cursor + byte_len(msg@),
                    ..old(self)@.input
                },
                ..old(self)@
            }),
            r == (msg@.len() > 0 && msg@.last() == '\n'),
    {
        self.user_input_manager.insert_string(msg);
        ends_in_newline(msg)
    }

    /// A key was pressed: it edits the input line, or asks for something
    /// to be done.  Tab, and Right at the end of the input, complete it.  Enter asks for the input to be committed while the shell
    /// is connected; Esc and Ctrl-C leave; F1 to F5 choose a view, and F12
    /// opens the help as F5 does.
    pub fn on_key(&mut self, key: Key) -> (r: KeyOutcome)
        requires
            old(self).wf(),
            key matches Key::Char(_) ==> vstd::utf8::is_char_boundary(utf8(old(self)@.input.input), old(self)@.input.cursor as int)
                && old(self)@.input.cursor < usize::MAX,
            key is Backspace ==> (old(self)@.input.cursor > 0 && old(self)@.input.cursor <= byte_len(old(self)@.input.input)
                ==> vstd::utf8::is_char_boundary(utf8(old(self)@.input.input), old(self)@.input.cursor - 1)),
        ensures
            final(self).wf(),
            r == match key {
                Key::CtrlC | Key::Esc => KeyOutcome::Quit,
                Key::Enter => if old(self)@.connected {
                    KeyOutcome::Commit
                } else {
                    KeyOutcome::Continue
                },
                Key::F(1) => KeyOutcome::ShowOverview,
                Key::F(2) => KeyOutcome::ShowDiagnostic,
                Key::F(3) => KeyOutcome::ShowConfiguration,
                Key::F(4) => KeyOutcome::ShowCommands,
                Key::F(5) | Key::F(12) => KeyOutcome::ShowHelp,
                _ => KeyOutcome::Continue,
            },
            final(self)@ == (AppView { input: final(self)@.input, ..old(self)@ }),
            ({
                let s = old(self)@.input;
                let t = final(self)@.input;
                match key {
                    Key::Tab => t == InputState {
                        input: longest_common_prefix_spec(
                            s.input,
                            old(self)@.available.filter(name_starts_with(s.input)).map_values(|c: CommandView| c.cmd),
                        ),
                        cursor: byte_len(t.input),
                        ..s
                    },
                    Key::Backspace => if s.cursor > 0 && s.cursor <= byte_len(s.input) {
                        &&& utf8(t.input) == utf8(s.input).take(s.cursor - 1) + vstd::utf8::pop_first_scalar(
                            utf8(s.input).skip(s.cursor - 1),
                        )
                        &&& t.cursor == s.cursor - 1
                        &&& t.history == s.history
                        &&& t.index == s.index
                    } else {
                        t == s
                    },
                    Key::Left => t == InputState { cursor: if s.cursor > 0 { (s.cursor - 1) as nat } else { 0 }, ..s },
                    Key::Right => if s.cursor < byte_len(s.input) {
                        t == InputState { cursor: s.cursor + 1, ..s }
                    } else {
                        t == InputState {
                            input: longest_common_prefix_spec(
                                s.input,
                                old(self)@.available.filter(name_starts_with(s.input)).map_values(|c: CommandView| c.cmd),
                            ),
                            cursor: byte_len(t.input),
                            ..s
                        }
                    },
                    Key::Up => t == previous_input(s),
                    Key::Down => t == next_input(s),
                    Key::Char(c) => {
                        &&& utf8(t.input) == utf8(s.input).take(s.cursor as int) + utf8(seq![c]) + utf8(s.input).skip(s.cursor as int)
                        &&& t.cursor == s.cursor + 1
                        &&& t.history == s.history
                        &&& t.index == s.index
                    },
                    _ => t == s,
                }
            }),
    {
        match key {
            Key::CtrlC | Key::Esc => KeyOutcome::Quit,
            Key::Enter => if self.connected {
                KeyOutcome::Commit
            } else {
                KeyOutcome::Continue
            },
            Key::Tab => {
                self.user_input_manager.set_suggest_completion();
                KeyOutcome::Continue
            },
            Key::Backspace => {
                self.user_input_manager.remove_char();
                KeyOutcome::Continue
            },
            Key::Left => {
                self.user_input_manager.move_cursor_left();
                KeyOutcome::Continue
            },
            Key::Right => {
                if self.user_input_manager.cursor_position() < self.user_input_manager.user_input().len() {
                    self.user_input_manager.move_cursor_right();
                } else {
                    self.user_input_manager.set_suggest_completion();
                }
                KeyOutcome::Continue
            },
            Key::Up => {
                self.user_input_manager.set_to_previous_input();
                KeyOutcome::Continue
            },
            Key::Down => {
                self.user_input_manager.set_to_next_input();
                KeyOutcome::Continue
            },
            Key::Char(c) => {
                self.user_input_manager.insert_char(c);
                KeyOutcome::Continue
            },
            Key::F(1) => KeyOutcome::ShowOverview,
            Key::F(2) => KeyOutcome::ShowDiagnostic,
            Key::F(3) => KeyOutcome::ShowConfiguration,
            Key::F(4) => KeyOutcome::ShowCommands,
            Key::F(5) | Key::F(12) => KeyOutcome::ShowHelp,
            _ => KeyOutcome::Continue,
        }
    }

    /// The answer `payload` to `/.well-known/core` came (see `learned`).
    fn on_well_known_core(&mut self, payload: &[u8])
        requires
            old(self).wf(),
            old(self).can_send(clif_endpoints(payload@).len()),
        ensures
            final(self).wf(),
            final(self)@ == learned(old(self)@, payload@),
    {
        let ghost v = self@;
        let eps = well_known_endpoints(payload);
        let ghost ev = crate::command::commands::ifconfig::string_views(eps@);
        assert(ev.take(0) =~= Seq::<Seq<char>>::empty());
        assert(gets(Seq::<Seq<char>>::empty()) =~= Seq::<RequestView>::empty());
        assert(self@ == (AppView { available: learn(v.available, ev.take(0)).0, ..sent_all(v, gets(learn(v.available, ev.take(0)).1)) }));
        for i in 0..eps.len()
            invariant
                self.wf(),
                ev == crate::command::commands::ifconfig::string_views(eps@),
                ev == clif_endpoints(payload@),
                v.tokens_used + ev.len() <= u16::MAX,
                self@ == (AppView { available: learn(v.available, ev.take(i as int)).0, ..sent_all(v, gets(learn(v.available, ev.take(i as int)).1)) }),
        {
            let ghost before = learn(v.available, ev.take(i as int));
            proof {
                lemma_learn_len(v.available, ev.take(i as int));
                assert(ev.take(i + 1).drop_last() =~= ev.take(i as int));
                assert(ev.take(i + 1).last() == ev[i as int]);
                lemma_sent_all_tokens(v, gets(before.1));
            }
            let s = eps[i].as_str();
            assert(s@ == ev[i as int]);
            let ghost prev = self@;
            if self.user_input_manager.command_exists_by_location(s) {
                assert(learn(v.available, ev.take(i + 1)) == before);
            } else if is_shell_path(s) {
                let c1 = Command::from_location(s, "A RIOT shell command");
                assert(c1@ == shell_command(s@)) by {
                    assert(c1@.required_endpoints =~= Seq::<Seq<char>>::empty());
                }
                let c2 = Command::new_coap_get(s, "A CoAP resource describing a RIOT shell command");
                assert(c2@ == resource_command(s@, "A CoAP resource describing a RIOT shell command"@));
                self.user_input_manager.add_command(c1);
                self.user_input_manager.add_command(c2);
                let plan = RequestPlan::get(s);
                assert(plan@ == RequestPlan::get_view(s@));
                let ghost mid = self@;
                let _ = self.send_configuration_request(plan);
                assert(self@ == sent_one(mid, plan@));
                assert(gets(before.1.push(s@)).drop_last() =~= gets(before.1));
                assert(gets(before.1.push(s@)).last() == plan@);
                assert(sent_all(v, gets(before.1.push(s@))) == sent_one(sent_all(v, gets(before.1)), plan@));
                assert(learn(v.available, ev.take(i + 1)) == (
                    before.0.push(shell_command(s@)).push(resource_command(s@, "A CoAP resource describing a RIOT shell command"@)),
                    before.1.push(s@),
                ));
            } else {
                let c = Command::new_coap_get(s, "A CoAP resource");
                assert(c@ == resource_command(s@, "A CoAP resource"@));
                self.user_input_manager.add_command(c);
                assert(learn(v.available, ev.take(i + 1)) == (before.0.push(resource_command(s@, "A CoAP resource"@)), before.1));
            }
        }
        assert(ev.take(eps.len() as int) =~= ev);
        proof {
            lemma_sent_all_frame(v, gets(learn(v.available, ev).1));
        }
        self.user_input_manager.check_for_new_available_commands(eps.as_slice());
        assert(eps@.map_values(|e: String| e@) =~= ev);
    }

    /// The job the answer is for, if any, takes it (see `job_answered`).
    #[verifier::rlimit(40)]
    fn handle_pending_job(&mut self, hash: u64, response: &CoapMessage, senml_text: &str)
        requires
            old(self).wf(),
            hash == token_value(response@.token),
            job_accepts(old(self)@, response@),
            old(self).can_send(1),
        ensures
            final(self).wf(),
            final(self)@ == job_answered(old(self)@, response@, senml_text@),
    {
        let ghost v = self@;
        let found = self.ongoing_jobs.remove(&hash);
        match found {
            None => {
                assert(self.ongoing_jobs@ =~= v.ongoing);
            },
            Some(job_id) => {
                let ghost j = v.jobs[job_id as int];
                let next = self.job_log.job_handle_response(job_id, response, senml_text);
                let ghost n = step(j.handler->0, response@, senml_text@).1;
                let ghost j1 = JobView { handler: Some(n), ..j };
                assert(self.job_log.jobs@[job_id as int]@ == j1);
                if self.job_log.job_wants_display(job_id) {
                    let out = self.job_log.job_output(job_id);
                    match out {
                        JobOutput::Show => {
                            let text = self.job_log.job_display(job_id, None);
                            self.overall_log.add(text.as_str());
                        },
                        other => {
                            self.outbox.push(Outgoing::WriteJobOutput(job_id, other));
                        },
                    }
                }
                let ghost shown = self@;
                let mut key = hash;
                match next {
                    Some(plan) => {
                        let token = self.send_configuration_request(plan);
                        key = token_to_u64(token.as_slice());
                    },
                    None => {},
                }
                if self.job_log.job_is_finished(job_id) {
                    self.job_log.job_finish(job_id);
                } else {
                    self.ongoing_jobs.insert(key, job_id);
                }
                assert(self@.jobs =~= job_answered(v, response@, senml_text@).jobs);
                assert(self@.outbox =~= job_answered(v, response@, senml_text@).outbox);
                assert(self@.ongoing =~= job_answered(v, response@, senml_text@).ongoing);
            },
        }
    }

    /// The answer `response` is logged (see `logged_answer`).
    fn log_answer(&mut self, hash: u64, response: CoapMessage)
        requires
            old(self).wf(),
            hash == token_value(response@.token),
            old(self).can_send(clif_endpoints(response@.payload).len()),
        ensures
            final(self).wf(),
            final(self)@ == logged_answer(old(self)@, response@),
    {
        let ghost v = self@;
        let ghost m = response@;
        let ghost reqs = self.configuration_log.requests@;
        proof {
            crate::seqs::lemma_first_index_same(
                v.sent,
                tracked_by(hash),
                reqs,
                crate::datatypes::coap_log::has_token(hash),
            );
        }
        let ghost i = first_index(v.sent, tracked_by(hash));
        let payload = response.payload.clone();
        let idx = self.configuration_log.index_by_token(hash);
        let path: Option<Option<String>> = if idx < self.configuration_log.requests.len() {
            let mut q = self.configuration_log.requests.remove(idx);
            let p = match &q.req.uri_path {
                Some(_) => Some(crate::datatypes::coap_log::path_string(&q.req.uri_path)),
                None => None,
            };
            let ghost q0 = q;
            q.add_response(response);
            assert(q.res@.map_values(|r: Response| r.message()@) =~= q0.res@.map_values(|r: Response| r.message()@).push(m));
            self.configuration_log.requests.insert(idx, q);
            assert(self.configuration_log.requests@ =~= reqs.update(idx as int, q));
            assert(self@.answers =~= v.answers.update(i, v.answers[i].push(m)));
            assert(self@.sent =~= v.sent);
            Some(p)
        } else {
            self.configuration_packets.push(response);
            assert(self@.unmatched =~= v.unmatched.push(m));
            None
        };
        match path {
            Some(Some(p)) => {
                let text = string_from_utf8_lossy(payload.as_slice());
                if same_text(p.as_str(), "/jelly/board") {
                    self.board_name = Some(text);
                } else if same_text(p.as_str(), "/jelly/ver") {
                    self.board_version = Some(text);
                } else if same_text(p.as_str(), "/.well-known/core") {
                    self.on_well_known_core(payload.as_slice());
                } else if is_shell_path(p.as_str()) {
                    self.user_input_manager.update_command_description_by_location(p.as_str(), text.as_str());
                    let chars = chars_of(p.as_str());
                    let name = crate::text::string_from_range(chars.as_slice(), 7, chars.len());
                    assert(name@ == strip_shell_prefix(p@));
                    self.user_input_manager.update_command_description_by_name(name.as_str(), text.as_str());
                }
            },
            _ => {},
        }
    }

    /// A configuration message came (see `answered`): the job it answers,
    /// if any, takes it (`senml_text` is how its payload reads as SenML),
    /// then it is logged with the request it answers.
    pub fn on_configuration_msg(&mut self, response: CoapMessage, senml_text: &str)
        requires
            old(self).wf(),
            job_accepts(old(self)@, response@),
            old(self).can_send(1 + clif_endpoints(response@.payload).len()),
        ensures
            final(self).wf(),
            final(self)@ == answered(old(self)@, response@, senml_text@),
    {
        let hash = token_to_u64(response.token.as_slice());
        self.handle_pending_job(hash, &response, senml_text);
        self.log_answer(hash, response);
    }

    /// Whether the message can be taken (see `on_configuration_msg`): the
    /// job it answers, if any, takes it, and tokens are left for the
    /// requests it may cause.
    pub fn accepts_response(&self, response: &CoapMessage) -> (r: bool)
        requires
            self.wf(),
        ensures
            r == (job_accepts(self@, response@) && self.can_send(1 + clif_endpoints(response@.payload).len())),
    {
        let hash = token_to_u64(response.token.as_slice());
        let job_ok = match self.ongoing_jobs.get(&hash) {
            Some(id) => self.job_log.job_accepts(*id, response),
            None => true,
        };
        let n = well_known_endpoints(response.payload.as_slice()).len();
        let room = n < 65535 && (self.token_count as usize) + 1 + n <= 65535;
        job_ok && room
    }

    /// A job's output was written outside (`error` says why not, if it
    /// failed): what the job shows is shown (see `JobLog::job_display`).
    /// Nothing happens for a job number never given out.
    pub fn job_output_written(&mut self, job_id: JobId, error: Option<String>)
        requires
            old(self).wf(),
        ensures
            final(self).wf(),
            job_id < old(self)@.jobs.len() ==> ({
                let j = old(self)@.jobs[job_id as int];
                let e = text_view(error);
                match j.handler {
                    Some(h) => final(self)@ == AppView {
                        jobs: old(self)@.jobs.update(job_id as int, JobView { log: j.log + shown_text(h, j.file, e), ..j }),
                        overall: append_message_lines(old(self)@.overall, shown_text(h, j.file, e)),
                        ..old(self)@
                    },
                    None => final(self)@ == AppView { overall: append_message_lines(old(self)@.overall, j.log), ..old(self)@ },
                }
            }),
            job_id >= old(self)@.jobs.len() ==> final(self)@ == old(self)@,
    {
        if job_id < self.job_log.jobs.len() {
            let ghost v = self@;
            let text = self.job_log.job_display(job_id, error);
            self.overall_log.add(text.as_str());
            assert(self@.jobs =~= v.jobs.update(job_id as int, self.job_log.jobs@[job_id as int]@));
            proof {
                if v.jobs[job_id as int].handler is None {
                    assert(self@.jobs =~= v.jobs);
                }
            }
        }
    }

    /// Whether the shell is connected.
    pub fn is_connected(&self) -> (r: bool)
        ensures
            r == self@.connected,
    {
        self.connected
    }

    /// The path of the device connected to, the board's name and its
    /// version, as far as they are known.
    pub fn device_info(&self) -> (r: (Option<&str>, Option<&str>, Option<&str>))
        ensures
            match r.0 {
                Some(s) => self@.device == Some(s@),
                None => self@.device is None,
            },
            match r.1 {
                Some(s) => self@.board == Some(s@),
                None => self@.board is None,
            },
            match r.2 {
                Some(s) => self@.version == Some(s@),
                None => self@.version is None,
            },
    {
        let d = match &self.device_path {
            Some(s) => Some(s.as_str()),
            None => None,
        };
        let b = match &self.board_name {
            Some(s) => Some(s.as_str()),
            None => None,
        };
        let v = match &self.board_version {
            Some(s) => Some(s.as_str()),
            None => None,
        };
        (d, b, v)
    }

    /// The diagnostic log and the log of everything shown.
    pub fn logs(&self) -> (r: (&DiagnosticLog, &DiagnosticLog))
        ensures
            r.0.lines_view() == self@.diagnostic,
            r.1.lines_view() == self@.overall,
    {
        (&self.diagnostic_log, &self.overall_log)
    }

    /// The requests sent, with the responses to each.
    pub fn configuration_log(&self) -> (r: &CoapLog)
        ensures
            r.requests@.map_values(|q: Request| q.req@) == self@.sent,
    {
        &self.configuration_log
    }

    /// The jobs started.
    pub fn job_log(&self) -> (r: &JobLog)
        ensures
            r.jobs@.map_values(|j: Job| j@) == self@.jobs,
    {
        &self.job_log
    }

    /// The input line and the commands it can name.
    pub fn user_input_manager(&self) -> (r: &UserInputManager)
        ensures
            r.state() == self@.input,
            r.commands().available() == self@.available,
            r.commands().stored() == self@.stored,
    {
        &self.user_input_manager
    }
}

} // verus!
