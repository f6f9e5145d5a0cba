//! The line the user is typing: cursor movement, editing, history and
//! completion.

use vstd::prelude::*;

use crate::seqs::lemma_take_contains;
use crate::text::byte_len;
use crate::text::chars_equal;
use crate::text::chars_lt;
use crate::text::chars_of;
use crate::text::lemma_lex_lt_total;
use crate::text::lemma_lex_lt_transitive;
use crate::text::lex_lt;
use crate::text::longest_common_prefix;
use crate::text::longest_common_prefix_spec;
use crate::text::starts_with_chars;
use crate::text::string_insert;
use crate::text::string_push_str;
use crate::text::string_remove;
use crate::text::trim_end;
use crate::text::trim_end_chars;
use crate::text::utf8;

verus! {

/// The input line, its history and the cursor, as values.
pub struct InputState {
    /// What the user has typed.
    pub input: Seq<char>,
    /// Earlier inputs, oldest first.
    pub history: Seq<Seq<char>>,
    /// The position in the history the user has scrolled to; the history's
    /// length when not scrolled back.
    pub index: nat,
    /// The cursor, as a byte offset into the input.
    pub cursor: nat,
}

/// The state after scrolling one entry back in the history.
pub open spec fn previous_input(s: InputState) -> InputState {
    if s.index > 0 {
        let i = (s.index - 1) as nat;
        InputState { input: s.history[i as int], index: i, cursor: byte_len(s.history[i as int]), ..s }
    } else {
        s
    }
}

/// The state after scrolling one entry forward in the history; past the
/// newest entry the input is empty.
pub open spec fn next_input(s: InputState) -> InputState {
    if s.index < s.history.len() {
        let i = s.index + 1;
        if i == s.history.len() {
            InputState { input: Seq::empty(), index: i, cursor: 0, ..s }
        } else {
            InputState { input: s.history[i as int], index: i, cursor: byte_len(s.history[i as int]), ..s }
        }
    } else {
        s
    }
}

/// The state after the user committed the input: a non-empty input is
/// stored in the history, without trailing whitespace, unless it equals the
/// newest entry, and the input is cleared; the history is no longer
/// scrolled.
pub open spec fn finish_input(s: InputState) -> InputState {
    if s.input.len() > 0 {
        let repeat = s.history.len() > 0 && s.history.last() == trim_end(s.input);
        let h = if repeat {
            s.history
        } else {
            s.history.push(trim_end(s.input))
        };
        InputState { input: Seq::empty(), history: h, index: h.len(), cursor: 0 }
    } else {
        InputState { index: s.history.len(), ..s }
    }
}

/// Whether every entry of `s` comes strictly before the later ones.
pub open spec fn is_strictly_sorted(s: Seq<Seq<char>>) -> bool {
    forall|i: int, j: int| 0 <= i < j < s.len() ==> lex_lt(#[trigger] s[i], #[trigger] s[j])
}

/// Whether `c` is a completion of `prefix`: it starts with it and is longer.
pub open spec fn completes(prefix: Seq<char>, c: Seq<char>) -> bool {
    prefix.is_prefix_of(c) && c != prefix
}

/// The completions of `prefix` found in `history` and `library`, each once,
/// in lexicographic order.
pub open spec fn is_suggestion_list(
    r: Seq<Seq<char>>,
    prefix: Seq<char>,
    history: Seq<Seq<char>>,
    library: Seq<Seq<char>>,
) -> bool {
    &&& is_strictly_sorted(r)
    &&& forall|c: Seq<char>|
        #![trigger r.contains(c)]
        r.contains(c) <==> ((history.contains(c) || library.contains(c)) && completes(prefix, c))
}

/// The views of a list of string references.
pub open spec fn ref_views(s: Seq<&String>) -> Seq<Seq<char>> {
    s.map_values(|x: &String| x@)
}

/// Puts `x` into the strictly sorted `out` unless it is there already.
fn insert_candidate<'a>(out: &mut Vec<&'a String>, x: &'a String)
    requires
        is_strictly_sorted(ref_views(old(out)@)),
    ensures
        is_strictly_sorted(ref_views(final(out)@)),
        forall|c: Seq<char>|
            #![trigger ref_views(final(out)@).contains(c)]
            ref_views(final(out)@).contains(c) <==> (ref_views(old(out)@).contains(c) || c == x@),
{
    let xc = chars_of(x.as_str());
    let ghost v = ref_views(out@);
    let mut p: usize = 0;
    while p < out.len() && chars_lt(chars_of(out[p].as_str()).as_slice(), xc.as_slice())
        invariant
            p <= out@.len(),
            v == ref_views(out@),
            xc@ == x@,
            forall|j: int| 0 <= j < p ==> lex_lt(#[trigger] v[j], x@),
        decreases out@.len() - p,
    {
        p = p + 1;
    }
    if p < out.len() && chars_equal(chars_of(out[p].as_str()).as_slice(), xc.as_slice()) {
        assert(v.contains(x@)) by {
            assert(v[p as int] == x@);
        }
        return;
    }
    proof {
        if p < v.len() {
            lemma_lex_lt_total(v[p as int], x@);
        }
    }
    out.insert(p, x);
    let ghost w = ref_views(out@);
    assert(w =~= v.insert(p as int, x@));
    assert forall|i: int, j: int| 0 <= i < j < w.len() implies lex_lt(#[trigger] w[i], #[trigger] w[j]) by {
        if j < p {
        } else if j == p {
            assert(w[i] == v[i]);
        } else if i > p {
            assert(w[i] == v[i - 1] && w[j] == v[j - 1]);
        } else if i == p {
            assert(w[j] == v[j - 1]);
            if j - 1 > p {
                lemma_lex_lt_transitive(x@, v[p as int], v[j - 1]);
            }
        } else {
            assert(w[i] == v[i] && w[j] == v[j - 1]);
        }
    }
    assert forall|c: Seq<char>| #![trigger w.contains(c)] w.contains(c) <==> (v.contains(c) || c == x@) by {
        if w.contains(c) {
            let k = choose|k: int| 0 <= k < w.len() && w[k] == c;
            if k < p {
                assert(v[k] == c);
            } else if k > p {
                assert(v[k - 1] == c);
            }
        }
        if v.contains(c) {
            let k = choose|k: int| 0 <= k < v.len() && v[k] == c;
            if k < p {
                assert(w[k] == c);
            } else {
                assert(w[k + 1] == c);
            }
        }
        if c == x@ {
            assert(w[p as int] == c);
        }
    }
}

/// The line the user is typing, with its history.
pub struct UserInputManager {
    pub user_input: String,
    user_command_history: Vec<String>,
    user_command_history_index: usize,
    pub cursor_position: usize,
}

impl View for UserInputManager {
    type V = InputState;

    closed spec fn view(&self) -> InputState {
        InputState {
            input: self.user_input@,
            history: self.user_command_history@.map_values(|h: String| h@),
            index: self.user_command_history_index as nat,
            cursor: self.cursor_position as nat,
        }
    }
}

impl UserInputManager {
    /// The history position never lies beyond the history.
    pub open spec fn wf(&self) -> bool {
        self@.index <= self@.history.len()
    }

    /// An empty input line with an empty history.
    pub fn new() -> (r: Self)
        ensures
            r.wf(),
            r@.input.len() == 0,
            r@.history.len() == 0,
            r@.index == 0,
            r@.cursor == 0,
    {
        let r = Self {
            user_input: String::new(),
            user_command_history: Vec::new(),
            user_command_history_index: 0,
            cursor_position: 0,
        };
        assert(r@.history =~= Seq::<Seq<char>>::empty());
        r
    }

    /// Appends `string` to the input and moves the cursor on by its length
    /// in bytes.
    pub fn insert_string(&mut self, string: &str)
        requires
            old(self)@.cursor + byte_len(string@) <= usize::MAX,
        ensures
            final(self)@ == (InputState {
                input: old(self)@.input + string@,
                cursor: old(self)@.cursor + byte_len(string@),
                ..old(self)@
            }),
    {
        string_push_str(&mut self.user_input, string);
        self.cursor_position = self.cursor_position + string.len();
    }

    /// Inserts `chr` at the cursor, which must lie on a character boundary,
    /// and moves the cursor one byte on.
    pub fn insert_char(&mut self, chr: char)
        requires
            vstd::utf8::is_char_boundary(utf8(old(self)@.input), old(self)@.cursor as int),
            old(self)@.cursor < usize::MAX,
        ensures
            utf8(final(self)@.input) == utf8(old(self)@.input).take(old(self)@.cursor as int) + utf8(seq![chr])
                + utf8(old(self)@.input).skip(old(self)@.cursor as int),
            final(self)@.cursor == old(self)@.cursor + 1,
            final(self)@.history == old(self)@.history,
            final(self)@.index == old(self)@.index,
    {
        string_insert(&mut self.user_input, self.cursor_position, chr);
        self.cursor_position = self.cursor_position + 1;
    }

    /// Deletes the character before the cursor, when the cursor is inside the
    /// input and not at its start; the byte before the cursor must then start
    /// a character.
    pub fn remove_char(&mut self)
        requires
            old(self)@.cursor > 0 && old(self)@.cursor <= byte_len(old(self)@.input) ==> vstd::utf8::is_char_boundary(
                utf8(old(self)@.input),
                old(self)@.cursor - 1,
            ),
        ensures
            ({
                let c = old(self)@.cursor;
                let b = utf8(old(self)@.input);
                if c > 0 && c <= byte_len(old(self)@.input) {
                    &&& utf8(final(self)@.input) == b.take(c - 1) + vstd::utf8::pop_first_scalar(b.skip(c - 1))
                    &&& final(self)@.cursor == c - 1
                    &&& final(self)@.history == old(self)@.history
                    &&& final(self)@.index == old(self)@.index
                } else {
                    final(self)@ == old(self)@
                }
            }),
    {
        if self.cursor_position > 0 && self.cursor_position <= self.user_input.as_str().len() {
            self.cursor_position = self.cursor_position - 1;
            let _ = string_remove(&mut self.user_input, self.cursor_position);
        }
    }

    /// Moves the cursor one byte back, unless it is at the start.
    pub fn move_cursor_left(&mut self)
        ensures
            final(self)@ == (InputState {
                cursor: if old(self)@.cursor > 0 { (old(self)@.cursor - 1) as nat } else { 0 },
                ..old(self)@
            }),
    {
        self.cursor_position = self.cursor_position.saturating_sub(1);
    }

    /// Moves the cursor one byte on, unless it is at the end of the input.
    pub fn move_cursor_right(&mut self)
        ensures
            final(self)@ == (InputState {
                cursor: if old(self)@.cursor < byte_len(old(self)@.input) { old(self)@.cursor + 1 } else { old(self)@.cursor },
                ..old(self)@
            }),
    {
        if self.cursor_position < self.user_input.as_str().len() {
            self.cursor_position = self.cursor_position + 1;
        }
    }

    /// Takes a prefix and a list of strings and computes the longest common
    /// prefix, see `longest_common_prefix_spec`: if `F` matches `FooBar`,
    /// `FooBaz` and `FooBizz`, it is `FooB`; with no string it is `prefix`.
    fn longest_common_prefix(prefix: &str, cmds: &[&String]) -> (r: String)
        ensures
            r@ == longest_common_prefix_spec(prefix@, cmds@.map_values(|s: &String| s@)),
    {
        longest_common_prefix(prefix, cmds)
    }

    /// The completions of the input found in the history and in
    /// `command_library`, sorted and each once, and the input prolonged for as
    /// long as they all agree.
    pub fn suggestion<'a>(&'a self, command_library: &'a [&String]) -> (r: (String, Vec<&'a String>))
        ensures
            is_suggestion_list(ref_views(r.1@), self@.input, self@.history, ref_views(command_library@)),
            r.0@ == longest_common_prefix_spec(self@.input, ref_views(r.1@)),
    {
        let prefix = chars_of(self.user_input.as_str());
        let ghost hist = self@.history;
        let ghost lib = ref_views(command_library@);
        let mut out: Vec<&'a String> = Vec::new();
        for i in 0..self.user_command_history.len()
            invariant
                prefix@ == self@.input,
                hist == self@.history,
                is_strictly_sorted(ref_views(out@)),
                forall|c: Seq<char>|
                    #![trigger ref_views(out@).contains(c)]
                    ref_views(out@).contains(c) <==> (hist.take(i as int).contains(c) && completes(prefix@, c)),
        {
            let cand = &self.user_command_history[i];
            let cc = chars_of(cand.as_str());
            assert(hist[i as int] == cc@);
            if starts_with_chars(cc.as_slice(), prefix.as_slice()) && !chars_equal(cc.as_slice(), prefix.as_slice()) {
                insert_candidate(&mut out, cand);
            }
            proof {
                lemma_take_contains(hist, i as int);
            }
        }
        assert(hist.take(hist.len() as int) == hist);
        for i in 0..command_library.len()
            invariant
                prefix@ == self@.input,
                hist == self@.history,
                lib == ref_views(command_library@),
                is_strictly_sorted(ref_views(out@)),
                forall|c: Seq<char>|
                    #![trigger ref_views(out@).contains(c)]
                    ref_views(out@).contains(c) <==> ((hist.contains(c) || lib.take(i as int).contains(c)) && completes(prefix@, c)),
        {
            let cand = command_library[i];
            let cc = chars_of(cand.as_str());
            assert(lib[i as int] == cc@);
            if starts_with_chars(cc.as_slice(), prefix.as_slice()) && !chars_equal(cc.as_slice(), prefix.as_slice()) {
                insert_candidate(&mut out, cand);
            }
            proof {
                lemma_take_contains(lib, i as int);
            }
        }
        assert(lib.take(lib.len() as int) == lib);
        let common_prefix = Self::longest_common_prefix(self.user_input.as_str(), out.as_slice());
        (common_prefix, out)
    }

    /// Replaces the input by the completion that `suggestion` computes and
    /// puts the cursor at its end.
    pub fn set_suggest_completion(&mut self, command_library: &[&String])
        requires
            old(self).wf(),
        ensures
            final(self).wf(),
            exists|r: Seq<Seq<char>>|
                is_suggestion_list(r, old(self)@.input, old(self)@.history, ref_views(command_library@))
                    && final(self)@.input == longest_common_prefix_spec(old(self)@.input, r),
            final(self)@.cursor == byte_len(final(self)@.input),
            final(self)@.history == old(self)@.history,
            final(self)@.index == old(self)@.index,
    {
        let (suggestion, list) = self.suggestion(command_library);
        let ghost r = ref_views(list@);
        self.user_input = suggestion;
        self.cursor_position = self.user_input.as_str().len();
    }

    /// Scrolls one entry back in the history, putting it into the input.
    pub fn set_to_previous_input(&mut self)
        requires
            old(self).wf(),
        ensures
            final(self).wf(),
            final(self)@ == previous_input(old(self)@),
    {
        if self.user_command_history_index > 0 {
            self.user_command_history_index = self.user_command_history_index - 1;
            self.user_input = self.user_command_history[self.user_command_history_index].clone();
            self.cursor_position = self.user_input.as_str().len();
        }
    }

    /// Scrolls one entry forward in the history; past the newest entry the
    /// input is cleared.
    pub fn set_to_next_input(&mut self)
        requires
            old(self).wf(),
        ensures
            final(self).wf(),
            final(self)@ == next_input(old(self)@),
    {
        if self.user_command_history_index < self.user_command_history.len() {
            self.user_command_history_index = self.user_command_history_index + 1;
            if self.user_command_history_index == self.user_command_history.len() {
                self.user_input = String::new();
                self.cursor_position = 0;
            } else {
                self.user_input = self.user_command_history[self.user_command_history_index].clone();
                self.cursor_position = self.user_input.as_str().len();
            }
        }
    }

    /// Commits the input: stores it in the history (see `finish_input`) and
    /// clears it.
    pub fn finish_current_input(&mut self)
        requires
            old(self).wf(),
        ensures
            final(self).wf(),
            final(self)@ == finish_input(old(self)@),
    {
        let input = chars_of(self.user_input.as_str());
        if input.len() > 0 {
            let n = self.user_command_history.len();
            let trimmed = trim_end_chars(input.as_slice());
            let mut last_equals_current = false;
            if n > 0 {
                let last = chars_of(self.user_command_history[n - 1].as_str());
                last_equals_current = chars_equal(last.as_slice(), trimmed.as_slice());
            }
            if !last_equals_current {
                let ghost h = self@.history;
                self.user_command_history.push(crate::text::string_from_chars(trimmed.as_slice()));
                assert(self@.history =~= h.push(trim_end(input@)));
            }
            self.user_input = String::new();
            self.cursor_position = 0;
        }
        self.user_command_history_index = self.user_command_history.len();
    }

    /// The text typed so far.
    pub fn input_str(&self) -> (r: &str)
        ensures
            r@ == self@.input,
    {
        self.user_input.as_str()
    }

    /// The cursor, as a byte offset into the input.
    pub fn cursor(&self) -> (r: usize)
        ensures
            r == self@.cursor,
    {
        self.cursor_position
    }

    /// Replaces the input by `text` and puts the cursor at its end.
    pub fn replace_input(&mut self, text: String)
        ensures
            final(self)@ == (InputState { input: text@, cursor: byte_len(text@), ..old(self)@ }),
    {
        self.user_input = text;
        self.cursor_position = self.user_input.as_str().len();
    }

    /// Whether nothing is typed.
    pub fn input_empty(&self) -> (r: bool)
        ensures
            r == (self@.input.len() == 0),
    {
        self.user_input.as_str().is_empty()
    }

    /// The entries of the history, oldest first.
    pub fn history(&self) -> (r: &[String])
        ensures
            r@.map_values(|h: String| h@) == self@.history,
    {
        self.user_command_history.as_slice()
    }
}

} // verus!

verus! {

/// Scrolling back and then forward again returns to where the user was:
/// the same history position, showing that entry, or an empty input past
/// the newest entry.
pub proof fn law_previous_then_next(s: InputState)
    requires
        s.index <= s.history.len(),
        s.index > 0,
    ensures
        next_input(previous_input(s)).index == s.index,
        next_input(previous_input(s)).history == s.history,
        next_input(previous_input(s)).input == if s.index < s.history.len() {
            s.history[s.index as int]
        } else {
            Seq::<char>::empty()
        },
{
}

/// After a non-empty input is committed, scrolling back once recalls it,
/// without its trailing whitespace, with the cursor at its end; it is the
/// newest history entry, stored once: a command equal to the newest entry
/// once trailing whitespace is dropped leaves the history as it was.
pub proof fn law_committed_input_is_recalled(s: InputState)
    requires
        s.input.len() > 0,
    ensures
        previous_input(finish_input(s)).input == trim_end(s.input),
        previous_input(finish_input(s)).cursor == byte_len(trim_end(s.input)),
        finish_input(s).history.last() == trim_end(s.input),
        s.history.len() > 0 && s.history.last() == trim_end(s.input) ==> finish_input(s).history == s.history,
        !(s.history.len() > 0 && s.history.last() == trim_end(s.input)) ==> finish_input(s).history.len()
            == s.history.len() + 1,
{
}

/// Committing leaves the history unscrolled, and clears a non-empty input.
pub proof fn law_commit_clears_input(s: InputState)
    ensures
        finish_input(s).index == finish_input(s).history.len(),
        s.input.len() > 0 ==> finish_input(s).input.len() == 0 && finish_input(s).cursor == 0,
{
}

} // verus!
