//! The order in which the library keeps its available commands.

use vstd::prelude::*;

use super::command_before;
use super::help_name;
use super::is_path_name;
use super::library::insert_sorted;
use super::library::lemma_insert_sorted_at;
use super::library::sorted_commands;
use super::CommandView;
use crate::seqs::first_index;
use crate::seqs::lemma_first_index_bounds;
use crate::text::lemma_lex_lt_total;
use crate::text::lemma_lex_lt_transitive;

verus! {

/// Whether no command of `s` sorts strictly before one that comes earlier.
pub open spec fn is_sorted_commands(s: Seq<CommandView>) -> bool {
    forall|i: int, j: int| 0 <= i < j < s.len() ==> !command_before(#[trigger] s[j], #[trigger] s[i])
}

/// Whether at most one command of `s` is named `help`.
pub open spec fn at_most_one_help(s: Seq<CommandView>) -> bool {
    forall|i: int, j: int|
        0 <= i < j < s.len() ==> !((#[trigger] s[i]).cmd == help_name() && (#[trigger] s[j]).cmd
            == help_name())
}

proof fn lemma_before_transitive(a: CommandView, b: CommandView, c: CommandView)
    requires
        command_before(a, b),
        command_before(b, c),
    ensures
        command_before(a, c),
{
    if a.cmd != help_name() && b.cmd != help_name() && c.cmd != help_name() && is_path_name(a.cmd)
        == is_path_name(b.cmd) && is_path_name(b.cmd) == is_path_name(c.cmd) && is_path_name(
        a.cmd,
    ) {
        lemma_lex_lt_transitive(a.cmd, b.cmd, c.cmd);
    }
}

proof fn lemma_before_asymmetric(a: CommandView, b: CommandView)
    requires
        !(a.cmd == help_name() && b.cmd == help_name()),
    ensures
        !(command_before(a, b) && command_before(b, a)),
{
    lemma_lex_lt_total(a.cmd, b.cmd);
}

proof fn lemma_insert_keeps_sorted(s: Seq<CommandView>, x: CommandView)
    requires
        is_sorted_commands(s),
        at_most_one_help(s),
        x.cmd == help_name() ==> forall|i: int| 0 <= i < s.len() ==> (#[trigger] s[i]).cmd
            != help_name(),
    ensures
        is_sorted_commands(insert_sorted(s, x)),
        insert_sorted(s, x).to_multiset() == s.to_multiset().insert(x),
        at_most_one_help(insert_sorted(s, x)),
{
    let p = first_index(s, |y: CommandView| command_before(x, y));
    lemma_first_index_bounds(s, |y: CommandView| command_before(x, y));
    lemma_insert_sorted_at(s, x, p);
    let r = s.insert(p, x);
    vstd::seq_lib::to_multiset_insert(s, p, x);
    assert forall|i: int, j: int| 0 <= i < j < r.len() implies !command_before(
        #[trigger] r[j],
        #[trigger] r[i],
    ) by {
        if j < p {
            assert(r[i] == s[i] && r[j] == s[j]);
        } else if j == p {
            assert(r[i] == s[i]);
            assert(!command_before(x, s[i]));
        } else if i > p {
            assert(r[i] == s[i - 1] && r[j] == s[j - 1]);
        } else if i == p {
            assert(r[j] == s[j - 1]);
            assert(command_before(x, s[p]));
            if command_before(s[j - 1], x) {
                if j - 1 > p {
                    lemma_before_transitive(s[j - 1], x, s[p]);
                } else {
                    lemma_before_asymmetric(s[p], x);
                }
            }
        } else {
            assert(r[i] == s[i] && r[j] == s[j - 1]);
            assert(!command_before(x, s[i]));
            if command_before(s[j - 1], s[i]) {
                assert(i < j - 1);
            }
        }
    }
    assert forall|i: int, j: int| 0 <= i < j < r.len() implies !((#[trigger] r[i]).cmd
        == help_name() && (#[trigger] r[j]).cmd == help_name()) by {
        if j < p {
            assert(r[i] == s[i] && r[j] == s[j]);
        } else if j == p {
            assert(r[i] == s[i]);
        } else if i > p {
            assert(r[i] == s[i - 1] && r[j] == s[j - 1]);
        } else if i == p {
            assert(r[j] == s[j - 1]);
        } else {
            assert(r[i] == s[i] && r[j] == s[j - 1]);
        }
    }
}

/// Sorting the commands keeps every command, each as often as before, and,
/// when at most one of them is named `help`, leaves no command behind one it
/// sorts strictly before.
pub proof fn law_sorted_commands(s: Seq<CommandView>)
    requires
        at_most_one_help(s),
    ensures
        sorted_commands(s).to_multiset() == s.to_multiset(),
        is_sorted_commands(sorted_commands(s)),
        at_most_one_help(sorted_commands(s)),
    decreases s.len(),
{
    if s.len() == 0 {
        return ;
    }
    let t = s.drop_last();
    let x = s.last();
    assert(at_most_one_help(t)) by {
        assert forall|i: int, j: int| 0 <= i < j < t.len() implies !((#[trigger] t[i]).cmd
            == help_name() && (#[trigger] t[j]).cmd == help_name()) by {
            assert(t[i] == s[i] && t[j] == s[j]);
        }
    }
    law_sorted_commands(t);
    let r = sorted_commands(t);
    assert(x.cmd == help_name() ==> forall|i: int| 0 <= i < r.len() ==> (#[trigger] r[i]).cmd
        != help_name()) by {
        if x.cmd == help_name() {
            assert forall|i: int| 0 <= i < r.len() implies (#[trigger] r[i]).cmd
                != help_name() by {
                if r[i].cmd == help_name() {
                    vstd::seq_lib::to_multiset_contains(r, r[i]);
                    assert(r.contains(r[i]));
                    vstd::seq_lib::to_multiset_contains(t, r[i]);
                    let k = choose|k: int| 0 <= k < t.len() && t[k] == r[i];
                    assert(s[k] == t[k]);
                    assert(s[s.len() - 1] == x);
                }
            }
        }
    }
    lemma_insert_keeps_sorted(r, x);
    assert(s == t.push(x));
    vstd::seq_lib::to_multiset_build(t, x);
}

/// A sorted list in which `help` appears has it first.
pub proof fn law_help_first(s: Seq<CommandView>)
    requires
        is_sorted_commands(s),
        exists|i: int| 0 <= i < s.len() && (#[trigger] s[i]).cmd == help_name(),
    ensures
        s[0].cmd == help_name(),
{
    let i = choose|i: int| 0 <= i < s.len() && (#[trigger] s[i]).cmd == help_name();
    if i > 0 {
        assert(!command_before(s[i], s[0]));
    }
}

} // verus!

verus! {

proof fn lemma_filter_partition(s: Seq<CommandView>, p: spec_fn(CommandView) -> bool, q: spec_fn(CommandView) -> bool)
    requires
        forall|c: CommandView| #[trigger] q(c) == !p(c),
    ensures
        s.filter(p).to_multiset().add(s.filter(q).to_multiset()) == s.to_multiset(),
    decreases s.len(),
{
    reveal(Seq::filter);
    if s.len() > 0 {
        let t = s.drop_last();
        lemma_filter_partition(t, p, q);
        assert(s == t.push(s.last()));
        vstd::seq_lib::to_multiset_build(t, s.last());
        if p(s.last()) {
            vstd::seq_lib::to_multiset_build(t.filter(p), s.last());
            assert(s.filter(p) == t.filter(p).push(s.last()));
            assert(s.filter(q) == t.filter(q));
            assert(s.filter(p).to_multiset().add(s.filter(q).to_multiset()) =~= t.to_multiset().insert(s.last()));
        } else {
            vstd::seq_lib::to_multiset_build(t.filter(q), s.last());
            assert(s.filter(q) == t.filter(q).push(s.last()));
            assert(s.filter(p) == t.filter(p));
            assert(s.filter(p).to_multiset().add(s.filter(q).to_multiset()) =~= t.to_multiset().insert(s.last()));
        }
    } else {
        assert(s.filter(p).len() == 0 && s.filter(q).len() == 0);
        vstd::seq_lib::to_multiset_len(s);
        vstd::seq_lib::to_multiset_len(s.filter(p));
        vstd::seq_lib::to_multiset_len(s.filter(q));
        assert(s.filter(p).to_multiset().add(s.filter(q).to_multiset()) =~= s.to_multiset());
    }
}

/// Taking in the device's end-points loses no command and duplicates none:
/// the available and the stored commands afterwards are, together, those
/// before.  When at most one of them is named `help`, the available commands
/// end up sorted, with `help` first if it is available.
pub proof fn law_update_keeps_commands(
    available: Seq<CommandView>,
    stored: Seq<CommandView>,
    eps: Seq<Seq<char>>,
)
    requires
        at_most_one_help(available + stored.filter(super::library::endpoints_met(eps))),
    ensures
        sorted_commands(available + stored.filter(super::library::endpoints_met(eps))).to_multiset().add(
            stored.filter(super::library::endpoints_missing(eps)).to_multiset(),
        ) == (available + stored).to_multiset(),
        is_sorted_commands(sorted_commands(available + stored.filter(super::library::endpoints_met(eps)))),
{
    let met = stored.filter(super::library::endpoints_met(eps));
    let missing = stored.filter(super::library::endpoints_missing(eps));
    law_sorted_commands(available + met);
    lemma_filter_partition(
        stored,
        super::library::endpoints_met(eps),
        super::library::endpoints_missing(eps),
    );
    vstd::seq_lib::lemma_multiset_commutative(available, met);
    vstd::seq_lib::lemma_multiset_commutative(available, stored);
    assert((available + met).to_multiset().add(missing.to_multiset()) == (
    available + stored).to_multiset()) by {
        assert((available + met).to_multiset() == available.to_multiset().add(met.to_multiset()));
        assert((available + stored).to_multiset() == available.to_multiset().add(
            stored.to_multiset(),
        ));
        assert(available.to_multiset().add(met.to_multiset()).add(missing.to_multiset()) =~= available.to_multiset().add(met.to_multiset().add(missing.to_multiset())));
    }
}

} // verus!
