//! The command library: known commands and the ones available on the device.

use vstd::prelude::*;

use super::command_before;
use super::Command;
use super::CommandView;
use crate::seqs::first_index;
use crate::seqs::lemma_first_index;
use crate::text::chars_equal;
use crate::text::chars_of;
use crate::text::longest_common_prefix;
use crate::text::longest_common_prefix_spec;
use crate::text::trim_ascii_end;
use crate::text::trim_ascii_end_chars;

verus! {

/// The views of a list of commands.
pub open spec fn views(s: Seq<Command>) -> Seq<CommandView> {
    s.map_values(|c: Command| c@)
}

/// Whether a command is named `name`.
pub open spec fn named(name: Seq<char>) -> spec_fn(CommandView) -> bool {
    |c: CommandView| c.cmd == name
}

/// Whether a command's first required end-point is `location`.
pub open spec fn first_location_is(location: Seq<char>) -> spec_fn(CommandView) -> bool {
    |c: CommandView| c.required_endpoints.len() > 0 && c.required_endpoints[0] == location
}

/// Whether a command's name starts with `prefix`.
pub open spec fn name_starts_with(prefix: Seq<char>) -> spec_fn(CommandView) -> bool {
    |c: CommandView| prefix.is_prefix_of(c.cmd)
}

/// `x` placed into `s` before the first command it sorts strictly before, or
/// at the end: inserting this way, one by one, gives a stable sort.
pub open spec fn insert_sorted(s: Seq<CommandView>, x: CommandView) -> Seq<CommandView>
    decreases s.len(),
{
    if s.len() == 0 {
        seq![x]
    } else if command_before(x, s[0]) {
        seq![x] + s
    } else {
        seq![s[0]] + insert_sorted(s.drop_first(), x)
    }
}

/// `s` sorted in command order, keeping the order of commands that sort
/// equal, as a stable sort does.
pub open spec fn sorted_commands(s: Seq<CommandView>) -> Seq<CommandView>
    decreases s.len(),
{
    if s.len() == 0 {
        s
    } else {
        insert_sorted(sorted_commands(s.drop_last()), s.last())
    }
}

/// Whether `c` requires only end-points found in `eps`.
pub open spec fn endpoints_met(eps: Seq<Seq<char>>) -> spec_fn(CommandView) -> bool {
    |c: CommandView| forall|k: int| 0 <= k < c.required_endpoints.len() ==> eps.contains(
        #[trigger] c.required_endpoints[k],
    )
}

/// Whether `c` requires an end-point not found in `eps`.
pub open spec fn endpoints_missing(eps: Seq<Seq<char>>) -> spec_fn(CommandView) -> bool {
    |c: CommandView| !endpoints_met(eps)(c)
}

pub proof fn lemma_insert_sorted_at(s: Seq<CommandView>, x: CommandView, p: int)
    requires
        0 <= p <= s.len(),
        forall|j: int| 0 <= j < p ==> !command_before(x, #[trigger] s[j]),
        p == s.len() || command_before(x, s[p]),
    ensures
        insert_sorted(s, x) == s.insert(p, x),
    decreases p,
{
    if p == 0 {
        if s.len() > 0 {
            assert(seq![x] + s == s.insert(0, x));
        }
    } else {
        let t = s.drop_first();
        assert forall|j: int| 0 <= j < p - 1 implies !command_before(x, #[trigger] t[j]) by {
            assert(t[j] == s[j + 1]);
        }
        if p < s.len() {
            assert(t[p - 1] == s[p]);
        }
        assert(!command_before(x, s[0]));
        lemma_insert_sorted_at(t, x, p - 1);
        assert(seq![s[0]] + t.insert(p - 1, x) == s.insert(p, x));
    }
}

/// A command is met by the offered end-points exactly when each end-point
/// it requires is offered; it misses them exactly when one is not offered.
pub proof fn law_met_means_every_endpoint_offered(eps: Seq<Seq<char>>, c: CommandView)
    ensures
        endpoints_met(eps)(c) <==> (forall|e: Seq<char>| c.required_endpoints.contains(e) ==> eps.contains(e)),
        endpoints_missing(eps)(c) <==> (exists|k: int|
            0 <= k < c.required_endpoints.len() && !eps.contains(#[trigger] c.required_endpoints[k])),
{
    if endpoints_met(eps)(c) {
        assert forall|e: Seq<char>| c.required_endpoints.contains(e) implies eps.contains(e) by {
            let k = choose|k: int| 0 <= k < c.required_endpoints.len() && c.required_endpoints[k] == e;
            assert(eps.contains(c.required_endpoints[k]));
        }
    }
    if forall|e: Seq<char>| c.required_endpoints.contains(e) ==> eps.contains(e) {
        assert forall|k: int| 0 <= k < c.required_endpoints.len() implies eps.contains(
            #[trigger] c.required_endpoints[k],
        ) by {
            assert(c.required_endpoints.contains(c.required_endpoints[k]));
        }
    }
}

/// Taking the offered end-points sorts the known commands apart: a known
/// command whose end-points are all offered is among those made available,
/// one with an end-point not offered stays among those kept, and every
/// command made available has all its end-points offered.
pub proof fn law_update_sorts_commands_by_endpoints(stored: Seq<CommandView>, eps: Seq<Seq<char>>, i: int)
    requires
        0 <= i < stored.len(),
    ensures
        (forall|k: int| 0 <= k < stored[i].required_endpoints.len() ==> eps.contains(
            #[trigger] stored[i].required_endpoints[k],
        )) ==> stored.filter(endpoints_met(eps)).contains(stored[i]),
        (exists|k: int| 0 <= k < stored[i].required_endpoints.len() && !eps.contains(
            #[trigger] stored[i].required_endpoints[k],
        )) ==> stored.filter(endpoints_missing(eps)).contains(stored[i]),
        forall|j: int, k: int|
            0 <= j < stored.filter(endpoints_met(eps)).len() && 0 <= k < stored.filter(
                endpoints_met(eps),
            )[j].required_endpoints.len() ==> eps.contains(
                #[trigger] stored.filter(endpoints_met(eps))[j].required_endpoints[k],
            ),
{
    let met = stored.filter(endpoints_met(eps));
    if forall|k: int| 0 <= k < stored[i].required_endpoints.len() ==> eps.contains(
        #[trigger] stored[i].required_endpoints[k],
    ) {
        assert(endpoints_met(eps)(stored[i]));
        stored.lemma_filter_contains(endpoints_met(eps), i);
    }
    if exists|k: int| 0 <= k < stored[i].required_endpoints.len() && !eps.contains(
        #[trigger] stored[i].required_endpoints[k],
    ) {
        assert(endpoints_missing(eps)(stored[i]));
        stored.lemma_filter_contains(endpoints_missing(eps), i);
    }
    assert forall|j: int, k: int|
        0 <= j < met.len() && 0 <= k < met[j].required_endpoints.len() implies eps.contains(
        #[trigger] met[j].required_endpoints[k],
    ) by {
        stored.lemma_filter_pred(endpoints_met(eps), j);
    }
}

/// Without any end-point offered, no command that requires one is met.
proof fn lemma_none_met_without_endpoints(s: Seq<CommandView>)
    requires
        forall|i: int| 0 <= i < s.len() ==> #[trigger] s[i].required_endpoints.len() > 0,
    ensures
        s.filter(endpoints_met(Seq::empty())).len() == 0,
        s.filter(endpoints_missing(Seq::empty())) == s,
    decreases s.len(),
{
    reveal(Seq::filter);
    if s.len() > 0 {
        let c = s.last();
        assert(c == s[s.len() - 1]);
        assert(!Seq::<Seq<char>>::empty().contains(c.required_endpoints[0]));
        assert(!endpoints_met(Seq::empty())(c));
        lemma_none_met_without_endpoints(s.drop_last());
        assert(s.drop_last().push(c) =~= s);
    }
}

/// Without any end-point offered, every command that requires none is met.
proof fn lemma_all_met_without_endpoints(s: Seq<CommandView>)
    requires
        forall|i: int| 0 <= i < s.len() ==> #[trigger] s[i].required_endpoints.len() == 0,
    ensures
        s.filter(endpoints_met(Seq::empty())) == s,
        s.filter(endpoints_missing(Seq::empty())).len() == 0,
    decreases s.len(),
{
    reveal(Seq::filter);
    if s.len() > 0 {
        let c = s.last();
        assert(c == s[s.len() - 1]);
        assert(endpoints_met(Seq::empty())(c));
        lemma_all_met_without_endpoints(s.drop_last());
        assert(s.drop_last().push(c) =~= s);
    }
}

/// Sorts `v` in command order, stably.
fn sort_commands(v: Vec<Command>) -> (r: Vec<Command>)
    ensures
        views(r@) == sorted_commands(views(v@)),
{
    let ghost orig = views(v@);
    let mut rest = v;
    let mut r: Vec<Command> = Vec::new();
    let n = rest.len();
    assert(orig.take(0) == Seq::<CommandView>::empty());
    for i in 0..n
        invariant
            n == orig.len(),
            rest@.len() == n - i,
            views(rest@) == orig.skip(i as int),
            views(r@) == sorted_commands(orig.take(i as int)),
    {
        let ghost br = rest@;
        let x = rest.remove(0);
        proof {
            assert(views(br)[0] == br[0]@);
            assert(orig.skip(i as int)[0] == orig[i as int]);
            assert forall|j: int| 0 <= j < rest@.len() implies #[trigger] views(rest@)[j] == orig.skip(
                i + 1,
            )[j] by {
                assert(rest@[j] == br[j + 1]);
                assert(views(br)[j + 1] == orig.skip(i as int)[j + 1]);
            }
            assert(views(rest@) =~= orig.skip(i + 1));
            assert(x@ == orig[i as int]);
            assert(orig.take(i + 1).drop_last() == orig.take(i as int));
            assert(orig.take(i + 1).last() == orig[i as int]);
        }
        let mut p: usize = 0;
        while p < r.len() && !x.sorts_before(&r[p])
            invariant
                p <= r@.len(),
                forall|j: int| 0 <= j < p ==> !command_before(x@, #[trigger] views(r@)[j]),
            decreases r@.len() - p,
        {
            p = p + 1;
        }
        proof {
            lemma_insert_sorted_at(views(r@), x@, p as int);
        }
        let ghost before = r@;
        r.insert(p, x);
        assert(views(r@) =~= views(before).insert(p as int, orig[i as int]));
    }
    assert(orig.take(n as int) == orig);
    r
}

/// The command library maintains all known commands and gives access to them.
pub struct CommandLibrary {
    /// Available commands.
    cmds: Vec<Command>,
    /// Known commands whose end-points were not seen yet.
    stored_cmds: Vec<Command>,
}

impl CommandLibrary {
    /// The available commands, in the library's order.
    pub closed spec fn available(&self) -> Seq<CommandView> {
        views(self.cmds@)
    }

    /// The known commands that are not available yet.
    pub closed spec fn stored(&self) -> Seq<CommandView> {
        views(self.stored_cmds@)
    }

    /// A library in which only the two default commands are available:
    /// `help`, which prints all available commands, and the GET of
    /// `/.well-known/core`. The other commands Jelly implements are known:
    /// those that talk to the device, and the Jelly commands that need no
    /// end-point.
    pub fn default() -> (r: Self)
        ensures
            r.available() == super::commands::default_views(),
            r.stored().len() == 7,
            r.stored().filter(endpoints_met(Seq::empty())) == super::commands::jelly_views(),
            r.stored().filter(endpoints_missing(Seq::empty())).len() == 5,
    {
        let mut stored = super::commands::device_commands();
        let ghost d = views(stored@);
        let mut jelly = super::commands::jelly_commands();
        stored.append(&mut jelly);
        proof {
            let j = super::commands::jelly_views();
            assert(views(stored@) =~= d + j);
            assert forall|i: int| 0 <= i < d.len() implies #[trigger] d[i].required_endpoints.len() > 0 by {
                assert(d[i] == stored@[i]@);
            }
            lemma_none_met_without_endpoints(d);
            lemma_all_met_without_endpoints(j);
            Seq::filter_distributes_over_add(d, j, endpoints_met(Seq::empty()));
            Seq::filter_distributes_over_add(d, j, endpoints_missing(Seq::empty()));
            assert(d.filter(endpoints_met(Seq::empty())) + j =~= j);
            assert(d + j.filter(endpoints_missing(Seq::empty())) =~= d);
        }
        Self { cmds: super::commands::default_commands(), stored_cmds: stored }
    }

    /// Adds `cmds` to the known commands that may become available.
    pub fn add_known(&mut self, cmds: Vec<Command>)
        ensures
            final(self).available() == old(self).available(),
            final(self).stored() == old(self).stored() + views(cmds@),
    {
        let mut more = cmds;
        let ghost a = self.stored();
        let ghost b = views(more@);
        self.stored_cmds.append(&mut more);
        assert(self.stored() =~= a + b);
    }

    /// A library in which no command is available yet and `known` are the
    /// commands that may become available.
    pub fn with_known(known: Vec<Command>) -> (r: Self)
        ensures
            r.available().len() == 0,
            r.stored() == views(known@),
    {
        Self { cmds: Vec::new(), stored_cmds: known }
    }

    /// Takes the end-points the device offers (typically from
    /// `/.well-known/core`) and makes available every known command whose
    /// required end-points are all among them; then sorts the available
    /// commands.
    pub fn update_available_cmds_based_on_endpoints(&mut self, eps: &[String])
        ensures
            final(self).stored() == old(self).stored().filter(endpoints_missing(eps@.map_values(|e: String| e@))),
            final(self).available() == sorted_commands(
                old(self).available() + old(self).stored().filter(endpoints_met(eps@.map_values(|e: String| e@))),
            ),
    {
        let ghost e = eps@.map_values(|e: String| e@);
        let ghost old_stored = self.stored();
        let mut kept: Vec<Command> = Vec::new();
        let mut moved: Vec<Command> = Vec::new();
        core::mem::swap(&mut moved, &mut self.cmds);
        let mut source: Vec<Command> = Vec::new();
        core::mem::swap(&mut source, &mut self.stored_cmds);
        let ghost base = views(moved@);
        let n = source.len();
        assert(old_stored.take(0) == Seq::<CommandView>::empty());
        for i in 0..n
            invariant
                n == old_stored.len(),
                source@.len() == n - i,
                views(source@) == old_stored.skip(i as int),
                views(kept@) == old_stored.take(i as int).filter(endpoints_missing(e)),
                views(moved@) == base + old_stored.take(i as int).filter(endpoints_met(e)),
                e == eps@.map_values(|e: String| e@),
        {
            let ghost br = source@;
            let c = source.remove(0);
            proof {
                assert(views(br)[0] == br[0]@);
                assert(old_stored.skip(i as int)[0] == old_stored[i as int]);
                assert forall|j: int| 0 <= j < source@.len() implies #[trigger] views(source@)[j]
                    == old_stored.skip(i + 1)[j] by {
                    assert(source@[j] == br[j + 1]);
                    assert(views(br)[j + 1] == old_stored.skip(i as int)[j + 1]);
                }
                reveal(Seq::filter);
                assert(views(source@) =~= old_stored.skip(i + 1));
                assert(c@ == old_stored[i as int]);
                assert(old_stored.take(i + 1).drop_last() == old_stored.take(i as int));
                assert(old_stored.take(i + 1).last() == old_stored[i as int]);
            }
            let met = all_endpoints_in(&c, eps);
            let ghost kept_before = kept@;
            let ghost moved_before = moved@;
            if met {
                moved.push(c);
                assert(views(moved@) =~= views(moved_before).push(old_stored[i as int]));
            } else {
                kept.push(c);
                assert(views(kept@) =~= views(kept_before).push(old_stored[i as int]));
            }
        }
        assert(old_stored.take(n as int) == old_stored);
        self.stored_cmds = kept;
        self.cmds = sort_commands(moved);
    }

    /// Makes every known command available, then sorts the available
    /// commands.
    pub fn force_all_cmds_available(&mut self)
        ensures
            final(self).stored().len() == 0,
            final(self).available() == sorted_commands(old(self).available() + old(self).stored()),
    {
        let mut all: Vec<Command> = Vec::new();
        core::mem::swap(&mut all, &mut self.cmds);
        let mut stored: Vec<Command> = Vec::new();
        core::mem::swap(&mut stored, &mut self.stored_cmds);
        let ghost a = views(all@);
        let ghost b = views(stored@);
        all.append(&mut stored);
        assert(views(all@) =~= a + b);
        self.cmds = sort_commands(all);
        assert(self.stored() =~= Seq::<CommandView>::empty());
    }

    /// The names of all available commands, in order.
    pub fn list_by_cmd(&self) -> (r: Vec<String>)
        ensures
            r@.len() == self.available().len(),
            forall|i: int| 0 <= i < r@.len() ==> #[trigger] r@[i]@ == self.available()[i].cmd,
    {
        let mut r: Vec<String> = Vec::new();
        for i in 0..self.cmds.len()
            invariant
                r@.len() == i,
                i <= self.cmds@.len(),
                forall|j: int| 0 <= j < i ==> #[trigger] r@[j]@ == self.available()[j].cmd,
        {
            r.push(self.cmds[i].cmd.clone());
        }
        r
    }

    /// All available commands, in order.
    pub fn list_available_commands(&self) -> (r: Vec<&Command>)
        ensures
            r@.len() == self.available().len(),
            forall|i: int| 0 <= i < r@.len() ==> #[trigger] r@[i]@ == self.available()[i],
    {
        let mut r: Vec<&Command> = Vec::new();
        for i in 0..self.cmds.len()
            invariant
                r@.len() == i,
                i <= self.cmds@.len(),
                forall|j: int| 0 <= j < i ==> #[trigger] r@[j]@ == self.available()[j],
        {
            r.push(&self.cmds[i]);
        }
        r
    }

    /// Makes `cmd` available, after all other available commands.
    pub fn add(&mut self, cmd: Command)
        ensures
            final(self).available() == old(self).available().push(cmd@),
            final(self).stored() == old(self).stored(),
    {
        let ghost c = cmd@;
        self.cmds.push(cmd);
        assert(self.available() =~= old(self).available().push(c));
    }

    /// The available commands whose name starts with `prefix`, in order.
    pub fn matching_prefix_by_cmd(&self, prefix: &str) -> (r: Vec<&Command>)
        ensures
            views_of_refs(r@) == self.available().filter(name_starts_with(prefix@)),
    {
        let mut r: Vec<&Command> = Vec::new();
        let n = self.cmds.len();
        for i in 0..n
            invariant
                n == self.cmds@.len(),
                views_of_refs(r@) == self.available().take(i as int).filter(
                    name_starts_with(prefix@),
                ),
        {
            proof {
                reveal(Seq::filter);
                assert(self.available().take(i + 1).drop_last() == self.available().take(
                    i as int,
                ));
            }
            let ghost before = r@;
            if self.cmds[i].starts_with(prefix) {
                r.push(&self.cmds[i]);
                assert(views_of_refs(r@) =~= views_of_refs(before).push(self.available()[i as int]));
            }
        }
        assert(self.available().take(n as int) == self.available());
        r
    }

    /// The available commands whose name starts with `prefix`, and `prefix`
    /// prolonged for as long as all their names agree: if `F` matches
    /// `FooBar`, `FooBaz` and `FooBizz`, the prefix becomes `FooB`.
    pub fn longest_common_prefixed_by_cmd(&self, prefix: &str) -> (r: (String, Vec<&Command>))
        ensures
            views_of_refs(r.1@) == self.available().filter(name_starts_with(prefix@)),
            r.0@ == longest_common_prefix_spec(
                prefix@,
                self.available().filter(name_starts_with(prefix@)).map_values(
                    |c: CommandView| c.cmd,
                ),
            ),
    {
        let cmds = self.matching_prefix_by_cmd(prefix);
        let mut names: Vec<&String> = Vec::new();
        for i in 0..cmds.len()
            invariant
                names@.len() == i,
                i <= cmds@.len(),
                forall|j: int| 0 <= j < i ==> #[trigger] names@[j]@ == cmds@[j]@.cmd,
        {
            names.push(&cmds[i].cmd);
        }
        assert(names@.map_values(|s: &String| s@) =~= views_of_refs(cmds@).map_values(
            |c: CommandView| c.cmd,
        ));
        let actual_prefix = longest_common_prefix(prefix, names.as_slice());
        (actual_prefix, cmds)
    }

    /// The first available command named `cmd` once trailing ASCII whitespace
    /// is removed from `cmd`.
    pub fn find_by_cmd(&self, cmd: &str) -> (r: Option<&Command>)
        ensures
            ({
                let i = first_index(self.available(), named(trim_ascii_end(cmd@)));
                &&& (r is Some <==> i < self.available().len())
                &&& r is Some ==> r->0@ == self.available()[i]
            }),
    {
        let i = self.index_by_cmd(cmd);
        if i < self.cmds.len() {
            Some(&self.cmds[i])
        } else {
            None
        }
    }

    /// Like `find_by_cmd`, for changing the command in place.
    pub fn find_by_cmd_mut(&mut self, cmd: &str) -> (r: Option<&mut Command>)
        ensures
            ({
                let i = first_index(old(self).available(), named(trim_ascii_end(cmd@)));
                &&& (r is Some <==> i < old(self).available().len())
                &&& r is Some ==> r->0@ == old(self).available()[i] && final(self).available()
                    == old(self).available().update(i, final(r->0)@)
                &&& r is None ==> final(self).available() == old(self).available()
                &&& final(self).stored() == old(self).stored()
            }),
    {
        let i = self.index_by_cmd(cmd);
        if i < self.cmds.len() {
            let ghost old_cmds = self.cmds@;
            proof {
                assert forall|c: Command| #[trigger] views(old_cmds.update(i as int, c)) == views(
                    old_cmds,
                ).update(i as int, c@) by {
                    assert(views(old_cmds.update(i as int, c)) =~= views(old_cmds).update(
                        i as int,
                        c@,
                    ));
                }
            }
            Some(&mut self.cmds[i])
        } else {
            None
        }
    }

    fn index_by_cmd(&self, cmd: &str) -> (i: usize)
        ensures
            i == first_index(self.available(), named(trim_ascii_end(cmd@))),
            i <= self.available().len(),
    {
        let clean = trim_ascii_end_chars(cmd);
        let ghost p = named(trim_ascii_end(cmd@));
        let mut i: usize = 0;
        while i < self.cmds.len()
            invariant
                i <= self.cmds@.len(),
                clean@ == trim_ascii_end(cmd@),
                p == named(trim_ascii_end(cmd@)),
                forall|j: int| 0 <= j < i ==> !p(#[trigger] self.available()[j]),
            decreases self.cmds@.len() - i,
        {
            let name = chars_of(self.cmds[i].cmd.as_str());
            if chars_equal(name.as_slice(), clean.as_slice()) {
                proof {
                    lemma_first_index(self.available(), p, i as int);
                }
                return i;
            }
            i = i + 1;
        }
        proof {
            lemma_first_index(self.available(), p, i as int);
        }
        i
    }

    fn index_by_first_location(&self, location: &str) -> (i: usize)
        ensures
            i == first_index(self.available(), first_location_is(location@)),
            i <= self.available().len(),
    {
        let loc = chars_of(location);
        let ghost p = first_location_is(location@);
        let mut i: usize = 0;
        while i < self.cmds.len()
            invariant
                i <= self.cmds@.len(),
                loc@ == location@,
                p == first_location_is(location@),
                forall|j: int| 0 <= j < i ==> !p(#[trigger] self.available()[j]),
            decreases self.cmds@.len() - i,
        {
            if self.cmds[i].required_endpoints.len() > 0 {
                let first = chars_of(self.cmds[i].required_endpoints[0].as_str());
                assert(self.available()[i as int].required_endpoints[0]
                    == self.cmds@[i as int].required_endpoints@[0]@);
                if chars_equal(first.as_slice(), loc.as_slice()) {
                    proof {
                        lemma_first_index(self.available(), p, i as int);
                    }
                    return i;
                }
            }
            i = i + 1;
        }
        proof {
            lemma_first_index(self.available(), p, i as int);
        }
        i
    }

    /// The first available command whose first required end-point is
    /// `location`.
    pub fn find_by_first_location(&self, location: &str) -> (r: Option<&Command>)
        ensures
            ({
                let i = first_index(self.available(), first_location_is(location@));
                &&& (r is Some <==> i < self.available().len())
                &&& r is Some ==> r->0@ == self.available()[i]
            }),
    {
        let i = self.index_by_first_location(location);
        if i < self.cmds.len() {
            Some(&self.cmds[i])
        } else {
            None
        }
    }

    /// Like `find_by_first_location`, for changing the command in place.
    pub fn find_by_first_location_mut(&mut self, location: &str) -> (r: Option<&mut Command>)
        ensures
            ({
                let i = first_index(old(self).available(), first_location_is(location@));
                &&& (r is Some <==> i < old(self).available().len())
                &&& r is Some ==> r->0@ == old(self).available()[i] && final(self).available()
                    == old(self).available().update(i, final(r->0)@)
                &&& r is None ==> final(self).available() == old(self).available()
                &&& final(self).stored() == old(self).stored()
            }),
    {
        let i = self.index_by_first_location(location);
        if i < self.cmds.len() {
            let ghost old_cmds = self.cmds@;
            proof {
                assert forall|c: Command| #[trigger] views(old_cmds.update(i as int, c)) == views(
                    old_cmds,
                ).update(i as int, c@) by {
                    assert(views(old_cmds.update(i as int, c)) =~= views(old_cmds).update(
                        i as int,
                        c@,
                    ));
                }
            }
            Some(&mut self.cmds[i])
        } else {
            None
        }
    }

    /// Whether a command with the same name as `cmd` is available.
    pub fn _contains(&self, cmd: &Command) -> (r: bool)
        ensures
            r == exists|i: int| 0 <= i < self.available().len() && #[trigger] self.available()[i].cmd == cmd@.cmd,
    {
        let name = chars_of(cmd.cmd.as_str());
        for i in 0..self.cmds.len()
            invariant
                name@ == cmd@.cmd,
                forall|j: int| 0 <= j < i ==> #[trigger] self.available()[j].cmd != cmd@.cmd,
        {
            let other = chars_of(self.cmds[i].cmd.as_str());
            if chars_equal(other.as_slice(), name.as_slice()) {
                assert(self.available()[i as int].cmd == cmd@.cmd);
                return true;
            }
        }
        false
    }
}

/// Whether every end-point `cmd` requires is in `eps`.
fn all_endpoints_in(cmd: &Command, eps: &[String]) -> (r: bool)
    ensures
        r == endpoints_met(eps@.map_values(|e: String| e@))(cmd@),
{
    let ghost e = eps@.map_values(|e: String| e@);
    let mut k: usize = 0;
    while k < cmd.required_endpoints.len()
        invariant
            k <= cmd.required_endpoints@.len(),
            e == eps@.map_values(|e: String| e@),
            forall|j: int| 0 <= j < k ==> e.contains(#[trigger] cmd@.required_endpoints[j]),
        decreases cmd.required_endpoints@.len() - k,
    {
        let want = chars_of(cmd.required_endpoints[k].as_str());
        let mut found = false;
        let mut m: usize = 0;
        while m < eps.len()
            invariant
                m <= eps@.len(),
                want@ == cmd@.required_endpoints[k as int],
                e == eps@.map_values(|e: String| e@),
                found ==> e.contains(want@),
                !found ==> forall|j: int| 0 <= j < m ==> #[trigger] e[j] != want@,
            decreases eps@.len() - m,
        {
            let have = chars_of(eps[m].as_str());
            if chars_equal(have.as_slice(), want.as_slice()) {
                assert(e[m as int] == want@);
                found = true;
            }
            m = m + 1;
        }
        if !found {
            assert(!e.contains(cmd@.required_endpoints[k as int]));
            return false;
        }
        k = k + 1;
    }
    true
}

/// The views of a list of command references.
pub open spec fn views_of_refs(s: Seq<&Command>) -> Seq<CommandView> {
    s.map_values(|c: &Command| c@)
}

} // verus!
