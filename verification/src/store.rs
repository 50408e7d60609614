//! The latest report of every server, and the exposition text that is served
//! from it.
//!
//! The store keeps one report per server. A new report for a server replaces
//! the one before it; nothing is ever dropped, and nothing of an older report
//! stays behind. The servers are kept in the order in which they first
//! reported, which is the order in which they are rendered.

use crate::stats::{metric_line, SimplePrometheus, StatsZ, COUNTERS};
use crate::text::{
    closed_lines, has_line, lemma_closed_lines_concat, lemma_line_in_context, opt_str_text,
    same_text,
};
use vstd::prelude::*;
use vstd::string::*;

verus! {

/// What a store holds: the servers with their reports, in the order in which
/// the servers were first seen.
pub type Entries = Seq<(Seq<char>, StatsZ)>;

/// No server stands twice.
pub open spec fn distinct(entries: Entries) -> bool {
    forall|i: int, j: int|
        0 <= i < j < entries.len() ==> (#[trigger] entries[i]).0 != (#[trigger] entries[j]).0
}

/// The first position at which `server` stands.
pub open spec fn position(entries: Entries, server: Seq<char>) -> Option<int>
    decreases entries.len(),
{
    if entries.len() == 0 {
        None
    } else {
        match position(entries.drop_last(), server) {
            Some(i) => Some(i),
            None => if entries.last().0 == server {
                Some(entries.len() - 1)
            } else {
                None
            },
        }
    }
}

/// The report that the store shows for `server`.
pub open spec fn spec_get(entries: Entries, server: Seq<char>) -> Option<StatsZ> {
    match position(entries, server) {
        Some(i) => Some(entries[i].1),
        None => None,
    }
}

/// The store after `server` has reported `stats`: the report takes the place
/// of the server's earlier one, or the server is added at the end.
pub open spec fn spec_update(entries: Entries, server: Seq<char>, stats: StatsZ) -> Entries {
    match position(entries, server) {
        Some(i) => entries.update(i, (server, stats)),
        None => entries.push((server, stats)),
    }
}

/// The exposition text of all reports, each labelled with its server.
pub open spec fn render_all(entries: Entries) -> Seq<char>
    decreases entries.len(),
{
    if entries.len() == 0 {
        Seq::empty()
    } else {
        render_all(entries.drop_last()) + entries.last().1.exposition(Some(entries.last().0))
    }
}

/// The exposition text of one server's report, or of all reports where no
/// server is named. A server that has not reported has no text.
pub open spec fn spec_render(entries: Entries, filter: Option<Seq<char>>) -> Seq<char> {
    match filter {
        None => render_all(entries),
        Some(server) => match spec_get(entries, server) {
            Some(stats) => stats.exposition(Some(server)),
            None => Seq::empty(),
        },
    }
}

/// What `position` finds: the first entry of the server, if there is any.
pub proof fn lemma_position(entries: Entries, server: Seq<char>)
    ensures
        match position(entries, server) {
            Some(i) => 0 <= i < entries.len() && entries[i].0 == server && forall|j: int|
                0 <= j < i ==> (#[trigger] entries[j]).0 != server,
            None => forall|j: int| 0 <= j < entries.len() ==> (#[trigger] entries[j]).0 != server,
        },
    decreases entries.len(),
{
    if entries.len() > 0 {
        let init = entries.drop_last();
        lemma_position(init, server);
        assert forall|j: int| 0 <= j < init.len() implies init[j] == entries[j] by {}
        match position(init, server) {
            Some(i) => {
                assert(init[i] == entries[i]);
                assert forall|j: int| 0 <= j < i implies (#[trigger] entries[j]).0 != server by {
                    assert(init[j] == entries[j]);
                }
            },
            None => {
                assert forall|j: int| 0 <= j < init.len() implies (#[trigger] entries[j]).0
                    != server by {
                    assert(init[j] == entries[j]);
                }
            },
        }
    }
}

/// An entry of the server before which the server does not stand is the one
/// that `position` finds.
pub proof fn lemma_position_found(entries: Entries, server: Seq<char>, i: int)
    requires
        0 <= i < entries.len(),
        entries[i].0 == server,
        position(entries.take(i), server) is None,
    ensures
        position(entries, server) == Some(i),
    decreases entries.len(),
{
    let init = entries.drop_last();
    if entries.len() == i + 1 {
        assert(init =~= entries.take(i));
    } else {
        assert(init.take(i) =~= entries.take(i));
        lemma_position_found(init, server, i);
    }
}

/// Two reports of one server, one after the other, leave what the second
/// alone would have left, and the store then shows the second.
pub proof fn lemma_last_write_wins(
    entries: Entries,
    server: Seq<char>,
    first: StatsZ,
    second: StatsZ,
)
    ensures
        spec_update(spec_update(entries, server, first), server, second) == spec_update(
            entries,
            server,
            second,
        ),
        spec_get(spec_update(entries, server, second), server) == Some(second),
        spec_render(spec_update(entries, server, second), Some(server)) == second.exposition(
            Some(server),
        ),
{
    lemma_position(entries, server);
    let once = spec_update(entries, server, first);
    let direct = spec_update(entries, server, second);
    match position(entries, server) {
        Some(i) => {
            assert(once.take(i) =~= entries.take(i));
            assert(direct.take(i) =~= entries.take(i));
            lemma_position_prefix(entries, server, i);
            lemma_position_found(once, server, i);
            lemma_position_found(direct, server, i);
            assert(once.update(i, (server, second)) =~= direct);
        },
        None => {
            let n = entries.len() as int;
            assert(once.take(n) =~= entries);
            assert(direct.take(n) =~= entries);
            lemma_position_found(once, server, n);
            lemma_position_found(direct, server, n);
            assert(once.update(n, (server, second)) =~= direct);
        },
    }
}

/// Before the first entry of a server, the server does not stand.
pub proof fn lemma_position_prefix(entries: Entries, server: Seq<char>, i: int)
    requires
        position(entries, server) == Some(i),
    ensures
        0 <= i < entries.len(),
        position(entries.take(i), server) is None,
{
    lemma_position(entries, server);
    let head = entries.take(i);
    lemma_position(head, server);
    if position(head, server) is Some {
        let k = position(head, server)->Some_0;
        assert(head[k] == entries[k]);
    }
}

/// A report of one server leaves what the store shows for every other server.
pub proof fn lemma_update_keeps_others(
    entries: Entries,
    server: Seq<char>,
    stats: StatsZ,
    other: Seq<char>,
)
    requires
        other != server,
    ensures
        spec_get(spec_update(entries, server, stats), other) == spec_get(entries, other),
{
    let after = spec_update(entries, server, stats);
    lemma_position(entries, server);
    lemma_position(entries, other);
    lemma_position(after, other);
    match position(entries, other) {
        Some(k) => {
            assert(after[k] == entries[k]);
            lemma_position_prefix(entries, other, k);
            assert forall|j: int| 0 <= j < k implies (#[trigger] after[j]).0 != other by {
                if after[j] != entries[j] {
                } else {
                    assert(entries[j].0 != other);
                }
            }
            if position(after, other) != Some(k) {
                let m = position(after, other)->Some_0;
                assert(m < k || m > k);
                if m < k {
                    assert(after[m].0 != other);
                }
            }
        },
        None => {
            if position(after, other) is Some {
                let m = position(after, other)->Some_0;
                if m < entries.len() {
                    assert(after[m].0 == other);
                    assert(entries[m].0 != other);
                }
            }
        },
    }
}

/// A report takes its place as a whole: every entry of the store after it is
/// an entry from before it or the new report, never a mix of the two.
pub proof fn lemma_update_replaces_whole(
    entries: Entries,
    server: Seq<char>,
    stats: StatsZ,
    i: int,
)
    requires
        0 <= i < spec_update(entries, server, stats).len(),
    ensures
        spec_update(entries, server, stats)[i] == (server, stats) || (i < entries.len()
            && spec_update(entries, server, stats)[i] == entries[i]),
{
    lemma_position(entries, server);
}

/// A report leaves the servers distinct.
pub proof fn lemma_update_keeps_distinct(entries: Entries, server: Seq<char>, stats: StatsZ)
    requires
        distinct(entries),
    ensures
        distinct(spec_update(entries, server, stats)),
{
    lemma_position(entries, server);
    let after = spec_update(entries, server, stats);
    assert forall|i: int, j: int| 0 <= i < j < after.len() implies (#[trigger] after[i]).0 != (
    #[trigger] after[j]).0 by {
        match position(entries, server) {
            Some(k) => {
                assert(after[i].0 == entries[i].0);
                assert(after[j].0 == entries[j].0);
            },
            None => {
                if j < entries.len() {
                    assert(after[i] == entries[i]);
                    assert(after[j] == entries[j]);
                } else {
                    assert(after[i] == entries[i]);
                    assert(entries[i].0 != server);
                }
            },
        }
    }
}

/// The text of all reports is made of whole lines.
pub proof fn lemma_render_all_closed(entries: Entries)
    ensures
        closed_lines(render_all(entries)),
    decreases entries.len(),
{
    if entries.len() > 0 {
        let last = entries.last();
        lemma_render_all_closed(entries.drop_last());
        last.1.lemma_exposition_closed(Some(last.0), COUNTERS as nat);
        lemma_closed_lines_concat(
            render_all(entries.drop_last()),
            last.1.exposition(Some(last.0)),
        );
    }
}

/// The text of all reports holds, for every server in the store and every
/// counter of its report, the counter's line labelled with that server, as a
/// line of its own.
pub proof fn lemma_render_holds_every_counter(entries: Entries, j: int, i: int)
    requires
        0 <= j < entries.len(),
        0 <= i < COUNTERS,
    ensures
        has_line(
            spec_render(entries, None),
            metric_line(StatsZ::counter_name(i), Some(entries[j].0), entries[j].1.counter(i)),
        ),
    decreases entries.len(),
{
    let line = metric_line(StatsZ::counter_name(i), Some(entries[j].0), entries[j].1.counter(i));
    let init = entries.drop_last();
    let last = entries.last();
    let tail = last.1.exposition(Some(last.0));
    if j == entries.len() - 1 {
        last.1.lemma_exposition_has_line(Some(last.0), COUNTERS as nat, i);
        lemma_render_all_closed(init);
        lemma_line_in_context(render_all(init), tail, Seq::empty(), line);
        assert(render_all(init) + tail + Seq::<char>::empty() =~= render_all(entries));
    } else {
        assert(init[j] == entries[j]);
        lemma_render_holds_every_counter(init, j, i);
        lemma_line_in_context(Seq::empty(), render_all(init), tail, line);
        assert(Seq::<char>::empty() + render_all(init) + tail =~= render_all(entries));
    }
}

/// The latest report of every server that has reported.
pub struct MetricsStore {
    entries: Vec<(String, StatsZ)>,
}

impl View for MetricsStore {
    type V = Entries;

    closed spec fn view(&self) -> Entries {
        Seq::new(self.entries@.len(), |i: int| (self.entries@[i].0@, self.entries@[i].1))
    }
}

impl MetricsStore {
    #[verifier::type_invariant]
    spec fn servers_distinct(self) -> bool {
        distinct(self@)
    }

    /// A store without reports.
    pub fn new() -> (r: Self)
        ensures
            r@ == Entries::empty(),
            distinct(r@),
    {
        let r = MetricsStore { entries: Vec::new() };
        assert(r@ =~= Entries::empty());
        r
    }

    /// How many servers have reported. No server is counted twice.
    pub fn len(&self) -> (n: usize)
        ensures
            n == self@.len(),
            distinct(self@),
    {
        proof {
            use_type_invariant(self);
        }
        self.entries.len()
    }

    /// Where the entry of `server` stands.
    fn find(&self, server: &str) -> (r: Option<usize>)
        ensures
            r matches Some(i) ==> position(self@, server@) == Some(i as int) && i
                < self.entries@.len(),
            r is None ==> position(self@, server@) is None,
    {
        let mut i: usize = 0;
        while i < self.entries.len()
            invariant
                i <= self.entries@.len(),
                position(self@.take(i as int), server@) is None,
            decreases self.entries@.len() - i,
        {
            if same_text(self.entries[i].0.as_str(), server) {
                proof {
                    lemma_position_found(self@, server@, i as int);
                }
                return Some(i);
            }
            proof {
                assert(self@.take(i + 1).drop_last() =~= self@.take(i as int));
            }
            i += 1;
        }
        assert(self@.take(i as int) =~= self@);
        None
    }

    /// The latest report of `server`, if it has reported.
    pub fn get(&self, server: &str) -> (r: Option<StatsZ>)
        ensures
            r == spec_get(self@, server@),
    {
        match self.find(server) {
            Some(i) => Some(self.entries[i].1),
            None => None,
        }
    }

    /// Records `stats` as the latest report of `server`.
    pub fn update(&mut self, server: String, stats: StatsZ)
        ensures
            final(self)@ == spec_update(old(self)@, server@, stats),
            distinct(old(self)@),
            distinct(final(self)@),
    {
        proof {
            use_type_invariant(&*self);
            lemma_update_keeps_distinct(self@, server@, stats);
        }
        let ghost before = self@;
        let found = self.find(server.as_str());
        // The entries are taken out while they change, so that the store is
        // never seen with a half-made change.
        let mut entries: Vec<(String, StatsZ)> = Vec::new();
        core::mem::swap(&mut self.entries, &mut entries);
        match found {
            Some(i) => {
                entries.set(i, (server, stats));
            },
            None => {
                entries.push((server, stats));
            },
        }
        proof {
            let after = Seq::new(entries@.len(), |i: int| (entries@[i].0@, entries@[i].1));
            assert(after =~= spec_update(before, server@, stats));
        }
        core::mem::swap(&mut self.entries, &mut entries);
        assert(self@ =~= spec_update(before, server@, stats));
    }

    /// The exposition text of the report of the server that `filter` names,
    /// or of all reports where it names none. A store without reports, or
    /// without one of that server, renders as the empty text.
    pub fn render(&self, filter: Option<&str>) -> (r: String)
        ensures
            r@ == spec_render(self@, opt_str_text(filter)),
    {
        let mut out = String::new();
        match filter {
            Some(server) => {
                match self.find(server) {
                    Some(i) => {
                        self.entries[i].1.write_metrics(&mut out, Some(server));
                        assert(out@ =~= self@[i as int].1.exposition(Some(server@)));
                    },
                    None => {},
                }
            },
            None => {
                let mut i: usize = 0;
                while i < self.entries.len()
                    invariant
                        i <= self.entries@.len(),
                        out@ == render_all(self@.take(i as int)),
                    decreases self.entries@.len() - i,
                {
                    let ghost before = out@;
                    self.entries[i].1.write_metrics(&mut out, Some(self.entries[i].0.as_str()));
                    proof {
                        let now = self@.take(i + 1);
                        assert(now.drop_last() =~= self@.take(i as int));
                        assert(now.last() == self@[i as int]);
                    }
                    i += 1;
                }
                assert(self@.take(i as int) =~= self@);
            },
        }
        out
    }
}

impl Default for MetricsStore {
    fn default() -> (r: Self)
        ensures
            r@ == Entries::empty(),
    {
        MetricsStore::new()
    }
}

} // verus!
