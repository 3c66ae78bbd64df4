//! Properties that span the worker's line recognition and the monitor's
//! display state.

use vstd::prelude::*;
use crate::bounded::{newest, pushed, room};
use crate::config::{CommandConfig, PlotConfig, all_plots};
use crate::worker::{
    WorkerEvent, crlf, event_finishes, event_writes, next_poll_mark, poll_due, poll_frames,
    poll_mark_after, run_writes,
};
use crate::lines::{line_records, readings};
use crate::monitor::{PlotState, drawn_below, first_named, lemma_first_named_from, text_state_after};
use crate::text::{find_first, lemma_find_from, occurs_at, split_once_at, trimmed};

verus! {

/// Every reading comes from a plot whose key occurs in the line: it carries
/// that plot's name and the trimmed text after the key.
pub proof fn lemma_reading_source(raw: Seq<char>, plots: Seq<PlotConfig>, k: int)
    requires
        0 <= k < readings(raw, plots).len(),
    ensures
        exists|m: int|
            #![trigger plots[m]]
            0 <= m < plots.len() && plots[m].name@ == readings(raw, plots)[k].0 && (
            split_once_at(raw, plots[m].data_key@) matches Some(parts) && trimmed(parts.1)
                == readings(raw, plots)[k].1),
    decreases plots.len(),
{
    let prev = plots.drop_last();
    let rs = readings(raw, plots);
    if k < readings(raw, prev).len() {
        lemma_reading_source(raw, prev, k);
        let m = choose|m: int|
            #![trigger prev[m]]
            0 <= m < prev.len() && prev[m].name@ == readings(raw, prev)[k].0 && (split_once_at(
                raw,
                prev[m].data_key@,
            ) matches Some(parts) && trimmed(parts.1) == readings(raw, prev)[k].1);
        assert(plots[m] == prev[m]);
        assert(rs[k] == readings(raw, prev)[k]);
    } else {
        let m = plots.len() - 1;
        assert(plots[m] == plots.last());
    }
}

/// When plot names are distinct and the monitor shows the configured plots,
/// the first plot that carries the name of a record the worker reports is
/// the plot whose key the line holds, and the record's reading text is the
/// trimmed text after that key.
pub proof fn law_record_finds_its_plot<P>(
    states: Seq<PlotState<P>>,
    plots: Seq<PlotConfig>,
    line: Seq<char>,
    k: int,
)
    requires
        states.len() == plots.len(),
        forall|i: int| 0 <= i < states.len() ==> (#[trigger] states[i]).config == plots[i],
        forall|i: int, j: int| 0 <= i < j < plots.len() ==> plots[i].name@ != plots[j].name@,
        0 <= k < line_records(line, plots).len(),
        line_records(line, plots)[k].1 is Some,
    ensures
        first_named(states, line_records(line, plots)[k].0) matches Some(m) && (split_once_at(
            line_records(line, plots)[k].2,
            states[m].config.data_key@,
        ) matches Some(parts) && trimmed(parts.1) == line_records(line, plots)[k].1->0),
{
    let raw = trimmed(line);
    let rs = readings(raw, plots);
    assert(rs.len() > 0);
    assert(line_records(line, plots)[k] == (rs[k].0, Some(rs[k].1), raw));
    lemma_reading_source(raw, plots, k);
    let m = choose|m: int|
        #![trigger plots[m]]
        0 <= m < plots.len() && plots[m].name@ == rs[k].0 && (split_once_at(
            raw,
            plots[m].data_key@,
        ) matches Some(parts) && trimmed(parts.1) == rs[k].1);
    lemma_first_named_from(states, rs[k].0, 0);
    assert(states[m].config == plots[m]);
    match first_named(states, rs[k].0) {
        Some(j) => {
            assert(states[j].config == plots[j]);
            if j < m {
                assert(plots[j].name@ != plots[m].name@);
            }
            assert(j == m);
        },
        None => {
            assert(false);
        },
    }
}

/// When plot names are distinct and the monitor shows the configured plots,
/// a reading that the worker reports for a plot and that is not numeric
/// becomes that plot's displayed text value.
pub proof fn law_text_reading_is_shown<P>(
    states: Seq<PlotState<P>>,
    plots: Seq<PlotConfig>,
    values: Map<Seq<char>, Seq<char>>,
    line: Seq<char>,
    k: int,
)
    requires
        states.len() == plots.len(),
        forall|i: int| 0 <= i < states.len() ==> (#[trigger] states[i]).config == plots[i],
        forall|i: int, j: int| 0 <= i < j < plots.len() ==> plots[i].name@ != plots[j].name@,
        0 <= k < line_records(line, plots).len(),
        line_records(line, plots)[k].1 is Some,
    ensures
        text_state_after(
            values,
            states,
            line_records(line, plots)[k].0,
            line_records(line, plots)[k].2,
        ) == values.insert(line_records(line, plots)[k].0, line_records(line, plots)[k].1->0),
{
    law_record_finds_its_plot(states, plots, line, k);
}


/// The plots, in order, whose key occurs in the trimmed line `raw`.
pub open spec fn plots_matching(raw: Seq<char>, plots: Seq<PlotConfig>) -> Seq<PlotConfig> {
    plots.filter(|p: PlotConfig| split_once_at(raw, p.data_key@) is Some)
}

/// A matching plot's reading: its name and the trimmed text after the
/// first occurrence of its key in `raw`.
pub open spec fn reading_of(raw: Seq<char>, p: PlotConfig) -> (Seq<char>, Seq<char>) {
    (p.name@, trimmed((split_once_at(raw, p.data_key@)->0).1))
}

/// The readings of a line are the matching plots, in order, each mapped to
/// its reading.
pub proof fn lemma_readings_are_matching_plots(raw: Seq<char>, plots: Seq<PlotConfig>)
    ensures
        readings(raw, plots) == plots_matching(raw, plots).map_values(
            |p: PlotConfig| reading_of(raw, p),
        ),
    decreases plots.len(),
{
    reveal_with_fuel(Seq::<_>::filter, 1);
    if plots.len() > 0 {
        lemma_readings_are_matching_plots(raw, plots.drop_last());
        let prev = plots_matching(raw, plots.drop_last());
        if split_once_at(raw, plots.last().data_key@) is Some {
            assert(prev.push(plots.last()).map_values(|p: PlotConfig| reading_of(raw, p))
                =~= prev.map_values(|p: PlotConfig| reading_of(raw, p)).push(
                reading_of(raw, plots.last()),
            ));
        }
    } else {
        assert(plots_matching(raw, plots).map_values(|p: PlotConfig| reading_of(raw, p))
            =~= Seq::<(Seq<char>, Seq<char>)>::empty());
    }
}

/// The records of a received line, stated in the rule's own words: with
/// `raw` the trimmed line, each plot whose key occurs in `raw`, in
/// commands-then-plots order, gives one record with its name, the trimmed
/// text after the first occurrence of its key, and `raw`; when no plot's key
/// occurs, the line gives exactly one record naming no plot, with no
/// reading, and `raw`.
pub proof fn law_line_records_rule(line: Seq<char>, plots: Seq<PlotConfig>)
    ensures
        ({
            let raw = trimmed(line);
            let matching = plots_matching(raw, plots);
            line_records(line, plots) == if matching.len() == 0 {
                seq![(Seq::<char>::empty(), None::<Seq<char>>, raw)]
            } else {
                matching.map_values(
                    |p: PlotConfig|
                        (p.name@, Some(trimmed((split_once_at(raw, p.data_key@)->0).1)), raw),
                )
            }
        }),
{
    let raw = trimmed(line);
    let matching = plots_matching(raw, plots);
    lemma_readings_are_matching_plots(raw, plots);
    let rs = readings(raw, plots);
    assert(rs.len() == matching.len());
    if matching.len() > 0 {
        assert(line_records(line, plots) =~= matching.map_values(
            |p: PlotConfig| (p.name@, Some(trimmed((split_once_at(raw, p.data_key@)->0).1)), raw),
        ));
    }
}


/// `f` is a whole frame: a configured command's text, or the text of a user
/// command received among `events`, followed by CR LF.
pub open spec fn is_whole_frame(commands: Seq<CommandConfig>, events: Seq<WorkerEvent>, f: Seq<char>) -> bool {
    ||| exists|i: int| #![trigger commands[i]] 0 <= i < commands.len() && f == commands[i].command@ + crlf()
    ||| exists|j: int|
        #![trigger events[j]]
        0 <= j < events.len() && (events[j] matches WorkerEvent::UserCommand(c) && f == c@ + crlf())
}

/// Over any run of events, the worker writes only whole frames: each is a
/// configured command's text or a received user command's text, followed by
/// CR LF.
pub proof fn law_run_writes_whole_frames(
    commands: Seq<CommandConfig>,
    interval: u64,
    last: u64,
    events: Seq<WorkerEvent>,
)
    ensures
        forall|k: int|
            0 <= k < run_writes(commands, interval, last, events).len() ==> is_whole_frame(
                commands,
                events,
                #[trigger] run_writes(commands, interval, last, events)[k],
            ),
    decreases events.len(),
{
    if events.len() > 0 && !event_finishes(events[0]) {
        let rest = events.drop_first();
        let next = next_poll_mark(last, events[0]);
        law_run_writes_whole_frames(commands, interval, next, rest);
        let first = event_writes(commands, interval, last, events[0]);
        let all = run_writes(commands, interval, last, events);
        assert forall|k: int| 0 <= k < all.len() implies is_whole_frame(
            commands,
            events,
            #[trigger] all[k],
        ) by {
            if k < first.len() {
                match events[0] {
                    WorkerEvent::Clock(now) => {
                        assert(all[k] == poll_frames(commands)[k]);
                        assert(all[k] == commands[k].command@ + crlf());
                    },
                    WorkerEvent::UserCommand(c) => {
                        assert(all[k] == c@ + crlf());
                    },
                    _ => {},
                }
            } else {
                let f = run_writes(commands, interval, next, rest)[k - first.len()];
                assert(all[k] == f);
                assert(is_whole_frame(commands, rest, f));
                if !(exists|i: int| #![trigger commands[i]] 0 <= i < commands.len() && f == commands[i].command@ + crlf()) {
                    let j = choose|j: int|
                        #![trigger rest[j]]
                        0 <= j < rest.len() && (rest[j] matches WorkerEvent::UserCommand(c) && f == c@
                            + crlf());
                    assert(events[j + 1] == rest[j]);
                }
            }
        }
    }
}

/// A run writes, in order, what its first part writes and then what the
/// rest writes from where the first part left off, as long as the first
/// part does not stop the worker: poll rounds and user frames come out
/// whole and in the order of their events.
pub proof fn law_run_writes_in_event_order(
    commands: Seq<CommandConfig>,
    interval: u64,
    last: u64,
    first: Seq<WorkerEvent>,
    rest: Seq<WorkerEvent>,
)
    requires
        forall|j: int| 0 <= j < first.len() ==> !event_finishes(#[trigger] first[j]),
    ensures
        run_writes(commands, interval, last, first + rest) == run_writes(
            commands,
            interval,
            last,
            first,
        ) + run_writes(commands, interval, poll_mark_after(last, first), rest),
    decreases first.len(),
{
    if first.len() == 0 {
        assert(first + rest =~= rest);
    } else {
        let e = first[0];
        let tail = first.drop_first();
        assert(forall|j: int| 0 <= j < tail.len() ==> tail[j] == first[j + 1]);
        law_run_writes_in_event_order(commands, interval, next_poll_mark(last, e), tail, rest);
        assert((first + rest).drop_first() =~= tail + rest);
        assert((first + rest)[0] == e);
    }
}

/// New product parameters write nothing: a run with a parameter update
/// inserted anywhere writes exactly what the run without it writes.
pub proof fn law_params_write_nothing(
    commands: Seq<CommandConfig>,
    interval: u64,
    last: u64,
    events: Seq<WorkerEvent>,
    j: int,
    p: crate::table::TextMap,
)
    requires
        0 <= j <= events.len(),
    ensures
        run_writes(commands, interval, last, events.insert(j, WorkerEvent::ParamsReplaced(p)))
            == run_writes(commands, interval, last, events),
    decreases events.len(),
{
    let with = events.insert(j, WorkerEvent::ParamsReplaced(p));
    if j == 0 {
        assert(with.drop_first() =~= events);
        assert(event_writes(commands, interval, last, with[0]) =~= Seq::<Seq<char>>::empty());
    } else {
        let e = events[0];
        assert(with[0] == e);
        if !event_finishes(e) {
            law_params_write_nothing(
                commands,
                interval,
                next_poll_mark(last, e),
                events.drop_first(),
                j - 1,
                p,
            );
            assert(with.drop_first() =~= events.drop_first().insert(j - 1, WorkerEvent::ParamsReplaced(p)));
        }
    }
}


/// A clock reading makes a poll due exactly when at least the polling
/// interval has passed since the last poll's writes ended; a due poll
/// writes one frame per configured command, in command order, each the
/// command followed by CR LF, and a reading before that writes nothing.
/// Once due, a poll stays due at every later reading.
pub proof fn law_poll_round(commands: Seq<CommandConfig>, interval: u64, last: u64, now: u64)
    ensures
        poll_due(now, last, interval) <==> last as int + interval as int <= now as int,
        last as int + interval as int <= now as int ==> {
            let w = event_writes(commands, interval, last, WorkerEvent::Clock(now));
            &&& w.len() == commands.len()
            &&& forall|i: int| 0 <= i < commands.len() ==> #[trigger] w[i] == commands[i].command@ + seq!['\r', '\n']
        },
        (now as int) < last as int + interval as int ==> event_writes(
            commands,
            interval,
            last,
            WorkerEvent::Clock(now),
        ).len() == 0,
        forall|later: u64|
            #![trigger poll_due(later, last, interval)]
            poll_due(now, last, interval) && now <= later ==> poll_due(later, last, interval),
{
    assert(poll_frames(commands).len() == commands.len());
}

/// A poll round holds one frame per command, in command order.
pub proof fn law_poll_frames(commands: Seq<CommandConfig>)
    ensures
        poll_frames(commands).len() == commands.len(),
        forall|i: int|
            0 <= i < commands.len() ==> #[trigger] poll_frames(commands)[i] == commands[i].command@
                + seq!['\r', '\n'],
{
}

/// A plot is drawn as a graph exactly when it has no text value; the drawn
/// indices are all below the bound and strictly ascending.
pub proof fn law_drawn_plots<P>(states: Seq<PlotState<P>>, values: Map<Seq<char>, Seq<char>>, n: int)
    requires
        0 <= n <= states.len(),
    ensures
        forall|i: int|
            0 <= i < n ==> (drawn_below(states, values, n).contains(i) <==> !values.dom().contains(
                #[trigger] states[i].config.name@,
            )),
        forall|k: int|
            0 <= k < drawn_below(states, values, n).len() ==> 0 <= #[trigger] drawn_below(
                states,
                values,
                n,
            )[k] < n,
        forall|a: int, b: int|
            0 <= a < b < drawn_below(states, values, n).len() ==> #[trigger] drawn_below(
                states,
                values,
                n,
            )[a] < #[trigger] drawn_below(states, values, n)[b],
    decreases n,
{
    if n > 0 {
        law_drawn_plots(states, values, n - 1);
        let prev = drawn_below(states, values, n - 1);
        let d = drawn_below(states, values, n);
        assert forall|i: int| 0 <= i < n implies (d.contains(i) <==> !values.dom().contains(
            #[trigger] states[i].config.name@,
        )) by {
            if i < n - 1 {
                if d.contains(i) {
                    let k = choose|k: int| 0 <= k < d.len() && d[k] == i;
                    if k < prev.len() {
                        assert(prev[k] == i);
                    }
                }
                if prev.contains(i) {
                    let k = choose|k: int| 0 <= k < prev.len() && prev[k] == i;
                    assert(d[k] == i);
                }
            } else {
                if !values.dom().contains(states[n - 1].config.name@) {
                    assert(d[d.len() - 1] == n - 1);
                } else {
                    if d.contains(i) {
                        let k = choose|k: int| 0 <= k < d.len() && d[k] == i;
                        assert(prev[k] == i);
                    }
                }
            }
        }
    }
}

/// `key` occurs at `i` in `s` exactly when every character of `key` equals
/// the character of `s` at the same offset from `i`.
pub proof fn law_occurs_at_elementwise(s: Seq<char>, key: Seq<char>, i: int)
    ensures
        occurs_at(s, key, i) <==> (0 <= i && i + key.len() <= s.len() && forall|j: int|
            0 <= j < key.len() ==> #[trigger] s[i + j] == key[j]),
{
    if 0 <= i && i + key.len() <= s.len() {
        if forall|j: int| 0 <= j < key.len() ==> #[trigger] s[i + j] == key[j] {
            assert forall|j: int| 0 <= j < key.len() implies s.subrange(i, i + key.len())[j]
                == key[j] by {
                assert(s[i + j] == key[j]);
            }
            assert(s.subrange(i, i + key.len()) =~= key);
        }
        if occurs_at(s, key, i) {
            assert forall|j: int| 0 <= j < key.len() implies #[trigger] s[i + j] == key[j] by {
                assert(s.subrange(i, i + key.len())[j] == s[i + j]);
            }
        }
    }
}

/// Some character of `key` differs from the character of `s` at the same
/// offset from `i`.
pub open spec fn differs_at(s: Seq<char>, key: Seq<char>, i: int) -> bool {
    exists|j: int| 0 <= j < key.len() && #[trigger] s[i + j] != key[j]
}

/// Splitting at a key: when it succeeds, the text is the part before, the
/// key and the part after, and the key occurs nowhere earlier; when it
/// fails, the key occurs nowhere in the text.
pub proof fn law_split_once_parts(s: Seq<char>, key: Seq<char>)
    ensures
        match split_once_at(s, key) {
            Some(parts) => {
                &&& s == parts.0 + key + parts.1
                &&& forall|i: int|
                    #![trigger occurs_at(s, key, i)]
                    0 <= i < parts.0.len() ==> !occurs_at(s, key, i)
            },
            None => forall|i: int|
                0 <= i && i + key.len() <= s.len() ==> #[trigger] differs_at(s, key, i),
        },
{
    lemma_find_from(s, key, 0);
    match find_first(s, key) {
        Some(i) => {
            law_occurs_at_elementwise(s, key, i);
            assert(s.subrange(i, i + key.len()) =~= key);
            assert(s =~= s.take(i) + key + s.skip(i + key.len()));
        },
        None => {
            assert forall|i: int| 0 <= i && i + key.len() <= s.len() implies #[trigger] differs_at(
                s,
                key,
                i,
            ) by {
                law_occurs_at_elementwise(s, key, i);
            }
        },
    }
}

/// Number of plots of all commands: the sum of each command's plot count.
pub open spec fn plot_count(commands: Seq<CommandConfig>) -> int
    decreases commands.len(),
{
    if commands.len() == 0 {
        0
    } else {
        plot_count(commands.drop_last()) + commands.last().plots@.len()
    }
}

/// The plots of all commands hold every plot of every command: as many as
/// the commands have together, and plot `p` of command `c` at the count of
/// the earlier commands' plots plus `p`.
pub proof fn law_all_plots_layout(commands: Seq<CommandConfig>)
    ensures
        all_plots(commands).len() == plot_count(commands),
        forall|c: int, p: int|
            0 <= c < commands.len() && 0 <= p < commands[c].plots@.len() ==> all_plots(commands)[plot_count(
                commands.take(c),
            ) + p] == #[trigger] commands[c].plots@[p],
    decreases commands.len(),
{
    if commands.len() > 0 {
        let prev = commands.drop_last();
        law_all_plots_layout(prev);
        assert forall|c: int, p: int|
            0 <= c < commands.len() && 0 <= p < commands[c].plots@.len() implies all_plots(
            commands,
        )[plot_count(commands.take(c)) + p] == #[trigger] commands[c].plots@[p] by {
            if c < commands.len() - 1 {
                assert(commands.take(c) =~= prev.take(c));
                assert(prev[c] == commands[c]);
                lemma_plot_count_prefix(prev, c);
                lemma_plot_count_nonneg(prev.take(c));
                assert(all_plots(prev)[plot_count(prev.take(c)) + p] == prev[c].plots@[p]);
                assert(all_plots(commands)[plot_count(prev.take(c)) + p] == all_plots(prev)[plot_count(
                    prev.take(c),
                ) + p]);
            } else {
                assert(commands.take(c) =~= prev);
                assert(commands.last() == commands[c]);
                lemma_plot_count_nonneg(prev);
                assert(all_plots(commands)[plot_count(prev) + p] == commands.last().plots@[p]);
            }
        }
    }
}

/// No command has fewer than no plots.
proof fn lemma_plot_count_nonneg(commands: Seq<CommandConfig>)
    ensures
        plot_count(commands) >= 0,
    decreases commands.len(),
{
    if commands.len() > 0 {
        lemma_plot_count_nonneg(commands.drop_last());
    }
}

/// The plots of the first `c` commands fit within those of all of them.
proof fn lemma_plot_count_prefix(commands: Seq<CommandConfig>, c: int)
    requires
        0 <= c < commands.len(),
    ensures
        plot_count(commands.take(c)) + commands[c].plots@.len() <= plot_count(commands),
    decreases commands.len(),
{
    let prev = commands.drop_last();
    if c < commands.len() - 1 {
        assert(commands.take(c) =~= prev.take(c));
        assert(prev[c] == commands[c]);
        lemma_plot_count_prefix(prev, c);
    } else {
        assert(commands.take(c) =~= prev);
    }
}

/// A history within its room, after a push, holds the newest items of all
/// it was given, at most its room of them, the pushed item last.
pub proof fn law_history_keeps_newest<T>(s: Seq<T>, capacity: nat, x: T)
    requires
        s.len() <= room(capacity),
    ensures
        pushed(s, capacity, x) == newest(s.push(x), room(capacity)),
        pushed(s, capacity, x).len() <= room(capacity),
        pushed(s, capacity, x).last() == x,
{
    if s.len() >= capacity && s.len() > 0 {
        assert(s.drop_first().push(x) =~= s.push(x).skip(1));
    }
}

} // verus!
