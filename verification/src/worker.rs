//! Decisions of the serial worker: when to poll the device, what to write
//! to the port, and what to publish for each received line. The caller
//! performs the I/O and reports what happened as events.

use vstd::prelude::*;
use crate::config::{CommandConfig, PlotConfig, SerialConfig, all_plots, plot_configs};
use crate::lines::{LineRecord, line_records, recognize_line, records_view};
use crate::table::{TextMap, string_views};
use crate::text::frame_command;

verus! {

/// Something that happened to the worker.
pub enum WorkerEvent {
    /// The monitor asked the worker to stop.
    StopRequested,
    /// The monitor sent new product parameters.
    ParamsReplaced(TextMap),
    /// The clock read this many milliseconds since the worker started.
    Clock(u64),
    /// The frames of a poll have all been written; the clock then read this
    /// many milliseconds since the worker started.
    PollWritten(u64),
    /// The user asked for a command to be sent.
    UserCommand(String),
    /// A line was read from the port.
    LineRead(String),
    /// Writing to the port or publishing to the monitor failed.
    OutputFailed,
}

/// What the worker does next.
pub enum WorkerAction {
    /// Stop the worker.
    Finish,
    /// Nothing to do for this event.
    Continue,
    /// Write these frames to the port, in order.
    Write(Vec<String>),
    /// Publish these records to the monitor, in order.
    Publish(Vec<LineRecord>),
}

/// State of the serial worker.
pub struct WorkerState {
    pub commands: Vec<CommandConfig>,
    pub plots: Vec<PlotConfig>,
    pub polling_interval_ms: u64,
    pub last_poll_ms: u64,
    pub params: TextMap,
}

/// The frames of the given commands: each command's text followed by CR LF.
pub open spec fn poll_frames(commands: Seq<CommandConfig>) -> Seq<Seq<char>> {
    Seq::new(commands.len(), |i: int| commands[i].command@ + seq!['\r', '\n'])
}

/// Carriage return and line feed, the end of every frame.
pub open spec fn crlf() -> Seq<char> {
    seq!['\r', '\n']
}

/// Whether the worker stops on `e`.
pub open spec fn event_finishes(e: WorkerEvent) -> bool {
    e is StopRequested || e is OutputFailed
}

/// The frames the worker writes for `e`, given its commands, its polling
/// interval and when the last poll's writes ended: a whole poll round when a
/// poll is due, a user command's frame, and nothing otherwise.
pub open spec fn event_writes(
    commands: Seq<CommandConfig>,
    interval: u64,
    last: u64,
    e: WorkerEvent,
) -> Seq<Seq<char>> {
    match e {
        WorkerEvent::Clock(now) => if poll_due(now, last, interval) {
            poll_frames(commands)
        } else {
            Seq::empty()
        },
        WorkerEvent::UserCommand(c) => seq![c@ + crlf()],
        _ => Seq::empty(),
    }
}

/// When the last poll's writes ended, after `e`.
pub open spec fn next_poll_mark(last: u64, e: WorkerEvent) -> u64 {
    match e {
        WorkerEvent::PollWritten(done) => done,
        _ => last,
    }
}

/// The frames an action writes.
pub open spec fn action_writes(a: WorkerAction) -> Seq<Seq<char>> {
    match a {
        WorkerAction::Write(frames) => string_views(frames@),
        _ => Seq::empty(),
    }
}

/// Everything the worker writes over a run of events, in order, up to the
/// event that stops it.
pub open spec fn run_writes(
    commands: Seq<CommandConfig>,
    interval: u64,
    last: u64,
    events: Seq<WorkerEvent>,
) -> Seq<Seq<char>>
    decreases events.len(),
{
    if events.len() == 0 || event_finishes(events[0]) {
        Seq::empty()
    } else {
        event_writes(commands, interval, last, events[0]) + run_writes(
            commands,
            interval,
            next_poll_mark(last, events[0]),
            events.drop_first(),
        )
    }
}

/// When the last poll's writes ended, after a run of events.
pub open spec fn poll_mark_after(last: u64, events: Seq<WorkerEvent>) -> u64
    decreases events.len(),
{
    if events.len() == 0 {
        last
    } else {
        poll_mark_after(next_poll_mark(last, events[0]), events.drop_first())
    }
}

/// Whether a poll is due at `now`, the last one having been at `last`.
pub open spec fn poll_due(now: u64, last: u64, interval: u64) -> bool {
    now >= last && now - last >= interval
}

impl WorkerState {
    /// The worker's relation between its plots and its commands.
    pub open spec fn wf(&self) -> bool {
        self.plots@ == all_plots(self.commands@)
    }

    /// A worker for the given settings and commands, started at time zero.
    pub fn new(serial: &SerialConfig, commands: Vec<CommandConfig>, params: TextMap) -> (r: Self)
        ensures
            r.wf(),
            r.commands@ == commands@,
            r.polling_interval_ms == serial.polling_interval_ms,
            r.last_poll_ms == 0,
            r.params@ == params@,
    {
        let plots = plot_configs(&commands);
        WorkerState {
            commands,
            plots,
            polling_interval_ms: serial.polling_interval_ms,
            last_poll_ms: 0,
            params,
        }
    }

    /// The frames written at a poll: one per command, in order.
    pub fn poll_frames(&self) -> (r: Vec<String>)
        ensures
            string_views(r@) == poll_frames(self.commands@),
    {
        let mut r: Vec<String> = Vec::new();
        let n = self.commands.len();
        let mut i: usize = 0;
        while i < n
            invariant
                i <= n == self.commands@.len(),
                r@.len() == i,
                string_views(r@) =~= poll_frames(self.commands@).take(i as int),
            decreases n - i,
        {
            let f = frame_command(self.commands[i].command.as_str());
            r.push(f);
            assert(string_views(r@) =~= poll_frames(self.commands@).take(i + 1));
            i = i + 1;
        }
        assert(poll_frames(self.commands@).take(n as int) =~= poll_frames(self.commands@));
        r
    }

    /// The worker's decision for one event.
    pub fn step(&mut self, event: WorkerEvent) -> (action: WorkerAction)
        ensures
            old(self).wf() ==> final(self).wf(),
            final(self).commands@ == old(self).commands@,
            final(self).plots@ == old(self).plots@,
            final(self).polling_interval_ms == old(self).polling_interval_ms,
            match event {
                WorkerEvent::StopRequested => {
                    &&& action is Finish
                    &&& final(self).last_poll_ms == old(self).last_poll_ms
                    &&& final(self).params@ == old(self).params@
                },
                WorkerEvent::OutputFailed => {
                    &&& action is Finish
                    &&& final(self).last_poll_ms == old(self).last_poll_ms
                    &&& final(self).params@ == old(self).params@
                },
                WorkerEvent::ParamsReplaced(p) => {
                    &&& action is Continue
                    &&& final(self).last_poll_ms == old(self).last_poll_ms
                    &&& final(self).params@ == p@
                },
                WorkerEvent::Clock(now) => {
                    &&& final(self).params@ == old(self).params@
                    &&& final(self).last_poll_ms == old(self).last_poll_ms
                    &&& if poll_due(now, old(self).last_poll_ms, old(self).polling_interval_ms) {
                        &&& action matches WorkerAction::Write(frames)
                        &&& string_views(frames@) == poll_frames(old(self).commands@)
                    } else {
                        action is Continue
                    }
                },
                WorkerEvent::PollWritten(done) => {
                    &&& action is Continue
                    &&& final(self).last_poll_ms == done
                    &&& final(self).params@ == old(self).params@
                },
                WorkerEvent::UserCommand(c) => {
                    &&& action matches WorkerAction::Write(frames)
                    &&& string_views(frames@) == seq![c@ + seq!['\r', '\n']]
                    &&& final(self).last_poll_ms == old(self).last_poll_ms
                    &&& final(self).params@ == old(self).params@
                },
                WorkerEvent::LineRead(line) => {
                    &&& action matches WorkerAction::Publish(records)
                    &&& records_view(records@) == line_records(line@, old(self).plots@)
                    &&& final(self).last_poll_ms == old(self).last_poll_ms
                    &&& final(self).params@ == old(self).params@
                },
            },
    {
        match event {
            WorkerEvent::StopRequested => WorkerAction::Finish,
            WorkerEvent::OutputFailed => WorkerAction::Finish,
            WorkerEvent::ParamsReplaced(p) => {
                self.params = p;
                WorkerAction::Continue
            },
            WorkerEvent::Clock(now) => {
                if now >= self.last_poll_ms && now - self.last_poll_ms >= self.polling_interval_ms {
                    let frames = self.poll_frames();
                    WorkerAction::Write(frames)
                } else {
                    WorkerAction::Continue
                }
            },
            WorkerEvent::PollWritten(done) => {
                self.last_poll_ms = done;
                WorkerAction::Continue
            },
            WorkerEvent::UserCommand(c) => {
                let mut frames: Vec<String> = Vec::new();
                frames.push(frame_command(c.as_str()));
                assert(string_views(frames@) =~= seq![c@ + seq!['\r', '\n']]);
                WorkerAction::Write(frames)
            },
            WorkerEvent::LineRead(line) => {
                let records = recognize_line(line.as_str(), &self.plots);
                WorkerAction::Publish(records)
            },
        }
    }
}

} // verus!
