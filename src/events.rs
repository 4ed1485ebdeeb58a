//! Events relayed from Studio: the listener's session filter and the loop
//! that turns the event stream into an exit status.
use vstd::prelude::*;

use crate::error::RunError;
use crate::text::{same_text, split_first_line, split_line};

verus! {

/// The level of a line of output.
#[derive(Clone, Copy, Debug, PartialEq, Eq, Structural)]
pub enum OutputLevel {
    Print,
    Info,
    Warning,
    Error,
}

/// How a line of output is shown.
#[derive(Clone, Copy, Debug, PartialEq, Eq, Structural)]
pub enum Style {
    Plain,
    Cyan,
    Yellow,
    Red,
}

/// One message posted to the listener by the plugin.
pub struct Submission {
    pub session_id: String,
    pub level: Option<OutputLevel>,
    pub text: Option<String>,
    pub terminate: bool,
}

pub struct SubmissionView {
    pub session_id: Seq<char>,
    pub level: Option<OutputLevel>,
    pub text: Option<Seq<char>>,
    pub terminate: bool,
}

impl View for Submission {
    type V = SubmissionView;

    open spec fn view(&self) -> SubmissionView {
        SubmissionView {
            session_id: self.session_id@,
            level: self.level,
            text: match self.text {
                Some(t) => Some(t@),
                None => None,
            },
            terminate: self.terminate,
        }
    }
}

/// An event of the run, as the result loop receives it.
pub enum Event {
    Output { level: OutputLevel, body: String },
    Terminate,
}

pub enum EventView {
    Output { level: OutputLevel, body: Seq<char> },
    Terminate,
}

impl View for Event {
    type V = EventView;

    open spec fn view(&self) -> EventView {
        match self {
            Event::Output { level, body } => EventView::Output { level: *level, body: body@ },
            Event::Terminate => EventView::Terminate,
        }
    }
}

/// A line to show to the user.
pub struct Line {
    pub level: OutputLevel,
    pub style: Style,
    pub text: String,
}

pub struct LineView {
    pub level: OutputLevel,
    pub style: Style,
    pub text: Seq<char>,
}

impl View for Line {
    type V = LineView;

    open spec fn view(&self) -> LineView {
        LineView { level: self.level, style: self.style, text: self.text@ }
    }
}

pub open spec fn spec_style(level: OutputLevel) -> Style {
    match level {
        OutputLevel::Print => Style::Plain,
        OutputLevel::Info => Style::Cyan,
        OutputLevel::Warning => Style::Yellow,
        OutputLevel::Error => Style::Red,
    }
}

/// The style a line of the given level is shown in.
pub fn style_of(level: OutputLevel) -> (r: Style)
    ensures
        r == spec_style(level),
{
    match level {
        OutputLevel::Print => Style::Plain,
        OutputLevel::Info => Style::Cyan,
        OutputLevel::Warning => Style::Yellow,
        OutputLevel::Error => Style::Red,
    }
}

/// The level a message kind names, if it names one.
pub open spec fn level_named(kind: Seq<char>) -> Option<OutputLevel> {
    if kind == "Print"@ {
        Some(OutputLevel::Print)
    } else if kind == "Info"@ {
        Some(OutputLevel::Info)
    } else if kind == "Warning"@ {
        Some(OutputLevel::Warning)
    } else if kind == "Error"@ {
        Some(OutputLevel::Error)
    } else {
        None
    }
}

/// The submission that a message body `<session id>\n<kind>\n<text>`
/// stands for. A body without a kind line is an incomplete submission, and
/// so is one whose kind names no level and is not `Terminate`.
pub open spec fn parsed(body: Seq<char>) -> SubmissionView {
    let (id, rest) = split_line(body);
    match rest {
        None => SubmissionView { session_id: id, level: None, text: None, terminate: false },
        Some(r) => {
            let (kind, text) = split_line(r);
            SubmissionView {
                session_id: id,
                level: level_named(kind),
                text,
                terminate: kind == "Terminate"@,
            }
        },
    }
}

fn parse_level(kind: &str) -> (r: Option<OutputLevel>)
    ensures
        r == level_named(kind@),
{
    if same_text(kind, "Print") {
        Some(OutputLevel::Print)
    } else if same_text(kind, "Info") {
        Some(OutputLevel::Info)
    } else if same_text(kind, "Warning") {
        Some(OutputLevel::Warning)
    } else if same_text(kind, "Error") {
        Some(OutputLevel::Error)
    } else {
        None
    }
}

/// Reads a message body posted by the plugin.
pub fn parse_submission(body: &str) -> (r: Submission)
    ensures
        r@ == parsed(body@),
{
    let (id, rest) = split_first_line(body);
    match rest {
        None => Submission { session_id: id, level: None, text: None, terminate: false },
        Some(r) => {
            let (kind, text) = split_first_line(r.as_str());
            let level = parse_level(kind.as_str());
            let terminate = same_text(kind.as_str(), "Terminate");
            Submission { session_id: id, level, text, terminate }
        },
    }
}

/// The event a submission stands for, if it belongs to session `expected`
/// and is complete; `None` if it is to be dropped.
pub open spec fn event_of(s: SubmissionView, expected: Seq<char>) -> Option<EventView> {
    if s.session_id != expected {
        None
    } else if s.terminate {
        Some(EventView::Terminate)
    } else if s.level is Some && s.text is Some {
        Some(EventView::Output { level: s.level->0, body: s.text->0 })
    } else {
        None
    }
}

/// The events forwarded for a sequence of submissions, received in this
/// order by a listener for session `expected` that is `closed` (shut down,
/// or past a `Terminate`) or not.
pub open spec fn forwarded(subs: Seq<SubmissionView>, expected: Seq<char>, closed: bool) -> Seq<
    EventView,
>
    decreases subs.len(),
{
    if subs.len() == 0 || closed {
        Seq::empty()
    } else {
        match event_of(subs[0], expected) {
            None => forwarded(subs.drop_first(), expected, false),
            Some(e) => seq![e] + forwarded(subs.drop_first(), expected, e is Terminate),
        }
    }
}

/// The lines shown for an event stream: one for each output event before
/// the first `Terminate`.
pub open spec fn rendered(evs: Seq<EventView>) -> Seq<LineView>
    decreases evs.len(),
{
    if evs.len() == 0 {
        Seq::empty()
    } else {
        match evs[0] {
            EventView::Terminate => Seq::empty(),
            EventView::Output { level, body } => seq![
                LineView { level, style: spec_style(level), text: body },
            ] + rendered(evs.drop_first()),
        }
    }
}

/// The exit code for an event stream: `None` where no `Terminate` comes,
/// else 1 if an error line comes before the first `Terminate`, else 0.
pub open spec fn exit_status(evs: Seq<EventView>) -> Option<i32>
    decreases evs.len(),
{
    if evs.len() == 0 {
        None
    } else {
        match evs[0] {
            EventView::Terminate => Some(0),
            EventView::Output { level, body } => match exit_status(evs.drop_first()) {
                None => None,
                Some(c) => Some(if level == OutputLevel::Error { 1 } else { c }),
            },
        }
    }
}

/// The result a finished run reports.
pub open spec fn run_result(evs: Seq<EventView>) -> Result<i32, RunError> {
    match exit_status(evs) {
        Some(c) => Ok(c),
        None => Err(RunError::ProcessEnded),
    }
}

pub open spec fn views_of(lines: Seq<Line>) -> Seq<LineView> {
    lines.map_values(|l: Line| l@)
}

pub open spec fn event_views(evs: Seq<Event>) -> Seq<EventView> {
    evs.map_values(|e: Event| e@)
}

pub open spec fn submission_views(subs: Seq<Submission>) -> Seq<SubmissionView> {
    subs.map_values(|s: Submission| s@)
}

fn copy_string(s: &String) -> (r: String)
    ensures
        r@ == s@,
{
    s.clone()
}

/// The listener's state for one session.
pub struct Transport {
    pub session_id: String,
    pub terminated: bool,
    pub listening: bool,
}

impl Transport {
    pub open spec fn closed(&self) -> bool {
        self.terminated || !self.listening
    }

    /// A listener that accepts the events of session `session_id`.
    pub fn new(session_id: &str) -> (r: Transport)
        ensures
            r.session_id@ == session_id@,
            !r.terminated,
            r.listening,
    {
        Transport { session_id: String::from_str(session_id), terminated: false, listening: true }
    }

    /// Handles one submission: returns the event to put on the queue, or
    /// `None` where the submission belongs to another session, is
    /// incomplete, or comes after the end of the session or after shutdown.
    pub fn submit(&mut self, sub: &Submission) -> (r: Option<Event>)
        ensures
            final(self).session_id@ == old(self).session_id@,
            final(self).listening == old(self).listening,
            old(self).closed() ==> r is None && final(self).terminated == old(self).terminated,
            !old(self).closed() ==> match event_of(sub@, old(self).session_id@) {
                None => r is None && final(self).terminated == old(self).terminated,
                Some(e) => r is Some && r->0@ == e && final(self).terminated == (e is Terminate),
            },
    {
        if self.terminated || !self.listening {
            return None;
        }
        if sub.session_id != self.session_id {
            return None;
        }
        if sub.terminate {
            self.terminated = true;
            return Some(Event::Terminate);
        }
        match (&sub.level, &sub.text) {
            (Some(level), Some(text)) => Some(Event::Output { level: *level, body: copy_string(text) }),
            _ => None,
        }
    }

    /// Stops accepting submissions. Shutting down a listener that is
    /// already shut down changes nothing.
    pub fn shutdown(&mut self)
        ensures
            !final(self).listening,
            final(self).session_id@ == old(self).session_id@,
            final(self).terminated == old(self).terminated,
            !old(self).listening ==> *final(self) == *old(self),
    {
        self.listening = false;
    }

    /// Handles submissions in the order they were received, and returns the
    /// events forwarded for them, in that order.
    pub fn relay(&mut self, subs: &Vec<Submission>) -> (r: Vec<Event>)
        ensures
            event_views(r@) == forwarded(submission_views(subs@), old(self).session_id@, old(self).closed()),
            final(self).session_id@ == old(self).session_id@,
            final(self).listening == old(self).listening,
    {
        let mut out: Vec<Event> = Vec::new();
        let mut i: usize = 0;
        let ghost all = submission_views(subs@);
        let ghost expected = old(self).session_id@;
        assert(all.subrange(0, all.len() as int) =~= all);
        assert(event_views(out@) =~= Seq::<EventView>::empty());
        assert(Seq::<EventView>::empty() + forwarded(all, expected, self.closed()) =~= forwarded(all, expected, self.closed()));
        while i < subs.len()
            invariant
                i <= subs@.len(),
                all == submission_views(subs@),
                self.session_id@ == expected,
                self.listening == old(self).listening,
                event_views(out@) + forwarded(all.subrange(i as int, all.len() as int), expected, self.closed())
                    == forwarded(all, expected, old(self).closed()),
            decreases subs@.len() - i,
        {
            let ghost rest = all.subrange(i as int, all.len() as int);
            let ghost was_closed = self.closed();
            let ghost before = event_views(out@);
            assert(rest.drop_first() =~= all.subrange(i + 1, all.len() as int));
            assert(rest[0] == subs@[i as int]@);
            match self.submit(&subs[i]) {
                Some(e) => {
                    out.push(e);
                    assert(event_views(out@) =~= before + seq![e@]);
                },
                None => {},
            }
            proof {
                if was_closed {
                    assert(forwarded(rest.drop_first(), expected, self.closed()) =~= Seq::<EventView>::empty());
                    assert(forwarded(rest, expected, was_closed) =~= Seq::<EventView>::empty());
                }
            }
            i += 1;
            assert(event_views(out@) + forwarded(all.subrange(i as int, all.len() as int), expected, self.closed())
                =~= forwarded(all, expected, old(self).closed()));
        }
        assert(all.subrange(i as int, all.len() as int) =~= Seq::<SubmissionView>::empty());
        assert(event_views(out@) + Seq::<EventView>::empty() =~= event_views(out@));
        out
    }
}

/// The exit code once a flag of 0 or 1 is combined with the rest of the
/// stream's status.
pub open spec fn merged(flag: i32, rest: Option<i32>) -> Option<i32> {
    match rest {
        None => None,
        Some(c) => Some(if flag == 1 { 1 } else { c }),
    }
}

/// The state of the loop that consumes the event queue.
pub struct ResultLoop {
    pub exit_code: i32,
    pub done: bool,
}

impl ResultLoop {
    pub fn new() -> (r: ResultLoop)
        ensures
            r.exit_code == 0,
            !r.done,
    {
        ResultLoop { exit_code: 0, done: false }
    }

    /// Takes one event: an output event gives the line to show and sets the
    /// exit code to 1 if it is an error; `Terminate` ends the loop.
    pub fn step(&mut self, event: &Event) -> (r: Option<Line>)
        requires
            !old(self).done,
        ensures
            match event@ {
                EventView::Terminate => r is None && final(self).done && final(self).exit_code
                    == old(self).exit_code,
                EventView::Output { level, body } => r is Some && r->0@ == (LineView {
                    level,
                    style: spec_style(level),
                    text: body,
                }) && !final(self).done && final(self).exit_code == (if level == OutputLevel::Error {
                    1i32
                } else {
                    old(self).exit_code
                }),
            },
    {
        match event {
            Event::Terminate => {
                self.done = true;
                None
            },
            Event::Output { level, body } => {
                if *level == OutputLevel::Error {
                    self.exit_code = 1;
                }
                Some(Line { level: *level, style: style_of(*level), text: copy_string(body) })
            },
        }
    }
}

/// Consumes an event stream: the lines to show, in order, and the run's
/// result, which is an error where the stream ends before a `Terminate`.
pub fn drain(events: &Vec<Event>) -> (r: (Vec<Line>, Result<i32, RunError>))
    ensures
        views_of(r.0@) == rendered(event_views(events@)),
        r.1 == run_result(event_views(events@)),
{
    let ghost evs = event_views(events@);
    let mut state = ResultLoop::new();
    let mut lines: Vec<Line> = Vec::new();
    let mut i: usize = 0;
    assert(evs.subrange(0, evs.len() as int) =~= evs);
    assert(views_of(lines@) + rendered(evs) =~= rendered(evs));
    while i < events.len() && !state.done
        invariant
            i <= events@.len(),
            evs == event_views(events@),
            state.exit_code == 0 || state.exit_code == 1,
            !state.done ==> views_of(lines@) + rendered(evs.subrange(i as int, evs.len() as int))
                == rendered(evs),
            !state.done ==> exit_status(evs) == merged(
                state.exit_code,
                exit_status(evs.subrange(i as int, evs.len() as int)),
            ),
            state.done ==> views_of(lines@) == rendered(evs),
            state.done ==> exit_status(evs) == Some(state.exit_code),
        decreases events@.len() - i,
    {
        let ghost rest = evs.subrange(i as int, evs.len() as int);
        let ghost before = views_of(lines@);
        let ghost flag = state.exit_code;
        assert(rest.drop_first() =~= evs.subrange(i + 1, evs.len() as int));
        assert(rest[0] == events@[i as int]@);
        match state.step(&events[i]) {
            Some(line) => {
                lines.push(line);
                assert(views_of(lines@) =~= before + seq![line@]);
                assert(views_of(lines@) + rendered(evs.subrange(i + 1, evs.len() as int))
                    =~= before + rendered(rest));
            },
            None => {
                assert(before + rendered(rest) =~= before);
            },
        }
        i += 1;
    }
    proof {
        if !state.done {
            assert(evs.subrange(i as int, evs.len() as int) =~= Seq::<EventView>::empty());
            assert(views_of(lines@) + Seq::<LineView>::empty() =~= views_of(lines@));
        }
    }
    if state.done {
        (lines, Ok(state.exit_code))
    } else {
        (lines, Err(RunError::ProcessEnded))
    }
}

/// The exit code of the process for a run's result: the script's exit code,
/// or 2 where the run produced no result.
pub fn exit_code(result: &Result<i32, RunError>) -> (r: i32)
    ensures
        r == match result {
            Ok(c) => *c,
            Err(_) => 2i32,
        },
{
    match result {
        Ok(c) => *c,
        Err(_) => 2,
    }
}

/// A complete output submission of session `expected`.
pub open spec fn is_output_of(s: SubmissionView, expected: Seq<char>) -> bool {
    &&& s.session_id == expected
    &&& !s.terminate
    &&& s.level is Some
    &&& s.text is Some
}

/// The line shown for an output submission.
pub open spec fn line_of(s: SubmissionView) -> LineView {
    LineView { level: s.level->0, style: spec_style(s.level->0), text: s.text->0 }
}

/// Which submissions are complete outputs of session `expected`.
pub open spec fn outputs_of(expected: Seq<char>) -> spec_fn(SubmissionView) -> bool {
    |s: SubmissionView| is_output_of(s, expected)
}

/// The number of submissions before the first `Terminate` of session
/// `expected`; all of them where none comes.
pub open spec fn end_of(subs: Seq<SubmissionView>, expected: Seq<char>) -> int
    decreases subs.len(),
{
    if subs.len() == 0 {
        0
    } else if subs[0].session_id == expected && subs[0].terminate {
        0
    } else {
        1 + end_of(subs.drop_first(), expected)
    }
}

/// Each complete output submission of the current session that comes before
/// its first `Terminate` is shown exactly once, as its text in the style of
/// its level, in the order received; nothing else is shown.
pub proof fn lemma_outputs_shown_in_order(subs: Seq<SubmissionView>, expected: Seq<char>)
    ensures
        0 <= end_of(subs, expected) <= subs.len(),
        rendered(forwarded(subs, expected, false)) == subs.subrange(0, end_of(subs, expected)).filter(
            outputs_of(expected),
        ).map_values(|s: SubmissionView| line_of(s)),
    decreases subs.len(),
{
    let p = outputs_of(expected);
    if subs.len() == 0 || (subs[0].session_id == expected && subs[0].terminate) {
        let none = subs.subrange(0, 0);
        assert(none =~= Seq::<SubmissionView>::empty());
        none.lemma_filter_len(p);
        assert(none.filter(p).map_values(|s: SubmissionView| line_of(s)) =~= Seq::<LineView>::empty());
        if subs.len() > 0 {
            let fw = forwarded(subs, expected, false);
            assert(fw == seq![EventView::Terminate] + forwarded(subs.drop_first(), expected, true));
            assert(fw[0] == EventView::Terminate);
        }
    } else {
        let rest = subs.drop_first();
        lemma_outputs_shown_in_order(rest, expected);
        let er = end_of(rest, expected);
        let x = subs[0];
        assert(subs.subrange(0, er + 1) =~= seq![x] + rest.subrange(0, er));
        rest.subrange(0, er).lemma_filter_prepend(x, p);
        let tail = rest.subrange(0, er).filter(p);
        if is_output_of(x, expected) {
            let e = event_of(x, expected)->0;
            let fw = forwarded(subs, expected, false);
            assert(fw == seq![e] + forwarded(rest, expected, false));
            assert(fw.drop_first() =~= forwarded(rest, expected, false));
            assert((seq![x] + tail).map_values(|s: SubmissionView| line_of(s)) =~= seq![line_of(x)]
                + tail.map_values(|s: SubmissionView| line_of(s)));
        } else {
            assert(Seq::<SubmissionView>::empty() + tail =~= tail);
        }
    }
}

/// A submission of another session is never seen: wherever it comes among
/// the submissions, the forwarded events are those without it.
pub proof fn lemma_foreign_session_invisible(
    subs: Seq<SubmissionView>,
    x: SubmissionView,
    k: int,
    expected: Seq<char>,
    closed: bool,
)
    requires
        x.session_id != expected,
        0 <= k <= subs.len(),
    ensures
        forwarded(subs.insert(k, x), expected, closed) == forwarded(subs, expected, closed),
    decreases k,
{
    let all = subs.insert(k, x);
    if k == 0 {
        assert(all.drop_first() =~= subs);
    } else {
        assert(all[0] == subs[0]);
        assert(all.drop_first() =~= subs.drop_first().insert(k - 1, x));
        lemma_foreign_session_invisible(subs.drop_first(), x, k - 1, expected, false);
        lemma_foreign_session_invisible(subs.drop_first(), x, k - 1, expected, true);
    }
}

} // verus!
