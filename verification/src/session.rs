//! The batch placement session: a line-oriented dialogue that places classes
//! until a blank line ends it. The session is a state machine; whoever reads
//! the lines hands them to `step` one by one and shows the notices it gives.

use vstd::prelude::*;
use vstd::string::*;
use crate::grid::with_placement;
use crate::registry::{find_name, names_of};
use crate::request::{placement_of, Refusal, RefusalView};
use crate::text::{
    decimal, decimal_string, parse_number, parsed, same_text, split, split_on, strings_view,
    texts, trim, trimmed,
};
use crate::timetable::{Timetable, TimetableView};

verus! {

/// Where a session stands.
#[derive(Debug, Clone, Copy, PartialEq, Eq, Structural)]
pub enum SessionState {
    /// The next line is a request, or the blank line that ends the session.
    AwaitingLine,
    /// A series is open: the next line names the class for `period` on `day`,
    /// and the series runs up to `end`, which is not included.
    AwaitingSeriesClass { day: usize, period: usize, end: usize },
    /// The session is over.
    Finished,
}

/// What a session has to say to its user.
#[derive(Debug)]
pub enum Notice {
    /// The opening prompt, which shows the form of a request.
    Grammar,
    /// A series was opened.
    SeriesStart,
    /// A series ran to its end.
    SeriesFinish,
    /// The class for `period` is asked for.
    Prompt { period: usize },
    /// A line did not have the form of a request.
    IncorrectFormat,
    /// A day or a period was not a number.
    InvalidNumber,
    /// The registry has no class of this name.
    NoSuchClass { name: String },
    /// A two-part line did not start with the name of a known shorthand.
    UnknownSpecial { name: String },
}

/// A notice as plain text.
pub enum NoticeView {
    Grammar,
    SeriesStart,
    SeriesFinish,
    Prompt { period: usize },
    IncorrectFormat,
    InvalidNumber,
    NoSuchClass { name: Seq<char> },
    UnknownSpecial { name: Seq<char> },
}

impl View for Notice {
    type V = NoticeView;

    open spec fn view(&self) -> NoticeView {
        match self {
            Notice::Grammar => NoticeView::Grammar,
            Notice::SeriesStart => NoticeView::SeriesStart,
            Notice::SeriesFinish => NoticeView::SeriesFinish,
            Notice::Prompt { period } => NoticeView::Prompt { period: *period },
            Notice::IncorrectFormat => NoticeView::IncorrectFormat,
            Notice::InvalidNumber => NoticeView::InvalidNumber,
            Notice::NoSuchClass { name } => NoticeView::NoSuchClass { name: name@ },
            Notice::UnknownSpecial { name } => NoticeView::UnknownSpecial { name: name@ },
        }
    }
}

/// The words of a notice.
pub open spec fn message_of(notice: NoticeView) -> Seq<char> {
    match notice {
        NoticeView::Grammar => "[Class name],[Day],[Period]:"@,
        NoticeView::SeriesStart => "Series Start"@,
        NoticeView::SeriesFinish => "Series Finish"@,
        NoticeView::Prompt { period } => decimal(period as nat) + ":"@,
        NoticeView::IncorrectFormat => "Incorrect format (use `[class name],[day],[period]`)"@,
        NoticeView::InvalidNumber => "Day or period is in invalid format (must be a number)!"@,
        NoticeView::NoSuchClass { name } => "No class called "@ + name + "!"@,
        NoticeView::UnknownSpecial { name } => "Unknown special series element "@ + name,
    }
}

impl Notice {
    /// Whether the notice reports a line that could not be carried out, and
    /// so belongs on the error channel.
    pub fn is_error(&self) -> (error: bool)
        ensures
            error == (self@ is IncorrectFormat || self@ is InvalidNumber || self@ is NoSuchClass
                || self@ is UnknownSpecial),
    {
        match self {
            Notice::IncorrectFormat => true,
            Notice::InvalidNumber => true,
            Notice::NoSuchClass { .. } => true,
            Notice::UnknownSpecial { .. } => true,
            _ => false,
        }
    }

    /// The words of the notice, as they are shown to the user.
    pub fn message(&self) -> (text: String)
        ensures
            text@ == message_of(self@),
    {
        match self {
            Notice::Grammar => String::from_str("[Class name],[Day],[Period]:"),
            Notice::SeriesStart => String::from_str("Series Start"),
            Notice::SeriesFinish => String::from_str("Series Finish"),
            Notice::Prompt { period } => {
                let mut text = decimal_string(*period);
                text.append(":");
                text
            },
            Notice::IncorrectFormat => String::from_str(
                "Incorrect format (use `[class name],[day],[period]`)",
            ),
            Notice::InvalidNumber => String::from_str(
                "Day or period is in invalid format (must be a number)!",
            ),
            Notice::NoSuchClass { name } => {
                let mut text = String::from_str("No class called ");
                text.append(name.as_str());
                text.append("!");
                text
            },
            Notice::UnknownSpecial { name } => {
                let mut text = String::from_str("Unknown special series element ");
                text.append(name.as_str());
                text
            },
        }
    }
}

/// The views of a sequence of notices.
pub open spec fn notices_view(notices: Seq<Notice>) -> Seq<NoticeView> {
    Seq::new(notices.len(), |i: int| notices[i]@)
}

/// The outcome of a step, or of a run of steps: the state reached, the
/// notices to show, in order, and whether a class was placed.
#[derive(Debug)]
pub struct Step {
    pub state: SessionState,
    pub notices: Vec<Notice>,
    pub placed: bool,
}

/// The outcome of a step as mathematical values, with the timetable that the
/// step leaves.
pub struct StepView {
    pub timetable: TimetableView,
    pub state: SessionState,
    pub notices: Seq<NoticeView>,
    pub placed: bool,
}

/// The notice that reports a refusal.
pub open spec fn refusal_notice(refusal: RefusalView) -> NoticeView {
    match refusal {
        RefusalView::IncorrectFormat => NoticeView::IncorrectFormat,
        RefusalView::NoSuchClass { name } => NoticeView::NoSuchClass { name },
        RefusalView::InvalidNumber => NoticeView::InvalidNumber,
    }
}

/// The timetable `t` with `class` placed at (`day`, `period`).
pub open spec fn placed(t: TimetableView, class: usize, day: usize, period: usize)
    -> TimetableView {
    TimetableView { classes: t.classes, grid: with_placement(t.grid, class, day, period) }
}

/// A step that changes nothing and says `notice`.
pub open spec fn said(t: TimetableView, state: SessionState, notice: NoticeView) -> StepView {
    StepView { timetable: t, state, notices: seq![notice], placed: false }
}

/// The step on a line that starts the shorthand for a series. `range` holds
/// a day, a first period and an end, separated by single spaces; what
/// follows the third number is not read. The series asks for the class of
/// each period from the first up to the end, which is not included.
pub open spec fn series_opened(t: TimetableView, range: Seq<char>) -> StepView {
    let parts = split(range, ' ');
    if parts.len() < 3 {
        said(t, SessionState::AwaitingLine, NoticeView::IncorrectFormat)
    } else {
        match (parsed(parts[0]), parsed(parts[1]), parsed(parts[2])) {
            (Some(day), Some(first), Some(end)) => if first < end {
                StepView {
                    timetable: t,
                    state: SessionState::AwaitingSeriesClass { day, period: first, end },
                    notices: seq![NoticeView::SeriesStart, NoticeView::Prompt { period: first }],
                    placed: false,
                }
            } else {
                StepView {
                    timetable: t,
                    state: SessionState::AwaitingLine,
                    notices: seq![NoticeView::SeriesStart, NoticeView::SeriesFinish],
                    placed: false,
                }
            },
            _ => said(t, SessionState::AwaitingLine, NoticeView::InvalidNumber),
        }
    }
}

/// The step on a line that names the class for `period` of an open series.
/// An unknown name is reported and the same period is asked for again; a
/// known one is placed, and the series goes on to the next period or ends.
pub open spec fn series_answered(
    t: TimetableView,
    day: usize,
    period: usize,
    end: usize,
    name: Seq<char>,
) -> StepView {
    match find_name(names_of(t.classes), name) {
        None => StepView {
            timetable: t,
            state: SessionState::AwaitingSeriesClass { day, period, end },
            notices: seq![NoticeView::NoSuchClass { name }, NoticeView::Prompt { period }],
            placed: false,
        },
        Some(class) => if period + 1 < end {
            StepView {
                timetable: placed(t, class as usize, day, period),
                state: SessionState::AwaitingSeriesClass {
                    day,
                    period: (period + 1) as usize,
                    end,
                },
                notices: seq![NoticeView::Prompt { period: (period + 1) as usize }],
                placed: true,
            }
        } else {
            StepView {
                timetable: placed(t, class as usize, day, period),
                state: SessionState::AwaitingLine,
                notices: seq![NoticeView::SeriesFinish],
                placed: true,
            }
        },
    }
}

/// The step on a line that is read as a request. A line of two parts is a
/// shorthand, of which `period series` is the only one; any other line is a
/// placement request.
pub open spec fn request_handled(t: TimetableView, input: Seq<char>) -> StepView {
    let parts = split(input, ',');
    if parts.len() == 2 {
        if parts[0] == "period series"@ {
            series_opened(t, parts[1])
        } else {
            said(t, SessionState::AwaitingLine, NoticeView::UnknownSpecial { name: parts[0] })
        }
    } else {
        match placement_of(names_of(t.classes), input) {
            Ok(p) => StepView {
                timetable: placed(t, p.class, p.day, p.period),
                state: SessionState::AwaitingLine,
                notices: Seq::empty(),
                placed: true,
            },
            Err(refusal) => said(t, SessionState::AwaitingLine, refusal_notice(refusal)),
        }
    }
}

/// One step of the session: what the line `line` does in state `state`. The
/// line is read without the white space around it. A blank line ends a
/// session that awaits a request; a finished session ignores its input.
pub open spec fn step_of(t: TimetableView, state: SessionState, line: Seq<char>) -> StepView {
    let input = trimmed(line);
    match state {
        SessionState::Finished => StepView {
            timetable: t,
            state,
            notices: Seq::empty(),
            placed: false,
        },
        SessionState::AwaitingSeriesClass { day, period, end } => series_answered(
            t,
            day,
            period,
            end,
            input,
        ),
        SessionState::AwaitingLine => if input.len() == 0 {
            StepView {
                timetable: t,
                state: SessionState::Finished,
                notices: Seq::empty(),
                placed: false,
            }
        } else {
            request_handled(t, input)
        },
    }
}

/// A run of steps over `lines`, from `state`, with `notices` already given
/// and `placed` telling whether a class was placed before. The run stops at
/// the end of the lines or when the session is finished, whichever comes
/// first; it has placed a class if one of its steps has.
pub open spec fn run_of(
    t: TimetableView,
    state: SessionState,
    lines: Seq<Seq<char>>,
    notices: Seq<NoticeView>,
    placed: bool,
) -> StepView
    decreases lines.len(),
{
    if lines.len() == 0 || state is Finished {
        StepView { timetable: t, state, notices, placed }
    } else {
        let step = step_of(t, state, lines[0]);
        run_of(
            step.timetable,
            step.state,
            lines.drop_first(),
            notices + step.notices,
            placed || step.placed,
        )
    }
}

/// Whether `step` and the timetable `after` are what `expected` describes.
pub open spec fn is_step(step: Step, after: TimetableView, expected: StepView) -> bool {
    &&& after.classes == expected.timetable.classes
    &&& after.grid == expected.timetable.grid
    &&& step.state == expected.state
    &&& notices_view(step.notices@) == expected.notices
    &&& step.placed == expected.placed
}

/// A step that gives one notice.
fn say(state: SessionState, notice: Notice, placed: bool) -> (step: Step)
    ensures
        step.state == state,
        notices_view(step.notices@) == seq![notice@],
        step.placed == placed,
{
    let mut notices: Vec<Notice> = Vec::new();
    notices.push(notice);
    assert(notices_view(notices@) =~= seq![notice@]);
    Step { state, notices, placed }
}

/// A step that gives no notice.
fn silent(state: SessionState, placed: bool) -> (step: Step)
    ensures
        step.state == state,
        notices_view(step.notices@) == Seq::<NoticeView>::empty(),
        step.placed == placed,
{
    let step = Step { state, notices: Vec::new(), placed };
    assert(notices_view(step.notices@) =~= Seq::<NoticeView>::empty());
    step
}

/// A step that places nothing and gives two notices.
fn say_both(state: SessionState, first: Notice, second: Notice) -> (step: Step)
    ensures
        step.state == state,
        notices_view(step.notices@) == seq![first@, second@],
        !step.placed,
{
    let mut notices: Vec<Notice> = Vec::new();
    notices.push(first);
    notices.push(second);
    assert(notices_view(notices@) =~= seq![first@, second@]);
    Step { state, notices, placed: false }
}

/// The notice that reports `refusal`.
fn notice_of(refusal: Refusal) -> (notice: Notice)
    ensures
        notice@ == refusal_notice(refusal@),
{
    match refusal {
        Refusal::IncorrectFormat => Notice::IncorrectFormat,
        Refusal::NoSuchClass { name } => Notice::NoSuchClass { name },
        Refusal::InvalidNumber => Notice::InvalidNumber,
    }
}

/// Opens a series from its range, `day first end`.
fn open_series(timetable: &Timetable, range: &str) -> (step: Step)
    ensures
        is_step(step, timetable@, series_opened(timetable@, range@)),
{
    let parts = split_on(range, ' ');
    if parts.len() < 3 {
        return say(SessionState::AwaitingLine, Notice::IncorrectFormat, false);
    }
    assert(texts(parts@)[0] == parts@[0]@);
    assert(texts(parts@)[1] == parts@[1]@);
    assert(texts(parts@)[2] == parts@[2]@);
    let day = parse_number(parts[0]);
    let first = parse_number(parts[1]);
    let end = parse_number(parts[2]);
    match (day, first, end) {
        (Some(day), Some(first), Some(end)) => {
            if first < end {
                say_both(
                    SessionState::AwaitingSeriesClass { day, period: first, end },
                    Notice::SeriesStart,
                    Notice::Prompt { period: first },
                )
            } else {
                say_both(SessionState::AwaitingLine, Notice::SeriesStart, Notice::SeriesFinish)
            }
        },
        _ => say(SessionState::AwaitingLine, Notice::InvalidNumber, false),
    }
}

/// Takes the name of the class for `period` of an open series.
fn answer_series(timetable: &mut Timetable, day: usize, period: usize, end: usize, name: &str)
    -> (step: Step)
    ensures
        is_step(step, final(timetable)@, series_answered(old(timetable)@, day, period, end, name@)),
{
    match timetable.class_index_from_name(name) {
        None => say_both(
            SessionState::AwaitingSeriesClass { day, period, end },
            Notice::NoSuchClass { name: name.to_owned() },
            Notice::Prompt { period },
        ),
        Some(class) => {
            timetable.add_period(class, day, period);
            if period < end && period + 1 < end {
                say(
                    SessionState::AwaitingSeriesClass { day, period: period + 1, end },
                    Notice::Prompt { period: period + 1 },
                    true,
                )
            } else {
                say(SessionState::AwaitingLine, Notice::SeriesFinish, true)
            }
        },
    }
}

/// Handles a line that is read as a request.
fn handle_request(timetable: &mut Timetable, input: &str) -> (step: Step)
    ensures
        is_step(step, final(timetable)@, request_handled(old(timetable)@, input@)),
{
    let parts = split_on(input, ',');
    if parts.len() == 2 {
        assert(texts(parts@)[0] == parts@[0]@);
        assert(texts(parts@)[1] == parts@[1]@);
        if same_text(parts[0], "period series") {
            open_series(timetable, parts[1])
        } else {
            say(
                SessionState::AwaitingLine,
                Notice::UnknownSpecial { name: parts[0].to_owned() },
                false,
            )
        }
    } else {
        match timetable.place_request(input) {
            Ok(_) => silent(SessionState::AwaitingLine, true),
            Err(refusal) => say(SessionState::AwaitingLine, notice_of(refusal), false),
        }
    }
}

/// Takes one line of input in state `state`: changes the timetable as the
/// line asks, and gives the state that follows with the notices to show.
pub fn step(timetable: &mut Timetable, state: SessionState, line: &str) -> (step: Step)
    ensures
        is_step(step, final(timetable)@, step_of(old(timetable)@, state, line@)),
{
    let input = trim(line);
    match state {
        SessionState::Finished => silent(state, false),
        SessionState::AwaitingSeriesClass { day, period, end } => answer_series(
            timetable,
            day,
            period,
            end,
            input,
        ),
        SessionState::AwaitingLine => {
            if input.is_empty() {
                silent(SessionState::Finished, false)
            } else {
                handle_request(timetable, input)
            }
        },
    }
}

/// Runs a session over `lines`: gives the opening prompt, then takes the
/// lines in order until one ends the session or none is left.
pub fn mass_add(timetable: &mut Timetable, lines: &Vec<String>) -> (session: Step)
    ensures
        is_step(
            session,
            final(timetable)@,
            run_of(
                old(timetable)@,
                SessionState::AwaitingLine,
                strings_view(lines@),
                seq![NoticeView::Grammar],
                false,
            ),
        ),
{
    let ghost texts = strings_view(lines@);
    let ghost goal = run_of(
        timetable@,
        SessionState::AwaitingLine,
        texts,
        seq![NoticeView::Grammar],
        false,
    );
    let mut state = SessionState::AwaitingLine;
    let mut notices: Vec<Notice> = Vec::new();
    let mut placed = false;
    notices.push(Notice::Grammar);
    assert(notices_view(notices@) =~= seq![NoticeView::Grammar]);
    let mut i: usize = 0;
    assert(texts.skip(0) =~= texts);
    while i < lines.len() && state != SessionState::Finished
        invariant
            i <= lines.len(),
            texts == strings_view(lines@),
            goal == run_of(
                timetable@,
                state,
                texts.skip(i as int),
                notices_view(notices@),
                placed,
            ),
        decreases lines.len() - i,
    {
        let ghost before = notices_view(notices@);
        let ghost rest = texts.skip(i as int);
        assert(rest[0] == lines@[i as int]@);
        assert(rest.drop_first() =~= texts.skip(i + 1));
        let mut taken = step(timetable, state, lines[i].as_str());
        state = taken.state;
        placed = placed || taken.placed;
        let ghost given = notices_view(taken.notices@);
        notices.append(&mut taken.notices);
        assert(notices_view(notices@) =~= before + given);
        i = i + 1;
    }
    Step { state, notices, placed }
}

} // verus!
