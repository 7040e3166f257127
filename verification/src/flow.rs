//! The course of a session, as a state machine.
//!
//! A session asks for a query, pages through the search results until a
//! video is chosen, asks for a format and an action, and runs the action.
//! The caller does what a `Command` says and reports what came of it as an
//! `Event`; `step` decides what follows.

use crate::text::{join_words, joined, trim, trimmed, views};
use crate::types::{Action, Selection, SelectionView, VideoFormat, VideoFormatView};
use crate::youtube::{page_fits, watch_address, watch_url, PAGE_SIZE};
use vstd::prelude::*;

verus! {

/// Where a session stands.
#[derive(Debug, PartialEq, Eq)]
pub enum State {
    /// Nothing has happened yet.
    Start,
    /// The command line held no query, and the user has been asked for one.
    AwaitingQuery,
    /// Page `page` of the results for `query` is being fetched.
    PagingResults { query: String, page: u64 },
    /// Page `page` is in front of the user.
    Browsing { query: String, page: u64 },
    /// A video is chosen, and its formats are being fetched.
    VideoChosen { url: String },
    /// The formats are in front of the user.
    ChoosingFormat { url: String },
    /// A format is chosen, and the actions are in front of the user.
    ChoosingAction { url: String, format_id: String },
    /// The player or the downloader is at work.
    Running,
    /// The session is over.
    Done,
}

/// What a `State` holds.
pub enum StateView {
    Start,
    AwaitingQuery,
    PagingResults { query: Seq<char>, page: u64 },
    Browsing { query: Seq<char>, page: u64 },
    VideoChosen { url: Seq<char> },
    ChoosingFormat { url: Seq<char> },
    ChoosingAction { url: Seq<char>, format_id: Seq<char> },
    Running,
    Done,
}

impl View for State {
    type V = StateView;

    open spec fn view(&self) -> StateView {
        match self {
            State::Start => StateView::Start,
            State::AwaitingQuery => StateView::AwaitingQuery,
            State::PagingResults { query, page } => StateView::PagingResults {
                query: query@,
                page: *page,
            },
            State::Browsing { query, page } => StateView::Browsing { query: query@, page: *page },
            State::VideoChosen { url } => StateView::VideoChosen { url: url@ },
            State::ChoosingFormat { url } => StateView::ChoosingFormat { url: url@ },
            State::ChoosingAction { url, format_id } => StateView::ChoosingAction {
                url: url@,
                format_id: format_id@,
            },
            State::Running => StateView::Running,
            State::Done => StateView::Done,
        }
    }
}

/// What came of the caller's work.
#[derive(Debug, PartialEq, Eq)]
pub enum Event {
    /// The words of the query on the command line.
    Arguments(Vec<String>),
    /// The line that the user typed when asked for a query.
    Typed(String),
    /// The page was fetched and holds so many results.
    Results(usize),
    /// The user's choice in the list of results.
    Picked(Selection),
    /// The formats were fetched, so many of them.
    Formats(usize),
    /// The user's choice in the list of formats.
    FormatPicked(Option<VideoFormat>),
    /// The user's choice in the list of actions.
    ActionPicked(Option<Action>),
    /// The player or the downloader has ended.
    Finished,
}

/// What an `Event` holds.
pub enum EventView {
    Arguments(Seq<Seq<char>>),
    Typed(Seq<char>),
    Results(usize),
    Picked(SelectionView),
    Formats(usize),
    FormatPicked(Option<VideoFormatView>),
    ActionPicked(Option<Action>),
    Finished,
}

impl View for Event {
    type V = EventView;

    open spec fn view(&self) -> EventView {
        match self {
            Event::Arguments(words) => EventView::Arguments(views(words@)),
            Event::Typed(line) => EventView::Typed(line@),
            Event::Results(n) => EventView::Results(*n),
            Event::Picked(s) => EventView::Picked(s@),
            Event::Formats(n) => EventView::Formats(*n),
            Event::FormatPicked(f) => EventView::FormatPicked(
                match f {
                    Some(f) => Some(f@),
                    None => None,
                },
            ),
            Event::ActionPicked(a) => EventView::ActionPicked(*a),
            Event::Finished => EventView::Finished,
        }
    }
}

/// What the caller is to do next.
#[derive(Debug, PartialEq, Eq)]
pub enum Command {
    /// Ask the user for a query.
    Prompt,
    /// Fetch page `page` of the results for `query`.
    Search { query: String, page: u64 },
    /// Show the results of page `page` and let the user choose.
    PickVideo { page: u64 },
    /// Fetch the formats of the video at `url`.
    FetchFormats { url: String },
    /// Show the formats and let the user choose.
    PickFormat,
    /// Show the actions and let the user choose.
    PickAction,
    /// Play or fetch the video at `url` in the format `format_id`.
    Run { action: Action, url: String, format_id: String },
    /// End the session.
    Stop,
}

/// What a `Command` holds.
pub enum CommandView {
    Prompt,
    Search { query: Seq<char>, page: u64 },
    PickVideo { page: u64 },
    FetchFormats { url: Seq<char> },
    PickFormat,
    PickAction,
    Run { action: Action, url: Seq<char>, format_id: Seq<char> },
    Stop,
}

impl View for Command {
    type V = CommandView;

    open spec fn view(&self) -> CommandView {
        match self {
            Command::Prompt => CommandView::Prompt,
            Command::Search { query, page } => CommandView::Search { query: query@, page: *page },
            Command::PickVideo { page } => CommandView::PickVideo { page: *page },
            Command::FetchFormats { url } => CommandView::FetchFormats { url: url@ },
            Command::PickFormat => CommandView::PickFormat,
            Command::PickAction => CommandView::PickAction,
            Command::Run { action, url, format_id } => CommandView::Run {
                action: *action,
                url: url@,
                format_id: format_id@,
            },
            Command::Stop => CommandView::Stop,
        }
    }
}

/// What the user is told when nothing was found.
#[derive(Clone, Copy, Debug, PartialEq, Eq, Structural)]
pub enum Notice {
    /// The page holds no results.
    NoResults,
    /// The video has no formats.
    NoFormats,
}

/// One move of the session: the state it reaches, what the user is told,
/// and what the caller is to do next.
#[derive(Debug, PartialEq, Eq)]
pub struct Step {
    pub state: State,
    pub notice: Option<Notice>,
    pub command: Command,
}

/// What a `Step` holds.
pub struct StepView {
    pub state: StateView,
    pub notice: Option<Notice>,
    pub command: CommandView,
}

impl View for Step {
    type V = StepView;

    open spec fn view(&self) -> StepView {
        StepView { state: self.state@, notice: self.notice, command: self.command@ }
    }
}

impl StateView {
    /// The page of a state that has one is a page that can be asked for.
    pub open spec fn well_formed(self) -> bool {
        match self {
            StateView::PagingResults { page, .. } => page_fits(page as int),
            StateView::Browsing { page, .. } => page_fits(page as int),
            _ => true,
        }
    }
}

/// Whether the session can follow `event` from `state`: there is a page
/// after the one in front of the user if the user asks for the next.
pub open spec fn has_room(state: StateView, event: EventView) -> bool {
    match (state, event) {
        (StateView::Browsing { page, .. }, EventView::Picked(SelectionView::NextPage)) => page_fits(
            page + 1,
        ),
        _ => true,
    }
}

/// The session ends with nothing to tell.
pub open spec fn stop() -> StepView {
    StepView { state: StateView::Done, notice: None, command: CommandView::Stop }
}

/// The session ends, and the user is told why.
pub open spec fn stop_with(notice: Notice) -> StepView {
    StepView { state: StateView::Done, notice: Some(notice), command: CommandView::Stop }
}

/// The session turns to page `page` of the results for `query`.
pub open spec fn fetch(query: Seq<char>, page: u64, notice: Option<Notice>) -> StepView {
    StepView {
        state: StateView::PagingResults { query, page },
        notice,
        command: CommandView::Search { query, page },
    }
}

/// What follows `event` in `state`; `None` where the event is not one that
/// the state waits for.
pub open spec fn next_step(state: StateView, event: EventView) -> Option<StepView> {
    match (state, event) {
        (StateView::Start, EventView::Arguments(words)) => Some(
            if joined(words).len() == 0 {
                StepView {
                    state: StateView::AwaitingQuery,
                    notice: None,
                    command: CommandView::Prompt,
                }
            } else {
                fetch(joined(words), 1, None)
            },
        ),
        (StateView::AwaitingQuery, EventView::Typed(line)) => Some(
            if trimmed(line).len() == 0 {
                stop()
            } else {
                fetch(trimmed(line), 1, None)
            },
        ),
        (StateView::PagingResults { query, page }, EventView::Results(n)) => Some(
            if n > 0 {
                StepView {
                    state: StateView::Browsing { query, page },
                    notice: None,
                    command: CommandView::PickVideo { page },
                }
            } else if page > 1 {
                fetch(query, (page - 1) as u64, Some(Notice::NoResults))
            } else {
                stop_with(Notice::NoResults)
            },
        ),
        (StateView::Browsing { query, page }, EventView::Picked(choice)) => Some(
            match choice {
                SelectionView::NextPage => fetch(query, (page + 1) as u64, None),
                SelectionView::PrevPage => fetch(
                    query,
                    if page > 1 {
                        (page - 1) as u64
                    } else {
                        1
                    },
                    None,
                ),
                SelectionView::Quit => stop(),
                SelectionView::Video(v) => StepView {
                    state: StateView::VideoChosen { url: watch_address(v.id) },
                    notice: None,
                    command: CommandView::FetchFormats { url: watch_address(v.id) },
                },
            },
        ),
        (StateView::VideoChosen { url }, EventView::Formats(n)) => Some(
            if n > 0 {
                StepView {
                    state: StateView::ChoosingFormat { url },
                    notice: None,
                    command: CommandView::PickFormat,
                }
            } else {
                stop_with(Notice::NoFormats)
            },
        ),
        (StateView::ChoosingFormat { url }, EventView::FormatPicked(choice)) => Some(
            match choice {
                Some(f) => StepView {
                    state: StateView::ChoosingAction { url, format_id: f.id },
                    notice: None,
                    command: CommandView::PickAction,
                },
                None => stop(),
            },
        ),
        (StateView::ChoosingAction { url, format_id }, EventView::ActionPicked(choice)) => Some(
            match choice {
                Some(action) => StepView {
                    state: StateView::Running,
                    notice: None,
                    command: CommandView::Run { action, url, format_id },
                },
                None => stop(),
            },
        ),
        (StateView::Running, EventView::Finished) => Some(stop()),
        _ => None,
    }
}

/// A session never leaves the pages that can be asked for, and it never
/// goes on once it is over.
pub proof fn lemma_session_stays_in_range(state: StateView, event: EventView)
    requires
        state.well_formed(),
        has_room(state, event),
    ensures
        next_step(state, event) matches Some(s) ==> s.state.well_formed(),
        state == StateView::Done ==> next_step(state, event) is None,
{
}

impl State {
    /// The state in which a session begins.
    pub fn start() -> (out: State)
        ensures
            out@ == StateView::Start,
            out@.well_formed(),
    {
        State::Start
    }

    /// Whether the session is over.
    pub fn is_done(&self) -> (yes: bool)
        ensures
            yes == (self@ == StateView::Done),
    {
        match self {
            State::Done => true,
            _ => false,
        }
    }

    /// Whether `step` can be asked what follows `event` in this state.
    pub fn admits(&self, event: &Event) -> (yes: bool)
        ensures
            yes == (self@.well_formed() && has_room(self@, event@)),
    {
        match self {
            State::PagingResults { page, .. } => 1 <= *page && *page <= u64::MAX / PAGE_SIZE,
            State::Browsing { page, .. } => {
                let fits = 1 <= *page && *page <= u64::MAX / PAGE_SIZE;
                match event {
                    Event::Picked(Selection::NextPage) => fits && *page < u64::MAX / PAGE_SIZE,
                    _ => fits,
                }
            },
            _ => true,
        }
    }
}

/// The step that ends the session.
fn stop_step(notice: Option<Notice>) -> (out: Step)
    ensures
        out@ == (StepView { state: StateView::Done, notice, command: CommandView::Stop }),
{
    Step { state: State::Done, notice, command: Command::Stop }
}

/// The step that turns to page `page` of the results for `query`.
fn fetch_step(query: String, page: u64, notice: Option<Notice>) -> (out: Step)
    ensures
        out@ == fetch(query@, page, notice),
{
    Step {
        state: State::PagingResults { query: query.clone(), page },
        notice,
        command: Command::Search { query, page },
    }
}

/// What follows `event` in `state`: the state that the session reaches,
/// what the user is told, and what the caller is to do next. An event that
/// the state does not wait for is answered with `None`.
pub fn step(state: State, event: Event) -> (out: Option<Step>)
    requires
        state@.well_formed(),
        has_room(state@, event@),
    ensures
        match out {
            Some(s) => next_step(state@, event@) == Some(s@) && s.state@.well_formed(),
            None => next_step(state@, event@) is None,
        },
{
    match (state, event) {
        (State::Start, Event::Arguments(words)) => {
            let query = join_words(&words);
            if query.as_str().is_empty() {
                Some(Step { state: State::AwaitingQuery, notice: None, command: Command::Prompt })
            } else {
                Some(fetch_step(query, 1, None))
            }
        },
        (State::AwaitingQuery, Event::Typed(line)) => {
            let query = trim(line.as_str());
            if query.as_str().is_empty() {
                Some(stop_step(None))
            } else {
                Some(fetch_step(query, 1, None))
            }
        },
        (State::PagingResults { query, page }, Event::Results(n)) => {
            if n > 0 {
                Some(
                    Step {
                        state: State::Browsing { query, page },
                        notice: None,
                        command: Command::PickVideo { page },
                    },
                )
            } else if page > 1 {
                Some(fetch_step(query, page - 1, Some(Notice::NoResults)))
            } else {
                Some(stop_step(Some(Notice::NoResults)))
            }
        },
        (State::Browsing { query, page }, Event::Picked(choice)) => {
            match choice {
                Selection::NextPage => Some(fetch_step(query, page + 1, None)),
                Selection::PrevPage => Some(
                    fetch_step(
                        query,
                        if page > 1 {
                            page - 1
                        } else {
                            1
                        },
                        None,
                    ),
                ),
                Selection::Quit => Some(stop_step(None)),
                Selection::Video(v) => {
                    let url = watch_url(v.id.as_str());
                    Some(
                        Step {
                            state: State::VideoChosen { url: url.clone() },
                            notice: None,
                            command: Command::FetchFormats { url },
                        },
                    )
                },
            }
        },
        (State::VideoChosen { url }, Event::Formats(n)) => {
            if n > 0 {
                Some(
                    Step {
                        state: State::ChoosingFormat { url },
                        notice: None,
                        command: Command::PickFormat,
                    },
                )
            } else {
                Some(stop_step(Some(Notice::NoFormats)))
            }
        },
        (State::ChoosingFormat { url }, Event::FormatPicked(choice)) => {
            match choice {
                Some(f) => Some(
                    Step {
                        state: State::ChoosingAction { url, format_id: f.id },
                        notice: None,
                        command: Command::PickAction,
                    },
                ),
                None => Some(stop_step(None)),
            }
        },
        (State::ChoosingAction { url, format_id }, Event::ActionPicked(choice)) => {
            match choice {
                Some(action) => Some(
                    Step {
                        state: State::Running,
                        notice: None,
                        command: Command::Run { action, url, format_id },
                    },
                ),
                None => Some(stop_step(None)),
            }
        },
        (State::Running, Event::Finished) => Some(stop_step(None)),
        _ => None,
    }
}

} // verus!
