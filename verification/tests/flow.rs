use yurei::flow::{step, Command, Event, Notice, State, Step};
use yurei::types::{Action, Selection, VideoFormat, VideoItem};
use yurei::youtube::{search_window, SearchWindow};

fn words(items: &[&str]) -> Vec<String> {
    items.iter().map(|s| s.to_string()).collect()
}

fn video(id: &str) -> VideoItem {
    VideoItem {
        title: "T".to_string(),
        channel: "C".to_string(),
        duration: "1:00".to_string(),
        id: id.to_string(),
        thumbnail: String::new(),
    }
}

fn format(id: &str) -> VideoFormat {
    VideoFormat {
        resolution: "1080p".to_string(),
        ext: "mp4".to_string(),
        fps: 30,
        id: id.to_string(),
        vcodec: "avc1".to_string(),
    }
}

fn paging(query: &str, page: u64) -> State {
    State::PagingResults { query: query.to_string(), page }
}

fn browsing(query: &str, page: u64) -> State {
    State::Browsing { query: query.to_string(), page }
}

fn search(query: &str, page: u64, notice: Option<Notice>) -> Option<Step> {
    Some(Step {
        state: paging(query, page),
        notice,
        command: Command::Search { query: query.to_string(), page },
    })
}

fn stop(notice: Option<Notice>) -> Option<Step> {
    Some(Step { state: State::Done, notice, command: Command::Stop })
}

fn follow(state: State, event: Event) -> Step {
    assert!(state.admits(&event));
    step(state, event).unwrap()
}

#[test]
fn a_session_begins_at_the_start() {
    assert_eq!(State::start(), State::Start);
    assert!(!State::start().is_done());
    assert!(State::Done.is_done());
}

#[test]
fn a_query_on_the_command_line_starts_the_search() {
    assert_eq!(
        step(State::start(), Event::Arguments(words(&["lofi", "hip", "hop"]))),
        search("lofi hip hop", 1, None)
    );
}

#[test]
fn without_a_query_the_user_is_asked() {
    assert_eq!(
        step(State::start(), Event::Arguments(words(&[]))),
        Some(Step { state: State::AwaitingQuery, notice: None, command: Command::Prompt })
    );
    assert_eq!(
        step(State::start(), Event::Arguments(words(&[""]))),
        Some(Step { state: State::AwaitingQuery, notice: None, command: Command::Prompt })
    );
}

#[test]
fn a_typed_query_is_trimmed() {
    assert_eq!(step(State::AwaitingQuery, Event::Typed("  lofi \n".to_string())), search("lofi", 1, None));
}

#[test]
fn an_empty_typed_query_ends_the_session_quietly() {
    assert_eq!(step(State::AwaitingQuery, Event::Typed("\n".to_string())), stop(None));
    assert_eq!(step(State::AwaitingQuery, Event::Typed(String::new())), stop(None));
}

#[test]
fn next_page_then_back_fetches_both_pages_anew() {
    // "lofi": page 1 holds 10 results
    let s = follow(State::start(), Event::Arguments(words(&["lofi"])));
    assert_eq!(s.command, Command::Search { query: "lofi".to_string(), page: 1 });
    assert_eq!(search_window(1), SearchWindow { limit: 10, start: 1, end: 10 });
    let s = follow(s.state, Event::Results(10));
    assert_eq!(s.command, Command::PickVideo { page: 1 });
    assert_eq!(s.notice, None);
    // next page: page 2 is fetched, with the window 11 to 20
    let s = follow(s.state, Event::Picked(Selection::NextPage));
    assert_eq!(s.command, Command::Search { query: "lofi".to_string(), page: 2 });
    assert_eq!(search_window(2), SearchWindow { limit: 20, start: 11, end: 20 });
    let s = follow(s.state, Event::Results(10));
    assert_eq!(s.command, Command::PickVideo { page: 2 });
    // the page before: page 1 is fetched once more
    let s = follow(s.state, Event::Picked(Selection::PrevPage));
    assert_eq!(s.command, Command::Search { query: "lofi".to_string(), page: 1 });
    assert_eq!(s.state, paging("lofi", 1));
}

#[test]
fn no_results_on_the_first_page_end_the_session() {
    let s = follow(paging("zzzz", 1), Event::Results(0));
    assert_eq!(s.state, State::Done);
    assert_eq!(s.notice, Some(Notice::NoResults));
    assert_eq!(s.command, Command::Stop);
}

#[test]
fn the_page_before_a_short_third_page_is_the_second() {
    let s = follow(paging("lofi", 3), Event::Results(5));
    assert_eq!(s.state, browsing("lofi", 3));
    assert_eq!(s.command, Command::PickVideo { page: 3 });
    let s = follow(s.state, Event::Picked(Selection::PrevPage));
    assert_eq!(s.state, paging("lofi", 2));
    assert_eq!(s.command, Command::Search { query: "lofi".to_string(), page: 2 });
}

#[test]
fn a_cancelled_format_picker_ends_the_session() {
    let s = follow(browsing("lofi", 1), Event::Picked(Selection::Video(video("abc"))));
    assert_eq!(
        s.command,
        Command::FetchFormats { url: "https://www.youtube.com/watch?v=abc".to_string() }
    );
    let s = follow(s.state, Event::Formats(4));
    assert_eq!(s.command, Command::PickFormat);
    let s = follow(s.state, Event::FormatPicked(None));
    assert_eq!(s.state, State::Done);
    assert_eq!(s.command, Command::Stop);
    assert_eq!(s.notice, None);
}

#[test]
fn an_empty_later_page_leads_back() {
    assert_eq!(step(paging("lofi", 4), Event::Results(0)), search("lofi", 3, Some(Notice::NoResults)));
    assert_eq!(step(paging("lofi", 2), Event::Results(0)), search("lofi", 1, Some(Notice::NoResults)));
}

#[test]
fn the_page_before_the_first_is_the_first() {
    assert_eq!(step(browsing("lofi", 1), Event::Picked(Selection::PrevPage)), search("lofi", 1, None));
}

#[test]
fn quit_ends_the_session() {
    assert_eq!(step(browsing("lofi", 5), Event::Picked(Selection::Quit)), stop(None));
}

#[test]
fn a_video_without_formats_ends_the_session_with_a_notice() {
    let chosen = State::VideoChosen { url: "u".to_string() };
    assert_eq!(step(chosen, Event::Formats(0)), stop(Some(Notice::NoFormats)));
}

#[test]
fn a_chosen_format_leads_to_the_actions() {
    let s = follow(State::ChoosingFormat { url: "u".to_string() }, Event::FormatPicked(Some(format("137"))));
    assert_eq!(s.state, State::ChoosingAction { url: "u".to_string(), format_id: "137".to_string() });
    assert_eq!(s.command, Command::PickAction);
}

#[test]
fn a_chosen_action_is_run_and_the_session_ends() {
    for action in [Action::Stream, Action::Download] {
        let state = State::ChoosingAction { url: "u".to_string(), format_id: "137".to_string() };
        let s = follow(state, Event::ActionPicked(Some(action)));
        assert_eq!(s.state, State::Running);
        assert_eq!(
            s.command,
            Command::Run { action, url: "u".to_string(), format_id: "137".to_string() }
        );
        assert_eq!(step(s.state, Event::Finished), stop(None));
    }
}

#[test]
fn no_action_ends_the_session() {
    let state = State::ChoosingAction { url: "u".to_string(), format_id: "137".to_string() };
    assert_eq!(step(state, Event::ActionPicked(None)), stop(None));
}

#[test]
fn an_event_that_a_state_does_not_wait_for_is_refused() {
    assert_eq!(step(State::Done, Event::Finished), None);
    assert_eq!(step(State::Start, Event::Results(3)), None);
    assert_eq!(step(State::AwaitingQuery, Event::Arguments(words(&["a"]))), None);
    assert_eq!(step(paging("q", 1), Event::Picked(Selection::NextPage)), None);
    assert_eq!(step(browsing("q", 1), Event::Results(3)), None);
    assert_eq!(step(State::Running, Event::Formats(1)), None);
    assert_eq!(step(State::VideoChosen { url: "u".to_string() }, Event::FormatPicked(None)), None);
    assert_eq!(step(State::ChoosingFormat { url: "u".to_string() }, Event::ActionPicked(None)), None);
}

#[test]
fn the_last_page_has_no_next() {
    let last = u64::MAX / 10;
    assert!(browsing("q", last - 1).admits(&Event::Picked(Selection::NextPage)));
    assert!(!browsing("q", last).admits(&Event::Picked(Selection::NextPage)));
    assert!(browsing("q", last).admits(&Event::Picked(Selection::PrevPage)));
    assert!(browsing("q", last).admits(&Event::Picked(Selection::Quit)));
    assert_eq!(
        step(browsing("q", last - 1), Event::Picked(Selection::NextPage)),
        search("q", last, None)
    );
}

#[test]
fn a_state_with_a_page_out_of_range_admits_nothing() {
    assert!(!paging("q", 0).admits(&Event::Results(1)));
    assert!(!browsing("q", 0).admits(&Event::Picked(Selection::Quit)));
    assert!(!paging("q", u64::MAX).admits(&Event::Results(1)));
    assert!(State::Start.admits(&Event::Finished));
}
