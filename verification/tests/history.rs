use listening_report::error::PipelineError;
use listening_report::history::{
    history_request_path, page_status_is_success, HistoryFetch, PAGE_SIZE,
};
use listening_report::recording::Recording;
use listening_report::text::render_decimal;

fn numbered(from: usize, count: usize) -> Vec<Recording> {
    let mut page = Vec::new();
    for i in from..from + count {
        page.push(Recording {
            artist_name: format!("artist {i}"),
            release_name: format!("release {i}"),
            track_name: format!("track {i}"),
            recording_mbid: None,
            listen_count: 1000 - i,
        });
    }
    page
}

#[test]
fn decimal_rendering_of_small_and_large_numbers() {
    assert_eq!(render_decimal(0), "0");
    assert_eq!(render_decimal(7), "7");
    assert_eq!(render_decimal(9), "9");
    assert_eq!(render_decimal(10), "10");
    assert_eq!(render_decimal(100), "100");
    assert_eq!(render_decimal(1234567890), "1234567890");
    assert_eq!(render_decimal(usize::MAX), usize::MAX.to_string());
}

#[test]
fn decimal_rendering_agrees_with_the_standard_one() {
    let mut n: usize = 0;
    while n < 3000 {
        assert_eq!(render_decimal(n), n.to_string());
        n += 7;
    }
}

#[test]
fn page_size_is_one_hundred() {
    assert_eq!(PAGE_SIZE, 100);
}

#[test]
fn history_path_names_user_count_offset_and_range() {
    assert_eq!(
        history_request_path("liquidev", 0, "this_year"),
        "/stats/user/liquidev/recordings?count=100&offset=0&range=this_year"
    );
    assert_eq!(
        history_request_path("someone", 300, "all_time"),
        "/stats/user/someone/recordings?count=100&offset=300&range=all_time"
    );
}

#[test]
fn page_status_is_success_from_200_to_299_only() {
    assert!(page_status_is_success(200));
    assert!(page_status_is_success(204));
    assert!(page_status_is_success(299));
    assert!(!page_status_is_success(199));
    assert!(!page_status_is_success(300));
    assert!(!page_status_is_success(404));
    assert!(!page_status_is_success(429));
    assert!(!page_status_is_success(500));
    assert!(!page_status_is_success(503));
    assert!(!page_status_is_success(0));
    assert!(!page_status_is_success(u16::MAX));
}

#[test]
fn page_with_a_failure_status_fails_the_fetch() {
    let mut fetch = HistoryFetch::new(200);
    fetch.accept_page(numbered(0, 100));
    assert_eq!(fetch.next_offset(), Some(100));
    if !page_status_is_success(502) {
        fetch.page_failed();
    }
    assert_eq!(fetch.next_offset(), None);
    assert_eq!(fetch.into_recordings(), Err(PipelineError::Transport));
}

#[test]
fn offset_asked_for_is_the_number_collected() {
    let mut fetch = HistoryFetch::new(1000);
    let sizes: [usize; 5] = [100, 1, 99, 100, 37];
    let mut at = 0;
    for size in sizes {
        assert_eq!(fetch.next_offset(), Some(fetch.collected()));
        assert_eq!(fetch.next_offset(), Some(at));
        fetch.accept_page(numbered(at, size));
        at += size;
    }
    assert_eq!(fetch.next_offset(), Some(337));
}

#[test]
fn fetch_for_nothing_asks_for_nothing() {
    let fetch = HistoryFetch::new(0);
    assert_eq!(fetch.next_offset(), None);
    assert_eq!(fetch.into_recordings(), Ok(vec![]));
}

#[test]
fn fetch_starts_at_offset_zero() {
    let fetch = HistoryFetch::new(1);
    assert_eq!(fetch.next_offset(), Some(0));
    assert_eq!(fetch.collected(), 0);
}

#[test]
fn fetch_advances_by_what_each_page_held() {
    let mut fetch = HistoryFetch::new(250);
    assert_eq!(fetch.next_offset(), Some(0));
    fetch.accept_page(numbered(0, 100));
    assert_eq!(fetch.next_offset(), Some(100));
    fetch.accept_page(numbered(100, 60));
    assert_eq!(fetch.next_offset(), Some(160));
    fetch.accept_page(numbered(160, 100));
    assert_eq!(fetch.next_offset(), None);
    assert_eq!(fetch.collected(), 260);
    assert_eq!(fetch.into_recordings(), Ok(numbered(0, 260)));
}

#[test]
fn fetch_stops_as_soon_as_the_count_is_reached() {
    let mut fetch = HistoryFetch::new(100);
    fetch.accept_page(numbered(0, 100));
    assert_eq!(fetch.next_offset(), None);
    assert_eq!(fetch.into_recordings(), Ok(numbered(0, 100)));
}

#[test]
fn fetch_keeps_a_page_that_goes_beyond_the_count() {
    let mut fetch = HistoryFetch::new(5);
    fetch.accept_page(numbered(0, 100));
    assert_eq!(fetch.next_offset(), None);
    assert_eq!(fetch.into_recordings(), Ok(numbered(0, 100)));
}

#[test]
fn fetch_ends_on_an_empty_page_without_error() {
    let mut fetch = HistoryFetch::new(500);
    fetch.accept_page(numbered(0, 100));
    fetch.accept_page(numbered(100, 30));
    assert_eq!(fetch.next_offset(), Some(130));
    fetch.accept_page(vec![]);
    assert_eq!(fetch.next_offset(), None);
    assert_eq!(fetch.into_recordings(), Ok(numbered(0, 130)));
}

#[test]
fn fetch_of_an_empty_history_gives_no_recordings() {
    let mut fetch = HistoryFetch::new(10);
    fetch.accept_page(vec![]);
    assert_eq!(fetch.next_offset(), None);
    assert_eq!(fetch.into_recordings(), Ok(vec![]));
}

#[test]
fn fetch_ignores_pages_that_were_not_asked_for() {
    let mut fetch = HistoryFetch::new(50);
    fetch.accept_page(numbered(0, 50));
    fetch.accept_page(numbered(50, 50));
    assert_eq!(fetch.collected(), 50);
    let mut ended = HistoryFetch::new(50);
    ended.accept_page(vec![]);
    ended.accept_page(numbered(0, 10));
    assert_eq!(ended.collected(), 0);
    assert_eq!(ended.into_recordings(), Ok(vec![]));
}

#[test]
fn failed_page_gives_up_the_whole_fetch() {
    let mut fetch = HistoryFetch::new(300);
    fetch.accept_page(numbered(0, 100));
    fetch.page_failed();
    assert_eq!(fetch.next_offset(), None);
    assert_eq!(fetch.collected(), 0);
    fetch.accept_page(numbered(100, 100));
    assert_eq!(fetch.collected(), 0);
    assert_eq!(fetch.into_recordings(), Err(PipelineError::Transport));
}

#[test]
fn failure_after_the_end_still_gives_nothing() {
    let mut fetch = HistoryFetch::new(10);
    fetch.accept_page(numbered(0, 10));
    fetch.page_failed();
    assert_eq!(fetch.into_recordings(), Err(PipelineError::Transport));
}

#[test]
fn unfinished_fetch_gives_no_partial_result() {
    let mut fetch = HistoryFetch::new(300);
    fetch.accept_page(numbered(0, 100));
    assert_eq!(fetch.next_offset(), Some(100));
    assert_eq!(fetch.into_recordings(), Err(PipelineError::Transport));
}

#[test]
fn error_messages_tell_the_errors_apart() {
    assert_eq!(PipelineError::Transport.message(), "a request to a service failed");
    assert_eq!(PipelineError::Parse.message(), "a payload did not have the expected shape");
    assert_eq!(
        PipelineError::Metadata.message(),
        "the duration of a recording could not be resolved"
    );
    assert_eq!(
        PipelineError::Computation.message(),
        "a listening time exceeds the integer range"
    );
    assert_eq!(PipelineError::Config.message(), "a rule table is missing or malformed");
}
