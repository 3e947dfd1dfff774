use listening_report::error::PipelineError;
use listening_report::rank::rank;
use listening_report::recording::{Recording, RecordingWithLength};

fn played(name: &str, listen_count: usize, length: usize) -> RecordingWithLength {
    RecordingWithLength {
        recording: Recording {
            artist_name: "artist".to_string(),
            release_name: "release".to_string(),
            track_name: name.to_string(),
            recording_mbid: Some(format!("id-{name}")),
            listen_count,
        },
        length,
    }
}

fn names(ranked: &[RecordingWithLength]) -> Vec<String> {
    ranked.iter().map(|item| item.recording.track_name.clone()).collect()
}

fn times(ranked: &[RecordingWithLength]) -> Vec<usize> {
    ranked.iter().map(|item| item.recording.listen_count * item.length).collect()
}

#[test]
fn listening_time_is_count_times_length() {
    assert_eq!(played("a", 3, 200_000).listening_time(), Ok(600_000));
    assert_eq!(played("b", 10, 100_000).listening_time(), Ok(1_000_000));
    assert_eq!(played("c", 0, 100_000).listening_time(), Ok(0));
    assert_eq!(played("d", 5, 0).listening_time(), Ok(0));
    assert_eq!(played("e", 1, usize::MAX).listening_time(), Ok(usize::MAX));
}

#[test]
fn listening_time_that_does_not_fit_is_an_error() {
    assert_eq!(played("a", 2, usize::MAX).listening_time(), Err(PipelineError::Computation));
    assert_eq!(
        played("b", usize::MAX, usize::MAX).listening_time(),
        Err(PipelineError::Computation)
    );
    assert_eq!(
        played("c", usize::MAX / 2 + 1, 2).listening_time(),
        Err(PipelineError::Computation)
    );
}

#[test]
fn more_listens_of_a_shorter_track_can_rank_first() {
    let a = played("A", 3, 200_000);
    let b = played("B", 10, 100_000);
    let ranked = rank(vec![a.clone(), b.clone()]).unwrap();
    assert_eq!(ranked, vec![b, a]);
    assert_eq!(times(&ranked), vec![1_000_000, 600_000]);
}

#[test]
fn rank_of_nothing_is_nothing() {
    assert_eq!(rank(vec![]), Ok(vec![]));
}

#[test]
fn rank_of_one_is_that_one() {
    let only = played("only", 4, 1000);
    assert_eq!(rank(vec![only.clone()]), Ok(vec![only]));
}

#[test]
fn rank_sorts_longest_first() {
    let input = vec![
        played("c", 1, 300),
        played("a", 5, 1000),
        played("e", 1, 1),
        played("b", 2, 1000),
        played("d", 10, 20),
    ];
    let ranked = rank(input).unwrap();
    assert_eq!(names(&ranked), vec!["a", "b", "c", "d", "e"]);
    assert_eq!(times(&ranked), vec![5000, 2000, 300, 200, 1]);
}

#[test]
fn rank_keeps_ties_in_the_order_given() {
    let input = vec![
        played("first", 2, 300),
        played("top", 9, 900),
        played("second", 3, 200),
        played("third", 6, 100),
        played("low", 1, 1),
        played("fourth", 1, 600),
    ];
    let ranked = rank(input).unwrap();
    assert_eq!(names(&ranked), vec!["top", "first", "second", "third", "fourth", "low"]);
}

#[test]
fn rank_drops_and_adds_nothing() {
    let input = vec![
        played("x", 2, 300),
        played("y", 2, 300),
        played("x", 2, 300),
        played("z", 0, 0),
        played("w", 7, 7),
    ];
    let mut ranked = rank(input.clone()).unwrap();
    assert_eq!(ranked.len(), input.len());
    for item in &input {
        let at = ranked.iter().position(|other| other == item).unwrap();
        ranked.remove(at);
    }
    assert!(ranked.is_empty());
}

#[test]
fn rank_of_reversed_input_with_distinct_times_is_the_same() {
    let input = vec![
        played("c", 1, 300),
        played("a", 5, 1000),
        played("e", 1, 1),
        played("b", 2, 1000),
        played("d", 10, 20),
    ];
    let mut reversed = input.clone();
    reversed.reverse();
    assert_eq!(rank(input), rank(reversed));
}

#[test]
fn rank_of_reversed_input_shows_the_same_times() {
    let input = vec![
        played("p", 2, 300),
        played("q", 3, 200),
        played("r", 9, 900),
        played("s", 6, 100),
        played("t", 1, 1),
    ];
    let mut reversed = input.clone();
    reversed.reverse();
    let forward = rank(input).unwrap();
    let backward = rank(reversed).unwrap();
    assert_eq!(times(&forward), times(&backward));
    assert_eq!(times(&forward), vec![8100, 600, 600, 600, 1]);
    assert_eq!(names(&forward), vec!["r", "p", "q", "s", "t"]);
    assert_eq!(names(&backward), vec!["r", "s", "q", "p", "t"]);
}

#[test]
fn rank_is_unchanged_by_ranking_again() {
    let input = vec![played("p", 2, 300), played("q", 3, 200), played("r", 9, 900)];
    let once = rank(input).unwrap();
    let twice = rank(once.clone()).unwrap();
    assert_eq!(once, twice);
}

#[test]
fn rank_refuses_a_listening_time_that_does_not_fit() {
    let input = vec![played("fine", 2, 300), played("huge", usize::MAX, 2), played("ok", 1, 1)];
    assert_eq!(rank(input), Err(PipelineError::Computation));
    assert_eq!(rank(vec![played("huge", 3, usize::MAX / 2)]), Err(PipelineError::Computation));
}

#[test]
fn rank_accepts_the_largest_time_that_fits() {
    let input = vec![played("small", 1, 1), played("largest", usize::MAX, 1)];
    let ranked = rank(input).unwrap();
    assert_eq!(names(&ranked), vec!["largest", "small"]);
}
