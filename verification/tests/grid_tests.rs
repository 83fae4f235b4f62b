//! Direct tests of the date-grouping and position functions.

use foot_info::grid::{date_groups, flat_to_col_row, navigate, NavDir};
use foot_info::models::TopMatch;

fn top(date: &str) -> TopMatch {
    TopMatch {
        teams: "X - Y".to_string(),
        date: date.to_string(),
        time: "12:00".to_string(),
        match_url: "/m".to_string(),
    }
}

#[test]
fn test_date_groups_first_seen_order() {
    let tops = vec![top("Tue"), top("Mon"), top("Tue"), top("Wed"), top("Mon")];
    let groups = date_groups(&tops);
    assert_eq!(groups.len(), 3);
    assert_eq!(groups[0].0, "Tue");
    assert_eq!(groups[0].1, vec![0, 2]);
    assert_eq!(groups[1].0, "Mon");
    assert_eq!(groups[1].1, vec![1, 4]);
    assert_eq!(groups[2].0, "Wed");
    assert_eq!(groups[2].1, vec![3]);
}

#[test]
fn test_date_groups_empty_list() {
    let tops: Vec<TopMatch> = vec![];
    let groups = date_groups(&tops);
    assert!(groups.is_empty());
}

#[test]
fn test_flat_to_col_row_finds_position() {
    let tops = vec![top("Mon"), top("Mon"), top("Tue")];
    let groups = date_groups(&tops);
    assert_eq!(flat_to_col_row(&groups, 0), Some((0, 0)));
    assert_eq!(flat_to_col_row(&groups, 1), Some((0, 1)));
    assert_eq!(flat_to_col_row(&groups, 2), Some((1, 0)));
    assert_eq!(flat_to_col_row(&groups, 3), None);
}

#[test]
fn test_navigate_left_right_round_trip_when_not_clamped() {
    // Two columns of equal height: Left then Right returns to the start.
    let tops = vec![top("Mon"), top("Mon"), top("Tue"), top("Tue")];
    let mid = navigate(&tops, 3, NavDir::Left);
    assert_eq!(mid, 1);
    let back = navigate(&tops, mid, NavDir::Right);
    assert_eq!(back, 3);
}

#[test]
fn test_navigate_down_up_round_trip_when_not_clamped() {
    let tops = vec![top("Mon"), top("Mon"), top("Tue")];
    let down = navigate(&tops, 0, NavDir::Down);
    assert_eq!(down, 1);
    let up = navigate(&tops, down, NavDir::Up);
    assert_eq!(up, 0);
}

#[test]
fn test_navigate_into_shorter_column_lands_on_last_row() {
    // Mon has three rows, Tue only one: Right from Mon row 2 clamps to Tue row 0.
    let tops = vec![top("Mon"), top("Mon"), top("Mon"), top("Tue")];
    let r = navigate(&tops, 2, NavDir::Right);
    assert_eq!(r, 3);
}

#[test]
fn test_navigate_interleaved_dates_moves_within_column() {
    // The Mon column holds flat indices 0 and 2; Down jumps over the Tue entry.
    let tops = vec![top("Mon"), top("Tue"), top("Mon")];
    let r = navigate(&tops, 0, NavDir::Down);
    assert_eq!(r, 2);
}

#[test]
fn test_navigate_out_of_range_selection_stays() {
    let tops = vec![top("Mon")];
    assert_eq!(navigate(&tops, 5, NavDir::Down), 5);
}
