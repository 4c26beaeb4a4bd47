use session_sync::merge::contains_i32;
use session_sync::merge::contains_string;
use session_sync::merge::dedup_append_i32;
use session_sync::merge::dedup_append_string;
use session_sync::merge::merge_attendees;
use session_sync::merge::merge_ontheday;
use session_sync::merge::new_attendees;
use session_sync::merge::new_ontheday;
use session_sync::merge::sort_i32_vec;

fn strings(v: &[&str]) -> Vec<String> {
    v.iter().map(|s| s.to_string()).collect()
}

#[test]
fn merge_attendees_sorts_and_dedups() {
    let merged = merge_attendees(&vec![2], &vec![3, 1, 3]);
    assert_eq!(merged, vec![1, 2, 3]);
}

#[test]
fn merge_attendees_idempotent() {
    let once = merge_attendees(&vec![5, 9], &vec![0, 9, 4]);
    let twice = merge_attendees(&once, &vec![0, 9, 4]);
    let thrice = merge_attendees(&twice, &vec![0, 9, 4]);
    assert_eq!(once, vec![0, 4, 5, 9]);
    assert_eq!(twice, once);
    assert_eq!(thrice, once);
}

#[test]
fn merge_attendees_from_empty() {
    let merged = merge_attendees(&Vec::new(), &vec![4, 2]);
    assert_eq!(merged, vec![2, 4]);
}

#[test]
fn merge_ontheday_keeps_first_seen_order() {
    let cur = strings(&["guest-b", "guest-a"]);
    let inc = strings(&["guest-a", "guest-c", "guest-a"]);
    let merged = merge_ontheday(&cur, &inc);
    assert_eq!(merged, strings(&["guest-b", "guest-a", "guest-c"]));
}

#[test]
fn merge_ontheday_never_duplicates() {
    let cur = strings(&["guest-a"]);
    let merged = merge_ontheday(&cur, &strings(&["guest-a", "guest-a"]));
    assert_eq!(merged, strings(&["guest-a"]));
}

#[test]
fn new_attendees_is_the_unseen_delta() {
    let fresh = new_attendees(&vec![0, 2], &vec![0, 1, 2, 3]);
    assert_eq!(fresh, vec![1, 3]);
    let none = new_attendees(&vec![0, 1, 2, 3], &vec![1, 3]);
    assert!(none.is_empty());
}

#[test]
fn new_ontheday_is_the_unseen_delta() {
    let fresh = new_ontheday(&strings(&["guest-a"]), &strings(&["guest-a", "guest-b"]));
    assert_eq!(fresh, strings(&["guest-b"]));
}

#[test]
fn sort_copies_into_ascending_order() {
    let sorted = sort_i32_vec(&vec![4, -1, 3, 3, 0]);
    assert_eq!(sorted, vec![-1, 0, 3, 3, 4]);
}

#[test]
fn dedup_append_behaviour() {
    assert_eq!(dedup_append_i32(&vec![2, 1], &vec![1, 3, 2, 3]), vec![2, 1, 3]);
    assert_eq!(
        dedup_append_string(&strings(&["x"]), &strings(&["y", "x"])),
        strings(&["x", "y"])
    );
}

#[test]
fn membership_checks() {
    assert!(contains_i32(&vec![1, 2], 2));
    assert!(!contains_i32(&vec![1, 2], 3));
    assert!(contains_string(&strings(&["ab", "cd"]), "cd"));
    assert!(!contains_string(&strings(&["ab", "cd"]), "ce"));
}
