use solarscape::subscribers::{subscribe, subscribe_entity, unsubscribe, NoSuchEntity};

#[test]
fn a_new_subscriber_is_appended_once() {
    let mut subscribers = vec![4, 9];
    assert!(subscribe(&mut subscribers, 7));
    assert_eq!(subscribers, vec![4, 9, 7]);
    assert!(!subscribe(&mut subscribers, 9));
    assert!(!subscribe(&mut subscribers, 7));
    assert_eq!(subscribers, vec![4, 9, 7]);
}

#[test]
fn unsubscribing_removes_every_occurrence() {
    let mut subscribers = vec![3, 1, 3, 2];
    unsubscribe(&mut subscribers, 3);
    assert_eq!(subscribers, vec![1, 2]);
    unsubscribe(&mut subscribers, 8);
    assert_eq!(subscribers, vec![1, 2]);
}

#[test]
fn subscribe_then_unsubscribe_restores_the_list() {
    let mut subscribers = vec![5, 6];
    assert!(subscribe(&mut subscribers, 11));
    unsubscribe(&mut subscribers, 11);
    assert_eq!(subscribers, vec![5, 6]);
    assert!(subscribe(&mut subscribers, 11));
}

#[test]
fn subscribing_to_a_missing_entity_fails() {
    let mut missing: Option<Vec<usize>> = None;
    assert_eq!(subscribe_entity(&mut missing, 3), Err(NoSuchEntity));
    assert!(missing.is_none());
    let mut present = Some(vec![1]);
    assert_eq!(subscribe_entity(&mut present, 3), Ok(true));
    assert_eq!(subscribe_entity(&mut present, 3), Ok(false));
    assert_eq!(present, Some(vec![1, 3]));
}
