use noseyparker::datastore::{Status, Statuses};

#[test]
fn status_spellings() {
    assert_eq!(Status::Accept.as_str(), "accept");
    assert_eq!(Status::Reject.as_str(), "reject");
    assert_eq!(Status::Accept.to_string(), "accept");
    assert_eq!(Status::Reject.to_string(), "reject");
}

#[test]
fn status_from_str_reads_the_two_spellings() {
    assert_eq!(Status::from_str("accept"), Ok(Status::Accept));
    assert_eq!(Status::from_str("reject"), Ok(Status::Reject));
}

#[test]
fn status_from_str_rejects_anything_else() {
    assert_eq!(Status::from_str(""), Err(()));
    assert_eq!(Status::from_str("Accept"), Err(()));
    assert_eq!(Status::from_str("accept "), Err(()));
    assert_eq!(Status::from_str("mixed"), Err(()));
}

#[test]
fn status_round_trip() {
    for status in [Status::Accept, Status::Reject] {
        assert_eq!(Status::from_str(status.as_str()), Ok(status));
    }
}

#[test]
fn statuses_keep_insertion_order() {
    let mut statuses = Statuses::new();
    assert_eq!(statuses.len(), 0);
    assert_eq!(statuses.get(0), None);
    statuses.push(Status::Reject);
    statuses.push(Status::Accept);
    statuses.push(Status::Reject);
    assert_eq!(statuses.len(), 3);
    assert_eq!(statuses.get(0), Some(Status::Reject));
    assert_eq!(statuses.get(1), Some(Status::Accept));
    assert_eq!(statuses.get(2), Some(Status::Reject));
    assert_eq!(statuses.get(3), None);
    assert_eq!(statuses.to_vec(), vec![Status::Reject, Status::Accept, Status::Reject]);
}

#[test]
fn statuses_grow_past_their_inline_size() {
    let items: Vec<Status> = (0..40)
        .map(|i| if i % 3 == 0 { Status::Accept } else { Status::Reject })
        .collect();
    let statuses = Statuses::from_vec(items.clone());
    assert_eq!(statuses.len(), 40);
    assert_eq!(statuses.to_vec(), items);
    assert_eq!(statuses.clone(), statuses);
    assert_eq!(Statuses::default(), Statuses::new());
}
