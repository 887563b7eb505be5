use tristimg::dataset::{read_dataset, read_hdf5_data, DatasetRead, Event, Query, EVENT_ID};
use tristimg::error::Error;

/// Reads `keys` from a file that holds the datasets `held`, as a caller with
/// the file in hand would, and counts how often the file was asked.
fn read_from(
    held: &[(&str, Vec<i64>)],
    keys: &[&str],
    asked: &mut usize,
) -> Result<Vec<Vec<i64>>, Error> {
    let mut query = read_hdf5_data::<i64>(keys);
    loop {
        match query {
            Query::Complete(data) => return Ok(data),
            Query::Pending(pending) => {
                *asked += 1;
                let key = pending.key();
                let outcome = match held.iter().find(|(name, _)| *name == key) {
                    Some((_, values)) => DatasetRead::Values(values.clone()),
                    None => DatasetRead::Absent,
                };
                query = pending.answered(outcome)?;
            }
        }
    }
}

#[test]
fn datasets_come_back_in_the_order_of_the_keys() {
    let held = [("a", vec![1, 2]), ("b", vec![3]), ("c", vec![])];
    let mut asked = 0;
    assert_eq!(
        read_from(&held, &["c", "a", "b"], &mut asked),
        Ok(vec![vec![], vec![1, 2], vec![3]])
    );
    assert_eq!(asked, 3);
}

#[test]
fn a_key_asked_twice_is_read_twice() {
    let held = [("a", vec![1, 2])];
    let mut asked = 0;
    assert_eq!(
        read_from(&held, &["a", "a"], &mut asked),
        Ok(vec![vec![1, 2], vec![1, 2]])
    );
}

#[test]
fn no_keys_give_no_datasets() {
    let mut asked = 0;
    assert_eq!(read_from(&[], &[], &mut asked), Ok(vec![]));
    assert_eq!(asked, 0);
}

#[test]
fn no_keys_complete_at_once() {
    assert!(matches!(read_hdf5_data::<u8>(&[]), Query::Complete(data) if data.is_empty()));
}

#[test]
fn missing_key_is_named_in_the_error() {
    let held = [("event_id", vec![7, 8, 9])];
    let mut asked = 0;
    assert_eq!(
        read_from(&held, &["event_id", "missing_key"], &mut asked),
        Err(Error::DatasetNotFound("missing_key".to_string()))
    );
}

#[test]
fn first_missing_key_ends_the_read() {
    let held = [("b", vec![1])];
    let mut asked = 0;
    assert_eq!(
        read_from(&held, &["b", "x", "y", "b"], &mut asked),
        Err(Error::DatasetNotFound("x".to_string()))
    );
    assert_eq!(asked, 2);
}

#[test]
fn a_failed_read_leaves_the_next_file_alone() {
    let first = [("event_id", vec![1])];
    let second = [("event_id", vec![2]), ("missing_key", vec![3])];
    let keys = ["event_id", "missing_key"];
    let mut asked = 0;
    assert!(read_from(&first, &keys, &mut asked).is_err());
    assert_eq!(read_from(&second, &keys, &mut asked), Ok(vec![vec![2], vec![3]]));
}

#[test]
fn pending_key_follows_the_answers() {
    let keys = ["x", "y"];
    let Query::Pending(first) = read_hdf5_data::<u8>(&keys) else {
        panic!("two keys are pending");
    };
    assert_eq!(first.key(), "x");
    let Ok(Query::Pending(second)) = first.answered(DatasetRead::Values(vec![1])) else {
        panic!("one key is still pending");
    };
    assert_eq!(second.key(), "y");
    let Ok(Query::Complete(data)) = second.answered(DatasetRead::Values(vec![2, 3])) else {
        panic!("both keys were answered");
    };
    assert_eq!(data, vec![vec![1], vec![2, 3]]);
}

#[test]
fn unreadable_dataset_ends_the_read_with_its_cause() {
    let keys = ["x", "y"];
    let Query::Pending(first) = read_hdf5_data::<u8>(&keys) else {
        panic!("two keys are pending");
    };
    let result = first.answered(DatasetRead::Unreadable("type mismatch".to_string()));
    assert!(matches!(result, Err(Error::Hdf5(cause)) if cause == "type mismatch"));
}

#[test]
fn read_dataset_hands_on_the_values() {
    assert_eq!(read_dataset("k", DatasetRead::Values(vec![4u16, 5])), Ok(vec![4, 5]));
}

#[test]
fn read_dataset_names_the_absent_dataset() {
    assert_eq!(
        read_dataset::<u32>("position", DatasetRead::Absent),
        Err(Error::DatasetNotFound("position".to_string()))
    );
}

#[test]
fn read_dataset_reports_why_a_dataset_is_unreadable() {
    assert_eq!(
        read_dataset::<u32>("k", DatasetRead::Unreadable("ndim mismatch".to_string())),
        Err(Error::Hdf5("ndim mismatch".to_string()))
    );
}

#[test]
fn read_event_gives_the_event_ids() {
    assert_eq!(Event::read_event(DatasetRead::Values(vec![10, 11, 12])), Ok(vec![10, 11, 12]));
}

#[test]
fn read_event_without_the_dataset() {
    assert_eq!(
        Event::read_event(DatasetRead::Absent),
        Err(Error::DatasetNotFound("event_id".to_string()))
    );
    assert_eq!(EVENT_ID, "event_id");
}

#[test]
fn read_event_with_an_unreadable_dataset() {
    assert_eq!(
        Event::read_event(DatasetRead::Unreadable("bad type".to_string())),
        Err(Error::Hdf5("bad type".to_string()))
    );
}

#[test]
fn error_messages() {
    assert_eq!(
        Error::Hdf5("no such file".to_string()).message(),
        "Error encountered when reading from Hdf5: no such file"
    );
    assert_eq!(Error::NoFileStem.message(), "Could not determine stem of NeXus file");
    assert_eq!(
        Error::NoParentDirecory.message(),
        "Could not determine parent direcotry of NeXus file"
    );
    assert_eq!(
        Error::DatasetNotFound("event_id".to_string()).message(),
        "Dataset event_id not found in file"
    );
}
