//! Reading named datasets out of a container file.
//!
//! The container is not touched from here: the caller asks it for one dataset
//! at a time and reports what it got as a [`DatasetRead`].

use crate::error::Error;
use vstd::prelude::*;

verus! {

/// What a container gave when it was asked for a named dataset.
#[derive(Debug)]
pub enum DatasetRead<T> {
    /// The dataset, as a one-dimensional array.
    Values(Vec<T>),
    /// The container holds no dataset of that name.
    Absent,
    /// The dataset is there, but could not be read as the type asked for; the
    /// text is what the container layer reported.
    Unreadable(String),
}

/// What the read of the dataset `name` comes to: its values, or the error that
/// says why there are none.
pub open spec fn dataset_result<T>(name: Seq<char>, outcome: DatasetRead<T>, result: Result<
    Vec<T>,
    Error,
>) -> bool {
    match outcome {
        DatasetRead::Values(values) => result == Ok::<Vec<T>, Error>(values),
        DatasetRead::Absent => result matches Err(Error::DatasetNotFound(missing)) && missing@
            == name,
        DatasetRead::Unreadable(cause) => result == Err::<Vec<T>, Error>(Error::Hdf5(cause)),
    }
}

/// Turns what the container gave for the dataset `name` into the values or
/// the error of the read.
pub fn read_dataset<T>(name: &str, outcome: DatasetRead<T>) -> (result: Result<Vec<T>, Error>)
    ensures
        dataset_result(name@, outcome, result),
{
    match outcome {
        DatasetRead::Values(values) => Ok(values),
        DatasetRead::Absent => Err(Error::DatasetNotFound(String::from_str(name))),
        DatasetRead::Unreadable(cause) => Err(Error::Hdf5(cause)),
    }
}

/// A read of several datasets from one file that is under way.
#[derive(Debug)]
pub struct DatasetQuery<'a, T> {
    /// The keys that were asked for.
    keys: &'a [&'a str],
    /// The arrays of the keys before the pending one.
    data: Vec<Vec<T>>,
}

/// How far a read of several datasets has come.
#[derive(Debug)]
pub enum Query<'a, T> {
    /// The dataset named by [`DatasetQuery::key`] is to be read next.
    Pending(DatasetQuery<'a, T>),
    /// Every dataset has been read: the arrays, in the order of the keys.
    Complete(Vec<Vec<T>>),
}

/// The state of a read of `keys` for which the arrays `data` have come in.
pub open spec fn query_at<'a, T>(keys: Seq<&'a str>, data: Seq<Vec<T>>, query: Query<'a, T>) -> bool {
    if data.len() >= keys.len() {
        query matches Query::Complete(all) && all@ == data
    } else {
        query matches Query::Pending(pending) && pending.keys() == keys && pending.data() == data
    }
}

impl<'a, T> DatasetQuery<'a, T> {
    /// A key is left to read.
    #[verifier::type_invariant]
    spec fn well_formed(self) -> bool {
        self.data@.len() < self.keys@.len()
    }

    /// The keys that were asked for, in order.
    pub closed spec fn keys(self) -> Seq<&'a str> {
        self.keys@
    }

    /// The arrays read so far: one for each key before the pending one.
    pub closed spec fn data(self) -> Seq<Vec<T>> {
        self.data@
    }

    /// The name of the dataset to read next.
    pub fn key(&self) -> (key: &'a str)
        ensures
            self.data().len() < self.keys().len(),
            key == self.keys()[self.data().len() as int],
    {
        proof {
            use_type_invariant(self);
        }
        self.keys[self.data.len()]
    }

    /// Takes what the container gave for the pending key. An array is kept and
    /// the read moves on to the next key; anything else ends the read with the
    /// error, and the arrays read before are given up.
    pub fn answered(self, outcome: DatasetRead<T>) -> (result: Result<Query<'a, T>, Error>)
        ensures
            self.data().len() < self.keys().len(),
            match outcome {
                DatasetRead::Values(values) => result matches Ok(next) && query_at(
                    self.keys(),
                    self.data().push(values),
                    next,
                ),
                DatasetRead::Absent => result matches Err(Error::DatasetNotFound(missing))
                    && missing@ == self.keys()[self.data().len() as int]@,
                DatasetRead::Unreadable(cause) => result == Err::<Query<'a, T>, Error>(
                    Error::Hdf5(cause),
                ),
            },
    {
        proof {
            use_type_invariant(&self);
        }
        let DatasetQuery { keys, data } = self;
        let mut data = data;
        match read_dataset(keys[data.len()], outcome) {
            Ok(values) => {
                data.push(values);
                Ok(settle(keys, data))
            },
            Err(error) => Err(error),
        }
    }
}

/// The state of a read for which the arrays `data` have come in.
fn settle<'a, T>(keys: &'a [&'a str], data: Vec<Vec<T>>) -> (query: Query<'a, T>)
    requires
        data@.len() <= keys@.len(),
    ensures
        query_at(keys@, data@, query),
{
    if data.len() == keys.len() {
        Query::Complete(data)
    } else {
        Query::Pending(DatasetQuery { keys, data })
    }
}

/// Begins the read of the datasets named by `keys`, in that order, from one
/// file.
pub fn read_hdf5_data<'a, T>(keys: &'a [&'a str]) -> (query: Query<'a, T>)
    ensures
        query_at(keys@, Seq::<Vec<T>>::empty(), query),
{
    settle(keys, Vec::new())
}

/// A read is all or nothing, and keeps the order of the keys: the arrays are
/// handed out exactly when one has come in for every key, and the array at
/// each position is then the one that came in for the key at that position.
/// Until then the key at the position after the last array is pending.
pub proof fn lemma_read_follows_the_keys<'a, T>(
    keys: Seq<&'a str>,
    data: Seq<Vec<T>>,
    query: Query<'a, T>,
)
    requires
        query_at(keys, data, query),
    ensures
        query is Complete <==> data.len() >= keys.len(),
        query matches Query::Complete(all) ==> all@.len() == data.len() && forall|i: int|
            0 <= i < data.len() ==> all@[i] == data[i],
        query matches Query::Pending(pending) ==> pending.keys() == keys && pending.data()
            == data,
{
}

/// The dataset of a data file that holds the ids of its events.
pub const EVENT_ID: &'static str = "event_id";

/// The events of a data file.
#[allow(dead_code)]
pub struct Event {
    /// The id of each event.
    event_id: Vec<u32>,
    /// The X and Y position of each event.
    position: Vec<(u16, u16)>,
}

impl Event {
    /// Reads the event ids of a data file: what the file gave for its
    /// dataset [`EVENT_ID`], or the error that says why there are none.
    pub fn read_event(outcome: DatasetRead<u32>) -> (result: Result<Vec<u32>, Error>)
        ensures
            dataset_result(EVENT_ID@, outcome, result),
    {
        read_dataset(EVENT_ID, outcome)
    }
}

} // verus!
