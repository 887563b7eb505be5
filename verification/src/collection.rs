//! A data collection: the detector modules named by a NeXus file, each with
//! the data files it wrote.
//!
//! A collection is resolved from the path of the NeXus file and its
//! per-module file counts. [`Collection::from_nexus`] begins; the caller
//! opens each data file it is told to and reports how that went; once every
//! file is open, the [`Collection`] is handed out.

pub mod plan;
pub mod resolver;
pub mod tree;

pub use crate::dataset::{read_hdf5_data, Event};
use crate::dataset::{read_dataset, DatasetRead};
pub use crate::error::Error;
use crate::naming::{file_stem, parent_directory, parent_of_path, stem_of_path};
pub use plan::Plan;
use resolver::{begin, resolution_at};
pub use resolver::{Resolution, Resolver};
use vstd::prelude::*;

verus! {

/// The group of a NeXus file that holds what it says of its data files.
pub const META_GROUP: &'static str = "/entry/data/meta_file";

/// The dataset, in [`META_GROUP`], of the number of data files of each module.
pub const FILE_COUNTS: &'static str = "fp_per_module";

/// What is known of one data file of a collection.
pub struct DataFileView<F> {
    /// The file's name within its directory.
    pub name: Seq<char>,
    /// The path under which the file was opened.
    pub path: Seq<char>,
    /// The handle that opening it gave.
    pub handle: F,
}

/// A data file that has been opened.
#[derive(Debug)]
pub struct DataFile<F> {
    /// The file's name within its directory.
    name: String,
    /// The path under which the file was opened.
    path: String,
    /// The handle that opening it gave.
    handle: F,
}

/// A detector module
#[derive(Debug)]
pub struct Module<F> {
    /// The data files written by the module
    data_files: Vec<DataFile<F>>,
}

/// A data collection
#[derive(Debug)]
pub struct Collection<F> {
    /// A set of detector modules
    modules: Vec<Module<F>>,
}

impl<F> View for DataFile<F> {
    type V = DataFileView<F>;

    closed spec fn view(&self) -> DataFileView<F> {
        DataFileView { name: self.name@, path: self.path@, handle: self.handle }
    }
}

impl<F> View for Module<F> {
    type V = Seq<DataFileView<F>>;

    closed spec fn view(&self) -> Seq<DataFileView<F>> {
        Seq::new(self.data_files@.len(), |j: int| self.data_files@[j]@)
    }
}

impl<F> View for Collection<F> {
    type V = Seq<Seq<DataFileView<F>>>;

    closed spec fn view(&self) -> Seq<Seq<DataFileView<F>>> {
        Seq::new(self.modules@.len(), |m: int| self.modules@[m]@)
    }
}

impl<F> DataFile<F> {
    /// The file's name within its directory.
    pub fn name(&self) -> (name: &String)
        ensures
            name@ == self@.name,
    {
        &self.name
    }

    /// The path under which the file was opened.
    pub fn path(&self) -> (path: &String)
        ensures
            path@ == self@.path,
    {
        &self.path
    }

    /// The handle that opening the file gave.
    pub fn handle(&self) -> (handle: &F)
        ensures
            *handle == self@.handle,
    {
        &self.handle
    }
}

impl<F> Module<F> {
    /// The data files written by the module, by ascending file number.
    pub fn data_files(&self) -> (data_files: &Vec<DataFile<F>>)
        ensures
            data_files@.len() == self@.len(),
            forall|j: int| 0 <= j < data_files@.len() ==> (#[trigger] data_files@[j])@ == self@[j],
    {
        &self.data_files
    }
}

impl<F> Collection<F> {
    /// The detector modules, in the order in which the NeXus file counts them.
    pub fn modules(&self) -> (modules: &Vec<Module<F>>)
        ensures
            modules@.len() == self@.len(),
            forall|m: int| 0 <= m < modules@.len() ==> (#[trigger] modules@[m])@ == self@[m],
    {
        &self.modules
    }

    /// Begins to load a [`Collection`] from the NeXus file definition: from
    /// the path of the NeXus file and the dataset `fp_per_module` of its group
    /// `/entry/data/meta_file`, as the file gave it.
    ///
    /// Without that dataset there is nothing to resolve. With it, the path
    /// must name a file, for the prefix of the data files' names, and a
    /// directory, in which they lie.
    pub fn from_nexus(
        path: &str,
        module_file_counts: DatasetRead<u32>,
        datafile_zero_padding: usize,
    ) -> (result: Result<Resolution<F>, Error>)
        ensures
            match module_file_counts {
                DatasetRead::Values(counts) => match (file_stem(path@), parent_directory(path@)) {
                    (Some(prefix), Some(directory)) => result matches Ok(resolution)
                        && resolution_at(
                        Plan {
                            directory,
                            prefix,
                            counts: counts@,
                            width: datafile_zero_padding as nat,
                        },
                        Seq::<F>::empty(),
                        resolution,
                    ),
                    (Some(_), None) => result == Err::<Resolution<F>, Error>(
                        Error::NoParentDirecory,
                    ),
                    (None, _) => result == Err::<Resolution<F>, Error>(Error::NoFileStem),
                },
                DatasetRead::Absent => result matches Err(Error::DatasetNotFound(name)) && name@
                    == FILE_COUNTS@,
                DatasetRead::Unreadable(cause) => result == Err::<Resolution<F>, Error>(
                    Error::Hdf5(cause),
                ),
            },
    {
        let counts = match read_dataset(FILE_COUNTS, module_file_counts) {
            Ok(counts) => counts,
            Err(error) => {
                return Err(error);
            },
        };
        let prefix = match stem_of_path(path) {
            Some(prefix) => prefix,
            None => {
                return Err(Error::NoFileStem);
            },
        };
        let directory = match parent_of_path(path) {
            Some(directory) => directory,
            None => {
                return Err(Error::NoParentDirecory);
            },
        };
        Ok(begin(directory, prefix, datafile_zero_padding, counts))
    }
}

} // verus!
