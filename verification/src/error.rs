//! The ways in which resolving a collection or reading a dataset fails.

use vstd::prelude::*;

verus! {

/// An error arising from loading a collection or reading from a file.
#[derive(Debug, PartialEq, Eq)]
pub enum Error {
    /// A file could not be opened or read; the text is what the container
    /// layer reported.
    Hdf5(String),
    /// The path of the NeXus file has no base name to derive file names from.
    NoFileStem,
    /// The path of the NeXus file names no directory in which to look for the
    /// data files.
    NoParentDirecory,
    /// The file holds no dataset of this name.
    DatasetNotFound(String),
}

impl Error {
    /// The error as a sentence for the user.
    pub fn message(&self) -> (text: String)
        ensures
            text@ == self.message_spec(),
    {
        match self {
            Error::Hdf5(cause) => {
                let mut text = String::from_str("Error encountered when reading from Hdf5: ");
                text.append(cause.as_str());
                text
            },
            Error::NoFileStem => String::from_str("Could not determine stem of NeXus file"),
            Error::NoParentDirecory => String::from_str(
                "Could not determine parent direcotry of NeXus file",
            ),
            Error::DatasetNotFound(name) => {
                let mut text = String::from_str("Dataset ");
                text.append(name.as_str());
                text.append(" not found in file");
                text
            },
        }
    }

    /// The text of [`Error::message`].
    pub open spec fn message_spec(&self) -> Seq<char> {
        match self {
            Error::Hdf5(cause) => "Error encountered when reading from Hdf5: "@ + cause@,
            Error::NoFileStem => "Could not determine stem of NeXus file"@,
            Error::NoParentDirecory => "Could not determine parent direcotry of NeXus file"@,
            Error::DatasetNotFound(name) => "Dataset "@ + name@ + " not found in file"@,
        }
    }
}

} // verus!
