//! The resolution of a collection, one data file at a time.

use super::plan::{
    file_number, files_before, lemma_files_before_bounded, lemma_files_before_monotonic, Plan,
};
use super::{Collection, DataFile, DataFileView, Module};
use crate::error::Error;
use crate::naming::format_data_file_name;
use vstd::prelude::*;

verus! {

/// The resolution of a collection that is under way: some data files are
/// open, and one is to be opened next.
pub struct Resolver<F> {
    /// The directory of the NeXus file, with its final `/`.
    directory: String,
    /// The base name of the NeXus file.
    prefix: String,
    /// The least number of digits of a file number.
    padding: usize,
    /// The number of data files of each module.
    counts: Vec<u32>,
    /// The modules whose data files are all open.
    modules: Vec<Module<F>>,
    /// The open data files of the module that comes next.
    data_files: Vec<DataFile<F>>,
    /// The number of data files that are open.
    opened: u128,
    /// The name of the data file to open next.
    name: String,
    /// The path of the data file to open next.
    path: String,
    /// The handles of the open data files, in the order of their opening.
    handles: Ghost<Seq<F>>,
}

/// How far the resolution of a collection has come.
pub enum Resolution<F> {
    /// The data file at [`Resolver::path`] is to be opened next.
    Pending(Resolver<F>),
    /// Every data file is open.
    Complete(Collection<F>),
}

/// The state of the resolution of `plan` in which the files numbered from 1
/// to the length of `handles` are open.
pub open spec fn resolution_at<F>(plan: Plan, handles: Seq<F>, resolution: Resolution<F>) -> bool {
    if handles.len() >= plan.total() {
        resolution matches Resolution::Complete(collection) && collection@ == plan.resolved(
            handles,
        )
    } else {
        resolution matches Resolution::Pending(resolver) && resolver.plan() == plan
            && resolver.handles() == handles
    }
}

/// The files are those that `plan` gives the module `module`, from its first
/// on, with their handles.
spec fn files_match<F>(plan: Plan, handles: Seq<F>, module: int, files: Seq<DataFileView<F>>) -> bool {
    forall|j: int|
        0 <= j < files.len() ==> #[trigger] files[j] == plan.file(
            file_number(plan.counts, module, j),
            handles,
        )
}

/// The modules are the first modules of `plan`, each with all its files.
spec fn modules_match<F>(plan: Plan, handles: Seq<F>, modules: Seq<Module<F>>) -> bool {
    forall|m: int|
        0 <= m < modules.len() ==> (#[trigger] modules[m])@.len() == plan.counts[m]
            && files_match(plan, handles, m, modules[m]@)
}

/// The first modules of `plan` are resolved, the data files are those of the
/// module that follows them, and `opened` files are open in all.
spec fn progress_matches<F>(
    plan: Plan,
    handles: Seq<F>,
    modules: Seq<Module<F>>,
    data_files: Seq<DataFile<F>>,
    opened: nat,
) -> bool {
    &&& modules.len() <= plan.counts.len()
    &&& modules_match(plan, handles, modules)
    &&& files_match(
        plan,
        handles,
        modules.len() as int,
        Seq::new(data_files.len(), |j: int| data_files[j]@),
    )
    &&& opened == files_before(plan.counts, modules.len() as int) + data_files.len()
    &&& handles.len() == opened
}

impl<F> Resolver<F> {
    /// A file is left to open, and its name and path are at hand.
    #[verifier::type_invariant]
    spec fn well_formed(self) -> bool {
        &&& progress_matches(
            self.plan(),
            self.handles@,
            self.modules@,
            self.data_files@,
            self.opened as nat,
        )
        &&& self.modules@.len() < self.counts@.len()
        &&& self.data_files@.len() < self.counts@[self.modules@.len() as int]
        &&& self.name@ == self.plan().name((self.opened + 1) as nat)
        &&& self.path@ == self.plan().path((self.opened + 1) as nat)
    }

    /// What the NeXus file says of the collection.
    pub closed spec fn plan(self) -> Plan {
        Plan {
            directory: self.directory@,
            prefix: self.prefix@,
            counts: self.counts@,
            width: self.padding as nat,
        }
    }

    /// The handles of the data files that are open, in the order in which
    /// they were opened: that of the file number `n` at position `n - 1`.
    pub closed spec fn handles(self) -> Seq<F> {
        self.handles@
    }

    /// The path of the data file to open next: the file whose number follows
    /// those of the files that are open.
    pub fn path(&self) -> (path: &String)
        ensures
            self.handles().len() < self.plan().total(),
            path@ == self.plan().path(self.handles().len() + 1),
    {
        proof {
            use_type_invariant(self);
            lemma_files_before_monotonic(
                self.counts@,
                self.modules@.len() as int + 1,
                self.counts@.len() as int,
            );
        }
        &self.path
    }

    /// Takes the outcome of opening the file at [`Resolver::path`]. A handle
    /// is kept and the resolution moves on to the next file. A failure ends
    /// the resolution with the error: the files opened before are given up,
    /// and no collection comes of it.
    pub fn opened(self, outcome: Result<F, String>) -> (result: Result<Resolution<F>, Error>)
        ensures
            match outcome {
                Ok(handle) => result matches Ok(next) && resolution_at(
                    self.plan(),
                    self.handles().push(handle),
                    next,
                ),
                Err(cause) => result == Err::<Resolution<F>, Error>(Error::Hdf5(cause)),
            },
    {
        proof {
            use_type_invariant(&self);
        }
        let ghost plan = self.plan();
        let Resolver {
            directory,
            prefix,
            padding,
            counts,
            modules,
            data_files,
            opened,
            name,
            path,
            handles,
        } = self;
        match outcome {
            Ok(handle) => {
                let mut data_files = data_files;
                let ghost before = handles@;
                let ghost after = before.push(handle);
                let ghost module = modules@.len() as int;
                let ghost files = Seq::new(data_files@.len(), |j: int| data_files@[j]@);
                proof {
                    lemma_files_before_bounded(counts@, module);
                    assert(opened < counts.len() * 0x1_0000_0000);
                    assert forall|m: int| 0 <= m < modules@.len() implies files_match(
                        plan,
                        after,
                        m,
                        (#[trigger] modules@[m])@,
                    ) by {
                        lemma_files_before_monotonic(counts@, m + 1, module);
                        assert(files_match(plan, before, m, modules@[m]@));
                    }
                    assert(files_match(plan, before, module, files));
                }
                data_files.push(DataFile { name, path, handle });
                proof {
                    let grown = Seq::new(data_files@.len(), |j: int| data_files@[j]@);
                    assert forall|j: int| 0 <= j < grown.len() implies #[trigger] grown[j]
                        == plan.file(file_number(plan.counts, module, j), after) by {
                        if j < files.len() {
                            assert(grown[j] == files[j]);
                        }
                    }
                }
                Ok(
                    advance(
                        directory,
                        prefix,
                        padding,
                        counts,
                        modules,
                        data_files,
                        opened + 1,
                        Ghost(after),
                    ),
                )
            },
            Err(cause) => Err(Error::Hdf5(cause)),
        }
    }
}

/// The resolution before any data file has been opened.
pub(super) fn begin<F>(directory: String, prefix: String, padding: usize, counts: Vec<u32>) -> (resolution:
    Resolution<F>)
    ensures
        resolution_at(
            Plan { directory: directory@, prefix: prefix@, counts: counts@, width: padding as nat },
            Seq::<F>::empty(),
            resolution,
        ),
{
    advance(directory, prefix, padding, counts, Vec::new(), Vec::new(), 0, Ghost(Seq::empty()))
}

/// Closes the modules whose files are all open, and says what comes next.
fn advance<F>(
    directory: String,
    prefix: String,
    padding: usize,
    counts: Vec<u32>,
    modules: Vec<Module<F>>,
    data_files: Vec<DataFile<F>>,
    opened: u128,
    handles: Ghost<Seq<F>>,
) -> (resolution: Resolution<F>)
    requires
        progress_matches(
            Plan { directory: directory@, prefix: prefix@, counts: counts@, width: padding as nat },
            handles@,
            modules@,
            data_files@,
            opened as nat,
        ),
        modules@.len() < counts@.len() ==> data_files@.len() <= counts@[modules@.len() as int],
        modules@.len() == counts@.len() ==> data_files@.len() == 0,
    ensures
        resolution_at(
            Plan { directory: directory@, prefix: prefix@, counts: counts@, width: padding as nat },
            handles@,
            resolution,
        ),
{
    let ghost plan = Plan {
        directory: directory@,
        prefix: prefix@,
        counts: counts@,
        width: padding as nat,
    };
    let mut modules = modules;
    let mut data_files = data_files;
    while modules.len() < counts.len() && data_files.len() == counts[modules.len()] as usize
        invariant
            plan == (Plan {
                directory: directory@,
                prefix: prefix@,
                counts: counts@,
                width: padding as nat,
            }),
            progress_matches(plan, handles@, modules@, data_files@, opened as nat),
            modules@.len() < counts@.len() ==> data_files@.len() <= counts@[modules@.len() as int],
            modules@.len() == counts@.len() ==> data_files@.len() == 0,
        decreases counts@.len() - modules@.len(),
    {
        let ghost closed = Seq::new(data_files@.len(), |j: int| data_files@[j]@);
        let ghost before = modules@;
        let module = Module { data_files };
        assert(module@ =~= closed);
        modules.push(module);
        data_files = Vec::new();
        proof {
            assert forall|m: int| 0 <= m < modules@.len() implies (#[trigger] modules@[m])@.len()
                == plan.counts[m] && files_match(plan, handles@, m, modules@[m]@) by {
                if m < before.len() {
                    assert(modules@[m] == before[m]);
                }
            }
        }
    }
    if modules.len() == counts.len() {
        let collection = Collection { modules };
        proof {
            assert forall|m: int| 0 <= m < counts@.len() implies #[trigger] collection@[m]
                =~= plan.resolved(handles@)[m] by {
                assert(files_match(plan, handles@, m, modules@[m]@));
            }
            assert(collection@ =~= plan.resolved(handles@));
        }
        Resolution::Complete(collection)
    } else {
        proof {
            lemma_files_before_bounded(counts@, modules@.len() as int);
            lemma_files_before_monotonic(counts@, modules@.len() as int + 1, counts@.len() as int);
        }
        let name = format_data_file_name(prefix.as_str(), opened + 1, padding);
        let mut path = directory.clone();
        path.append(name.as_str());
        Resolution::Pending(
            Resolver {
                directory,
                prefix,
                padding,
                counts,
                modules,
                data_files,
                opened,
                name,
                path,
                handles,
            },
        )
    }
}

/// Resolution is all or nothing: a collection comes of it exactly when every
/// data file that the counts declare has been opened, and then each of its
/// data files holds the handle that opening it gave.
pub proof fn lemma_collection_needs_every_file<F>(
    plan: Plan,
    handles: Seq<F>,
    resolution: Resolution<F>,
)
    requires
        resolution_at(plan, handles, resolution),
    ensures
        resolution is Complete <==> handles.len() >= plan.total(),
        resolution matches Resolution::Complete(collection) ==> forall|m: int, j: int|
            #![trigger collection@[m][j]]
            0 <= m < plan.counts.len() && 0 <= j < plan.counts[m] ==> collection@[m][j].handle
                == handles[file_number(plan.counts, m, j) - 1],
{
}

} // verus!
