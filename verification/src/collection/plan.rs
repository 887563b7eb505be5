//! What a NeXus file says of its collection, and the collection that comes
//! of it: how many data files there are, how they are numbered and which
//! module each belongs to.

use super::DataFileView;
use crate::naming::data_file_name;
use vstd::prelude::*;

verus! {

/// The number of data files that the modules before `module` declare.
pub open spec fn files_before(counts: Seq<u32>, module: int) -> nat
    decreases module,
{
    if module <= 0 {
        0
    } else {
        files_before(counts, module - 1) + counts[module - 1] as nat
    }
}

/// The number of data files that all modules declare together.
pub open spec fn total_files(counts: Seq<u32>) -> nat {
    files_before(counts, counts.len() as int)
}

/// The number of the `index`-th data file (from 0) of the module `module`:
/// numbers start at 1 and run on from one module to the next.
pub open spec fn file_number(counts: Seq<u32>, module: int, index: int) -> nat {
    (files_before(counts, module) + index + 1) as nat
}

/// What a NeXus file says of its collection: where the data files lie, how
/// they are named and how many each module wrote.
pub struct Plan {
    /// The directory of the NeXus file, with its final `/`.
    pub directory: Seq<char>,
    /// The base name of the NeXus file, with which each data file's name
    /// begins.
    pub prefix: Seq<char>,
    /// The number of data files of each module, in the order of the modules.
    pub counts: Seq<u32>,
    /// The least number of digits with which a file number is written.
    pub width: nat,
}

impl Plan {
    /// The name of the data file with the given number.
    pub open spec fn name(self, number: nat) -> Seq<char> {
        data_file_name(self.prefix, number, self.width)
    }

    /// The path of the data file with the given number: it lies in the
    /// directory of the NeXus file.
    pub open spec fn path(self, number: nat) -> Seq<char> {
        self.directory + self.name(number)
    }

    /// The data file with the given number, where `handles` holds the handles
    /// in the order in which the files were opened.
    pub open spec fn file<F>(self, number: nat, handles: Seq<F>) -> DataFileView<F> {
        DataFileView {
            name: self.name(number),
            path: self.path(number),
            handle: handles[number - 1],
        }
    }

    /// The number of data files of the whole collection.
    pub open spec fn total(self) -> nat {
        total_files(self.counts)
    }

    /// The collection, once every data file has been opened: a module for each
    /// count, in order, and in each the files that it declares, by ascending
    /// number.
    pub open spec fn resolved<F>(self, handles: Seq<F>) -> Seq<Seq<DataFileView<F>>> {
        Seq::new(
            self.counts.len(),
            |m: int|
                Seq::new(
                    self.counts[m] as nat,
                    |j: int| self.file(file_number(self.counts, m, j), handles),
                ),
        )
    }
}

/// A resolved collection has a module for each count, and each module has as
/// many data files as its count says.
pub proof fn lemma_resolved_shape<F>(plan: Plan, handles: Seq<F>)
    ensures
        plan.resolved(handles).len() == plan.counts.len(),
        forall|m: int|
            0 <= m < plan.counts.len() ==> (#[trigger] plan.resolved(handles)[m]).len()
                == plan.counts[m],
{
}

/// The file numbers of a collection, module by module.
pub open spec fn file_numbers(counts: Seq<u32>) -> Seq<Seq<nat>> {
    Seq::new(
        counts.len(),
        |m: int| Seq::new(counts[m] as nat, |j: int| file_number(counts, m, j)),
    )
}

/// File numbers are contiguous and start at 1: taken module after module,
/// they are 1, 2, and so on up to the total of the counts, each once.
pub proof fn lemma_numbering_is_contiguous(counts: Seq<u32>)
    ensures
        file_numbers(counts).flatten() == Seq::new(total_files(counts), |k: int| (k + 1) as nat),
{
    let labelled = |number: nat| number;
    lemma_numbered_in_order(counts, labelled, counts.len() as int);
    assert(file_numbers(counts) =~~= numbered(counts, labelled));
    assert(file_numbers(counts).take(counts.len() as int) =~= file_numbers(counts));
}

/// The data files of a resolved collection, taken module after module, are
/// the files number 1, 2, and so on up to the total of the counts, each once
/// and each with the handle that opening it gave.
pub proof fn lemma_files_are_numbered_in_order<F>(plan: Plan, handles: Seq<F>)
    ensures
        plan.resolved(handles).flatten() == Seq::new(
            plan.total(),
            |k: int| plan.file((k + 1) as nat, handles),
        ),
{
    let resolved = plan.resolved(handles);
    let labelled = |number: nat| plan.file(number, handles);
    lemma_numbered_in_order(plan.counts, labelled, plan.counts.len() as int);
    assert(resolved =~~= numbered(plan.counts, labelled));
    assert(resolved.take(plan.counts.len() as int) =~= resolved);
}

/// What `labelled` makes of each file number, module by module.
spec fn numbered<A>(counts: Seq<u32>, labelled: spec_fn(nat) -> A) -> Seq<Seq<A>> {
    Seq::new(
        counts.len(),
        |m: int| Seq::new(counts[m] as nat, |j: int| labelled(file_number(counts, m, j))),
    )
}

/// Taken module after module, the first `modules` modules hold what
/// `labelled` makes of the file numbers from 1 on, in order.
proof fn lemma_numbered_in_order<A>(counts: Seq<u32>, labelled: spec_fn(nat) -> A, modules: int)
    requires
        0 <= modules <= counts.len(),
    ensures
        numbered(counts, labelled).take(modules).flatten() == Seq::new(
            files_before(counts, modules),
            |k: int| labelled((k + 1) as nat),
        ),
    decreases modules,
{
    let all = numbered(counts, labelled);
    let in_order = |k: int| labelled((k + 1) as nat);
    if modules > 0 {
        let last = modules - 1;
        lemma_numbered_in_order(counts, labelled, last);
        assert(all.take(modules) =~= all.take(last).push(all[last]));
        all.take(last).lemma_flatten_push(all[last]);
        assert(all.take(last).flatten() + all[last] =~= Seq::new(
            files_before(counts, modules),
            in_order,
        ));
    }
}

/// The counts before a later module include those before an earlier one.
pub proof fn lemma_files_before_monotonic(counts: Seq<u32>, earlier: int, later: int)
    requires
        earlier <= later,
    ensures
        files_before(counts, earlier) <= files_before(counts, later),
    decreases later - earlier,
{
    if earlier < later {
        lemma_files_before_monotonic(counts, earlier, later - 1);
    }
}

/// No module declares more than `2^32 - 1` files, so the modules before
/// `module` declare no more than `module` times as many together.
pub proof fn lemma_files_before_bounded(counts: Seq<u32>, module: int)
    requires
        0 <= module,
    ensures
        files_before(counts, module) <= module * 0xffff_ffff,
    decreases module,
{
    if module > 0 {
        lemma_files_before_bounded(counts, module - 1);
    }
}

} // verus!
