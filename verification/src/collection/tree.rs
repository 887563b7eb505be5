//! The tree in which a collection is shown: the collection, its modules and
//! the data files of each.

use super::{Collection, DataFileView};
use crate::numeral::{decimal_digits, push_decimal};
use crate::tree_builder::{
    builder_add_empty_child, builder_begin_child, builder_build, builder_end_child,
    builder_level, builder_new, builder_nodes, item_nodes,
};
use ptree::item::StringItem;
use vstd::prelude::*;

verus! {

/// The text of the root of a collection's tree.
pub open spec fn root_label() -> Seq<char> {
    "collection"@
}

/// The text of the node of the module at `index` (from 0).
pub open spec fn module_label(index: nat) -> Seq<char> {
    "module_"@ + decimal_digits(index)
}

/// The nodes that show one module: the module itself at depth 1, then its
/// data files by name at depth 2, in the module's own order.
pub open spec fn module_nodes<F>(index: nat, files: Seq<DataFileView<F>>) -> Seq<(nat, Seq<char>)> {
    seq![(1nat, module_label(index))] + Seq::new(files.len(), |j: int| (2nat, files[j].name))
}

/// The nodes, in pre-order, of the tree that shows the first `modules` modules
/// of a collection: the root, then module after module.
pub open spec fn collection_nodes<F>(collection: Seq<Seq<DataFileView<F>>>, modules: int) -> Seq<
    (nat, Seq<char>),
>
    decreases modules,
{
    if modules <= 0 {
        seq![(0nat, root_label())]
    } else {
        collection_nodes(collection, modules - 1) + module_nodes(
            (modules - 1) as nat,
            collection[modules - 1],
        )
    }
}

/// The place of the node of the module at `module` among the nodes of a
/// collection's tree: after the root, the earlier modules and their files.
pub open spec fn module_position<F>(collection: Seq<Seq<DataFileView<F>>>, module: int) -> int
    decreases module,
{
    if module <= 0 {
        1
    } else {
        module_position(collection, module - 1) + 1 + collection[module - 1].len()
    }
}

impl<F> Collection<F> {
    /// Produces a [`ptree`] tree for debug visualisation: the collection at
    /// the root, below it the modules in order, each labelled with its
    /// index, and below each module its data files in order, by name.
    pub fn as_tree(&self) -> (tree: StringItem)
        ensures
            item_nodes(tree) == collection_nodes(self@, self@.len() as int),
    {
        let mut tree = builder_new(String::from_str("collection"));
        let mut module_idx: usize = 0;
        while module_idx < self.modules.len()
            invariant
                module_idx <= self.modules@.len(),
                builder_level(tree) == 0,
                builder_nodes(tree) == collection_nodes(self@, module_idx as int),
            decreases self.modules@.len() - module_idx,
        {
            let module = &self.modules[module_idx];
            let mut label = String::from_str("module_");
            push_decimal(&mut label, module_idx as u128);
            builder_begin_child(&mut tree, label);
            let ghost begun = builder_nodes(tree);
            let mut file_idx: usize = 0;
            while file_idx < module.data_files.len()
                invariant
                    file_idx <= module.data_files@.len(),
                    builder_level(tree) == 1,
                    builder_nodes(tree) == begun + Seq::new(
                        file_idx as nat,
                        |j: int| (2nat, module@[j].name),
                    ),
                decreases module.data_files@.len() - file_idx,
            {
                let data_file = &module.data_files[file_idx];
                builder_add_empty_child(&mut tree, data_file.name.clone());
                file_idx = file_idx + 1;
                assert(builder_nodes(tree) =~= begun + Seq::new(
                    file_idx as nat,
                    |j: int| (2nat, module@[j].name),
                ));
            }
            builder_end_child(&mut tree);
            module_idx = module_idx + 1;
        }
        builder_build(&mut tree)
    }
}

/// The tree of a collection is walked in this order: the root, then the
/// modules by ascending index, and right after each module its data files by
/// ascending index.
pub proof fn lemma_tree_order<F>(collection: Seq<Seq<DataFileView<F>>>)
    ensures
        ({
            let nodes = collection_nodes(collection, collection.len() as int);
            &&& nodes.len() == module_position(collection, collection.len() as int)
            &&& nodes[0] == (0nat, root_label())
            &&& forall|m: int|
                0 <= m < collection.len() ==> nodes[#[trigger] module_position(collection, m)]
                    == (1nat, module_label(m as nat))
            &&& forall|m: int, j: int|
                #![trigger collection[m][j]]
                0 <= m < collection.len() && 0 <= j < collection[m].len() ==> nodes[module_position(
                    collection,
                    m,
                ) + 1 + j] == (2nat, collection[m][j].name)
        }),
{
    let all = collection.len() as int;
    let nodes = collection_nodes(collection, all);
    lemma_nodes_of_first_modules(collection, all, 0, 0);
    assert forall|m: int| 0 <= m < collection.len() implies nodes[#[trigger] module_position(
        collection,
        m,
    )] == (1nat, module_label(m as nat)) by {
        lemma_nodes_of_first_modules(collection, all, m, 0);
    }
    assert forall|m: int, j: int|
        #![trigger collection[m][j]]
        0 <= m < collection.len() && 0 <= j < collection[m].len() implies nodes[module_position(
        collection,
        m,
    ) + 1 + j] == (2nat, collection[m][j].name) by {
        lemma_nodes_of_first_modules(collection, all, m, j);
    }
}

/// Where the module `m` and its data file `j` stand among the nodes of the
/// first `modules` modules.
proof fn lemma_nodes_of_first_modules<F>(
    collection: Seq<Seq<DataFileView<F>>>,
    modules: int,
    m: int,
    j: int,
)
    requires
        0 <= modules <= collection.len(),
    ensures
        ({
            let nodes = collection_nodes(collection, modules);
            &&& nodes.len() == module_position(collection, modules)
            &&& nodes[0] == (0nat, root_label())
            &&& 0 <= m < modules ==> 1 <= module_position(collection, m) && module_position(
                collection,
                m,
            ) + 1 + collection[m].len() <= nodes.len()
            &&& 0 <= m < modules ==> nodes[module_position(collection, m)] == (
                1nat,
                module_label(m as nat),
            )
            &&& 0 <= m < modules && 0 <= j < collection[m].len() ==> nodes[module_position(
                collection,
                m,
            ) + 1 + j] == (2nat, collection[m][j].name)
        }),
    decreases modules,
{
    if modules > 0 {
        lemma_nodes_of_first_modules(collection, modules - 1, m, j);
    }
}

} // verus!
