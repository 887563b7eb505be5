//! Building a labelled tree with `ptree`.
//!
//! The builder and the tree it gives are `ptree`'s own. What is said of them
//! here is taken from `ptree`'s source and not proved: a tree is spoken of as
//! the sequence of its nodes in pre-order, each node with its depth and its
//! text, which is what a printed tree shows line by line.

use ptree::item::StringItem;
use ptree::TreeBuilder;
use vstd::prelude::*;

verus! {

/// `ptree::TreeBuilder`, a tree under construction.
#[verifier::external_type_specification]
#[verifier::external_body]
pub struct ExTreeBuilder(TreeBuilder);

/// `ptree::item::StringItem`, a node of a tree with its text and its
/// children.
#[verifier::external_type_specification]
#[verifier::external_body]
pub struct ExStringItem(StringItem);

/// The nodes of the tree that `builder` holds, in pre-order, each with its
/// depth below the root (the root itself has depth 0) and its text.
pub uninterp spec fn builder_nodes(builder: TreeBuilder) -> Seq<(nat, Seq<char>)>;

/// The depth of the item to which `builder` adds children next: the number
/// of children begun and not yet ended.
pub uninterp spec fn builder_level(builder: TreeBuilder) -> nat;

/// The nodes of the tree below and including `item`, in pre-order, each with
/// its depth below `item` and its text.
pub uninterp spec fn item_nodes(item: StringItem) -> Seq<(nat, Seq<char>)>;

/// `TreeBuilder::new`: a tree of the root item alone, with the given text;
/// children are added to the root.
#[verifier::external_body]
pub(crate) fn builder_new(text: String) -> (builder: TreeBuilder)
    ensures
        builder_nodes(builder) == seq![(0nat, text@)],
        builder_level(builder) == 0,
{
    TreeBuilder::new(text)
}

/// `TreeBuilder::begin_child`: an item with the given text becomes the last
/// child of the current item, hence the last node in pre-order, one level
/// below the current item; children are added to the new item from now on.
/// The builder counts its levels in a `u32`.
#[verifier::external_body]
pub(crate) fn builder_begin_child(builder: &mut TreeBuilder, text: String)
    requires
        builder_level(*old(builder)) < u32::MAX,
    ensures
        builder_nodes(*final(builder)) == builder_nodes(*old(builder)).push(
            (builder_level(*old(builder)) + 1, text@),
        ),
        builder_level(*final(builder)) == builder_level(*old(builder)) + 1,
{
    builder.begin_child(text);
}

/// `TreeBuilder::end_child`: children are added to the parent of the current
/// item from now on; the tree stays as it is. There must be a child that was
/// begun and not ended.
#[verifier::external_body]
pub(crate) fn builder_end_child(builder: &mut TreeBuilder)
    requires
        builder_level(*old(builder)) > 0,
    ensures
        builder_nodes(*final(builder)) == builder_nodes(*old(builder)),
        builder_level(*final(builder)) == builder_level(*old(builder)) - 1,
{
    builder.end_child();
}

/// `TreeBuilder::add_empty_child`: an item with the given text becomes the
/// last child of the current item, as by `begin_child`, and children are
/// still added to the current item.
#[verifier::external_body]
pub(crate) fn builder_add_empty_child(builder: &mut TreeBuilder, text: String)
    requires
        builder_level(*old(builder)) < u32::MAX,
    ensures
        builder_nodes(*final(builder)) == builder_nodes(*old(builder)).push(
            (builder_level(*old(builder)) + 1, text@),
        ),
        builder_level(*final(builder)) == builder_level(*old(builder)),
{
    builder.add_empty_child(text);
}

/// `TreeBuilder::build`: a copy of the whole tree, from its root; the builder
/// stays as it is.
#[verifier::external_body]
pub(crate) fn builder_build(builder: &mut TreeBuilder) -> (item: StringItem)
    ensures
        item_nodes(item) == builder_nodes(*old(builder)),
        builder_nodes(*final(builder)) == builder_nodes(*old(builder)),
        builder_level(*final(builder)) == builder_level(*old(builder)),
{
    builder.build()
}

} // verus!
