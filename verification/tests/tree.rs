use ptree::item::StringItem;
use tristimg::collection::{Collection, Resolution};
use tristimg::dataset::DatasetRead;

fn collection_of(path: &str, counts: Vec<u32>, width: usize) -> Collection<()> {
    let mut resolution = Collection::from_nexus(path, DatasetRead::Values(counts), width).unwrap();
    loop {
        match resolution {
            Resolution::Complete(collection) => return collection,
            Resolution::Pending(resolver) => resolution = resolver.opened(Ok(())).unwrap(),
        }
    }
}

fn texts(items: &[StringItem]) -> Vec<String> {
    items.iter().map(|item| item.text.clone()).collect()
}

#[test]
fn tree_root_is_the_collection() {
    let tree = collection_of("/d/run.nxs", vec![1], 4).as_tree();
    assert_eq!(tree.text, "collection");
}

#[test]
fn tree_of_the_example() {
    let tree = collection_of("/d/run.nxs", vec![2, 0, 1], 4).as_tree();
    assert_eq!(tree.text, "collection");
    assert_eq!(texts(&tree.children), vec!["module_0", "module_1", "module_2"]);
    assert_eq!(texts(&tree.children[0].children), vec!["run_0001.h5", "run_0002.h5"]);
    assert!(tree.children[1].children.is_empty());
    assert_eq!(texts(&tree.children[2].children), vec!["run_0003.h5"]);
}

#[test]
fn tree_leaves_are_file_names_not_paths() {
    let tree = collection_of("/some/deep/dir/run.nxs", vec![1], 2).as_tree();
    let leaf = &tree.children[0].children[0];
    assert_eq!(leaf.text, "run_01.h5");
    assert!(leaf.children.is_empty());
}

#[test]
fn tree_of_an_empty_collection_is_the_root_alone() {
    let tree = collection_of("/d/run.nxs", vec![], 4).as_tree();
    assert_eq!(tree.text, "collection");
    assert!(tree.children.is_empty());
}

#[test]
fn tree_numbers_modules_from_zero_in_decimal() {
    let tree = collection_of("/d/run.nxs", vec![0; 12], 4).as_tree();
    let expected: Vec<String> = (0..12).map(|index| format!("module_{index}")).collect();
    assert_eq!(texts(&tree.children), expected);
}

#[test]
fn tree_keeps_modules_and_files_in_order() {
    let tree = collection_of("/d/s.nxs", vec![3, 2], 1).as_tree();
    assert_eq!(texts(&tree.children[0].children), vec!["s_1.h5", "s_2.h5", "s_3.h5"]);
    assert_eq!(texts(&tree.children[1].children), vec!["s_4.h5", "s_5.h5"]);
    for module in &tree.children {
        for leaf in &module.children {
            assert!(leaf.children.is_empty());
        }
    }
}

#[test]
fn tree_can_be_built_again() {
    let collection = collection_of("/d/run.nxs", vec![1, 1], 4);
    let first = collection.as_tree();
    let second = collection.as_tree();
    assert_eq!(texts(&first.children), texts(&second.children));
    assert_eq!(first.children[1].children[0].text, second.children[1].children[0].text);
}
