//! The naming convention of data files: how a data file is named after the
//! NeXus file and its own number, and what the path of the NeXus file says of
//! the prefix of the names and of the directory in which the files lie.
//!
//! Paths are taken as text, with `/` between their components.

use crate::numeral::{
    decimal_digits, lemma_decimal_digits_are_canonical, lemma_zero_padded_reads_back, zero_pad,
    zero_padded,
};
use vstd::prelude::*;

verus! {

/// The name of the data file with the given number: the prefix, an
/// underscore, the zero-padded number and the extension `.h5`.
pub open spec fn data_file_name(prefix: Seq<char>, number: nat, width: nat) -> Seq<char> {
    prefix + seq!['_'] + zero_padded(number, width) + seq!['.', 'h', '5']
}

/// The position of the last occurrence of `c` in `s`, or `-1` where `s` does
/// not hold `c`.
pub open spec fn last_index_of(s: Seq<char>, c: char) -> int
    decreases s.len(),
{
    if s.len() == 0 {
        -1
    } else if s.last() == c {
        s.len() - 1
    } else {
        last_index_of(s.drop_last(), c)
    }
}

/// The final component of `path`: what follows its last `/`, or the whole of a
/// path without one.
pub open spec fn final_component(path: Seq<char>) -> Seq<char> {
    path.subrange(last_index_of(path, '/') + 1, path.len() as int)
}

/// A file name without its extension: what stands before the last `.`, or the
/// whole name where it has no `.` or only a leading one.
pub open spec fn without_extension(name: Seq<char>) -> Seq<char> {
    let dot = last_index_of(name, '.');
    if dot > 0 {
        name.subrange(0, dot)
    } else {
        name
    }
}

/// The base name of the file that `path` names: its final component without
/// the extension. There is none where the final component is empty (an empty
/// path, a path that ends in `/`), `.` or `..`.
pub open spec fn file_stem(path: Seq<char>) -> Option<Seq<char>> {
    let name = final_component(path);
    if name.len() == 0 || name == seq!['.'] || name == seq!['.', '.'] {
        None
    } else {
        Some(without_extension(name))
    }
}

/// The directory part of `path`: everything up to and including its last `/`.
/// A path without a `/` has none.
pub open spec fn parent_directory(path: Seq<char>) -> Option<Seq<char>> {
    let slash = last_index_of(path, '/');
    if slash < 0 {
        None
    } else {
        Some(path.subrange(0, slash + 1))
    }
}

/// Builds the name of the data file with the given number.
pub fn format_data_file_name(prefix: &str, number: u128, width: usize) -> (name: String)
    ensures
        name@ == data_file_name(prefix@, number as nat, width as nat),
{
    let padded = zero_pad(number, width);
    let mut name = String::from_str(prefix);
    proof {
        reveal_strlit("_");
        reveal_strlit(".h5");
    }
    name.append("_");
    name.append(padded.as_str());
    name.append(".h5");
    name
}

/// Finds the last occurrence of `c` in `s`; positions count characters.
pub fn find_last(s: &str, c: char) -> (found: Option<usize>)
    ensures
        match found {
            Some(i) => last_index_of(s@, c) == i && i < s@.len(),
            None => last_index_of(s@, c) == -1,
        },
        s@.len() <= usize::MAX,
{
    proof {
        lemma_last_index_in_range(s@, c);
    }
    let len = s.unicode_len();
    let mut found: Option<usize> = None;
    let mut seen: usize = 0;
    for ch in it: s.chars()
        invariant
            it.seq() == s@,
            len == s@.len(),
            seen == it.index(),
            match found {
                Some(i) => last_index_of(s@.take(seen as int), c) == i,
                None => last_index_of(s@.take(seen as int), c) == -1,
            },
    {
        assert(s@.take(seen as int + 1).drop_last() =~= s@.take(seen as int));
        if ch == c {
            found = Some(seen);
        }
        seen = seen + 1;
    }
    assert(s@.take(seen as int) =~= s@);
    found
}

/// Derives the base name of the file that `path` names.
pub fn stem_of_path(path: &str) -> (stem: Option<String>)
    ensures
        match stem {
            Some(text) => file_stem(path@) == Some(text@),
            None => file_stem(path@).is_none(),
        },
{
    let len = path.unicode_len();
    let start: usize = match find_last(path, '/') {
        Some(slash) => slash + 1,
        None => 0,
    };
    let name = path.substring_char(start, len);
    let name_len = len - start;
    if name_len == 0 {
        return None;
    }
    if name_len == 1 && name.get_char(0) == '.' {
        assert(name@ =~= seq!['.']);
        return None;
    }
    if name_len == 2 && name.get_char(0) == '.' && name.get_char(1) == '.' {
        assert(name@ =~= seq!['.', '.']);
        return None;
    }
    assert(name@ != seq!['.']);
    assert(name@ != seq!['.', '.']);
    let stem = match find_last(name, '.') {
        Some(dot) => if dot > 0 {
            name.substring_char(0, dot)
        } else {
            name
        },
        None => name,
    };
    Some(String::from_str(stem))
}

/// Derives the directory part of `path`, with its final `/`.
pub fn parent_of_path(path: &str) -> (parent: Option<String>)
    ensures
        match parent {
            Some(text) => parent_directory(path@) == Some(text@),
            None => parent_directory(path@).is_none(),
        },
{
    match find_last(path, '/') {
        Some(slash) => {
            Some(String::from_str(path.substring_char(0, slash + 1)))
        },
        None => None,
    }
}

/// Different file numbers give different file names.
pub proof fn lemma_file_names_differ(prefix: Seq<char>, a: nat, b: nat, width: nat)
    requires
        a != b,
    ensures
        data_file_name(prefix, a, width) != data_file_name(prefix, b, width),
{
    let name_a = data_file_name(prefix, a, width);
    let name_b = data_file_name(prefix, b, width);
    lemma_zero_padded_reads_back(a, width);
    lemma_zero_padded_reads_back(b, width);
    if name_a == name_b {
        let from = prefix.len() as int + 1;
        assert(name_a.subrange(from, name_a.len() - 3) =~= zero_padded(a, width));
        assert(name_b.subrange(from, name_b.len() - 3) =~= zero_padded(b, width));
    }
}

/// The last occurrence of `c` in `s` lies in `s` and holds `c`, and no later
/// position does.
pub proof fn lemma_last_index_in_range(s: Seq<char>, c: char)
    ensures
        -1 <= last_index_of(s, c) < s.len(),
        last_index_of(s, c) >= 0 ==> s[last_index_of(s, c)] == c,
        forall|i: int| last_index_of(s, c) < i < s.len() ==> s[i] != c,
    decreases s.len(),
{
    if s.len() > 0 && s.last() != c {
        let front = s.drop_last();
        lemma_last_index_in_range(front, c);
        assert forall|i: int| last_index_of(s, c) < i < s.len() implies s[i] != c by {
            if i < front.len() {
                assert(front[i] != c);
            }
        }
    }
}

/// Where `s` holds no `c`, the last `c` of a sequence that ends in `s` is the
/// last `c` of what stands before `s`.
pub proof fn lemma_last_index_before(front: Seq<char>, s: Seq<char>, c: char)
    requires
        forall|i: int| 0 <= i < s.len() ==> s[i] != c,
    ensures
        last_index_of(front + s, c) == last_index_of(front, c),
    decreases s.len(),
{
    if s.len() > 0 {
        assert((front + s).drop_last() =~= front + s.drop_last());
        lemma_last_index_before(front, s.drop_last(), c);
    }
}

/// A base name is not empty and holds no `/`.
pub proof fn lemma_file_stem_is_a_name(path: Seq<char>)
    ensures
        file_stem(path) matches Some(stem) ==> stem.len() > 0 && forall|i: int|
            0 <= i < stem.len() ==> stem[i] != '/',
{
    let name = final_component(path);
    lemma_last_index_in_range(path, '/');
    lemma_last_index_in_range(name, '.');
}

/// A path made of a directory, a base name and an extension gives that base
/// name and that directory back.
pub proof fn lemma_path_parts(directory: Seq<char>, stem: Seq<char>, extension: Seq<char>)
    requires
        directory.len() > 0 && directory.last() == '/',
        stem.len() > 0,
        forall|i: int| 0 <= i < stem.len() ==> stem[i] != '/',
        extension.len() > 0,
        forall|i: int| 0 <= i < extension.len() ==> extension[i] != '/' && extension[i] != '.',
    ensures
        file_stem(directory + stem + seq!['.'] + extension) == Some(stem),
        parent_directory(directory + stem + seq!['.'] + extension) == Some(directory),
{
    let name = stem + seq!['.'] + extension;
    let path = directory + name;
    assert(path =~= directory + stem + seq!['.'] + extension);
    lemma_last_index_before(directory, name, '/');
    assert(path.subrange(0, directory.len() as int) =~= directory);
    assert(path.subrange(directory.len() as int, path.len() as int) =~= name);
    lemma_last_index_before(stem + seq!['.'], extension, '.');
    assert((stem + seq!['.']).last() == '.');
    assert(name.subrange(0, stem.len() as int) =~= stem);
    assert(name.len() >= 3);
}

/// Each data file lies beside the NeXus file: its path names the directory
/// of the NeXus file, and its final component is the data file's name.
pub proof fn lemma_data_file_lies_beside(path: Seq<char>, number: nat, width: nat)
    requires
        file_stem(path) is Some,
        parent_directory(path) is Some,
    ensures
        ({
            let directory = parent_directory(path).unwrap();
            let name = data_file_name(file_stem(path).unwrap(), number, width);
            &&& parent_directory(directory + name) == Some(directory)
            &&& final_component(directory + name) == name
        }),
{
    let directory = parent_directory(path).unwrap();
    let name = data_file_name(file_stem(path).unwrap(), number, width);
    lemma_file_stem_is_a_name(path);
    lemma_decimal_digits_are_canonical(number);
    lemma_last_index_in_range(path, '/');
    assert forall|i: int| 0 <= i < name.len() implies name[i] != '/' by {}
    lemma_last_index_before(directory, name, '/');
    assert((directory + name).subrange(directory.len() as int, (directory + name).len() as int)
        =~= name);
}

} // verus!
