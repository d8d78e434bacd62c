//! Matching the files of two directory trees by name.

use vstd::prelude::*;

use crate::session::Duplicate;

verus! {

/// A file found while walking a tree.
pub struct File {
    pub name: String,
    pub path: String,
    pub size: u64,
}

/// A walked tree: its root and every file below it.
pub struct Dir {
    pub name: String,
    pub files: Vec<File>,
}

impl Dir {
    pub fn new(name: String, files: Vec<File>) -> (r: Self)
        ensures
            r.name == name,
            r.files == files,
    {
        Dir { name, files }
    }
}

/// The names of the files, in order.
pub open spec fn file_names(files: Seq<File>) -> Seq<Seq<char>> {
    files.map_values(|f: File| f.name@)
}

/// The paths of the files called `name`, in order.
pub open spec fn paths_named(files: Seq<File>, name: Seq<char>) -> Seq<Seq<char>>
    decreases files.len(),
{
    if files.len() == 0 {
        Seq::empty()
    } else {
        let rest = paths_named(files.drop_last(), name);
        if files.last().name@ == name {
            rest.push(files.last().path@)
        } else {
            rest
        }
    }
}

/// Each name once, in order of first appearance.
pub open spec fn distinct_names(names: Seq<Seq<char>>) -> Seq<Seq<char>>
    decreases names.len(),
{
    if names.len() == 0 {
        Seq::empty()
    } else {
        let d = distinct_names(names.drop_last());
        if d.contains(names.last()) {
            d
        } else {
            d.push(names.last())
        }
    }
}

/// The first-tree path recorded for a name: that of the last file of that
/// name in the first tree, or else that of the first one in the second.
pub open spec fn first_path(files1: Seq<File>, files2: Seq<File>, name: Seq<char>) -> Seq<char> {
    let in_first = paths_named(files1, name);
    if in_first.len() > 0 {
        in_first.last()
    } else {
        paths_named(files2, name)[0]
    }
}

/// The second-tree paths recorded for a name: all of them where the first
/// tree has the name, or else all but the first, which stands in for it.
pub open spec fn second_paths(files1: Seq<File>, files2: Seq<File>, name: Seq<char>) -> Seq<
    Seq<char>,
> {
    let in_second = paths_named(files2, name);
    if paths_named(files1, name).len() > 0 {
        in_second
    } else if in_second.len() > 0 {
        in_second.drop_first()
    } else {
        Seq::empty()
    }
}

/// One entry for each of `names` that has a second-tree path: the name, its
/// first-tree path and its second-tree paths.
pub open spec fn duplicate_entries(
    files1: Seq<File>,
    files2: Seq<File>,
    names: Seq<Seq<char>>,
) -> Seq<(Seq<char>, Seq<char>, Seq<Seq<char>>)>
    decreases names.len(),
{
    if names.len() == 0 {
        Seq::empty()
    } else {
        let rest = duplicate_entries(files1, files2, names.drop_last());
        let n = names.last();
        if second_paths(files1, files2, n).len() > 0 {
            rest.push((n, first_path(files1, files2, n), second_paths(files1, files2, n)))
        } else {
            rest
        }
    }
}

/// The duplicates of two file lists, in order of each name's first
/// appearance in the first list, then the second.
pub open spec fn duplicates_of(files1: Seq<File>, files2: Seq<File>) -> Seq<
    (Seq<char>, Seq<char>, Seq<Seq<char>>),
> {
    duplicate_entries(files1, files2, distinct_names(file_names(files1) + file_names(files2)))
}

/// A duplicate as plain values.
pub open spec fn dup_view(d: Duplicate) -> (Seq<char>, Seq<char>, Seq<Seq<char>>) {
    (d.file_name@, d.first_dir_match@, d.second_dir_match.deep_view())
}

fn contains_name(names: &Vec<String>, name: &String) -> (r: bool)
    ensures
        r == names.deep_view().contains(name@),
{
    let mut i: usize = 0;
    while i < names.len()
        invariant
            i <= names@.len(),
            forall|j: int| 0 <= j < i ==> names@[j]@ != name@,
        decreases names@.len() - i,
    {
        if names[i] == *name {
            assert(names.deep_view()[i as int] == name@);
            return true;
        }
        i += 1;
    }
    assert forall|j: int| 0 <= j < names.deep_view().len() implies names.deep_view()[j]
        != name@ by {
        assert(names.deep_view()[j] == names@[j]@);
    }
    false
}

fn collect_paths(files: &Vec<File>, name: &String) -> (r: Vec<String>)
    ensures
        r.deep_view() == paths_named(files@, name@),
{
    let mut out: Vec<String> = Vec::new();
    let mut i: usize = 0;
    assert(files@.take(0) =~= Seq::<File>::empty());
    while i < files.len()
        invariant
            i <= files@.len(),
            out.deep_view() == paths_named(files@.take(i as int), name@),
        decreases files@.len() - i,
    {
        assert(files@.take(i + 1).drop_last() =~= files@.take(i as int));
        let ghost before = out.deep_view();
        if files[i].name == *name {
            out.push(files[i].path.clone());
            assert(out.deep_view() =~= before.push(files@[i as int].path@));
        }
        i += 1;
    }
    assert(files@.take(i as int) =~= files@);
    out
}

/// Adds the names of `files` that `names` lacks, keeping the order.
fn add_names(names: &mut Vec<String>, files: &Vec<File>, Ghost(seen): Ghost<Seq<Seq<char>>>)
    requires
        old(names).deep_view() == distinct_names(seen),
    ensures
        final(names).deep_view() == distinct_names(seen + file_names(files@)),
{
    let mut i: usize = 0;
    assert(seen + file_names(files@).take(0) =~= seen);
    while i < files.len()
        invariant
            i <= files@.len(),
            names.deep_view() == distinct_names(seen + file_names(files@).take(i as int)),
        decreases files@.len() - i,
    {
        let ghost all = seen + file_names(files@).take(i + 1);
        assert(all.drop_last() =~= seen + file_names(files@).take(i as int));
        assert(all.last() == files@[i as int].name@);
        let ghost before = names.deep_view();
        if !contains_name(names, &files[i].name) {
            names.push(files[i].name.clone());
            assert(names.deep_view() =~= before.push(files@[i as int].name@));
        }
        i += 1;
    }
    assert(file_names(files@).take(i as int) =~= file_names(files@));
}

/// Matches the files of two trees by name. A name that only the second list
/// holds is matched against its own later occurrences, so one list given
/// with an empty first list yields the names it holds more than once.
pub fn find_duplicates(files1: &Vec<File>, files2: &Vec<File>) -> (r: Vec<Duplicate>)
    ensures
        r@.map_values(|d: Duplicate| dup_view(d)) == duplicates_of(files1@, files2@),
{
    let mut names: Vec<String> = Vec::new();
    assert(names.deep_view() =~= distinct_names(Seq::empty()));
    add_names(&mut names, files1, Ghost(Seq::empty()));
    assert(Seq::<Seq<char>>::empty() + file_names(files1@) =~= file_names(files1@));
    add_names(&mut names, files2, Ghost(file_names(files1@)));
    let ghost all = names.deep_view();
    let mut out: Vec<Duplicate> = Vec::new();
    let mut i: usize = 0;
    assert(all.take(0) =~= Seq::<Seq<char>>::empty());
    while i < names.len()
        invariant
            i <= names@.len(),
            all == names.deep_view(),
            all == distinct_names(file_names(files1@) + file_names(files2@)),
            out@.map_values(|d: Duplicate| dup_view(d)) == duplicate_entries(
                files1@,
                files2@,
                all.take(i as int),
            ),
        decreases names@.len() - i,
    {
        let name = &names[i];
        let ghost n = all[i as int];
        assert(name@ == n);
        assert(all.take(i + 1).drop_last() =~= all.take(i as int));
        let ghost before = out@.map_values(|d: Duplicate| dup_view(d));
        let in_first = collect_paths(files1, name);
        let mut in_second = collect_paths(files2, name);
        if in_first.len() > 0 {
            if in_second.len() > 0 {
                let first = in_first[in_first.len() - 1].clone();
                assert(first@ == in_first.deep_view().last());
                out.push(
                    Duplicate {
                        file_name: name.clone(),
                        first_dir_match: first,
                        second_dir_match: in_second,
                    },
                );
                assert(out@.map_values(|d: Duplicate| dup_view(d)) =~= before.push(
                    (n, first_path(files1@, files2@, n), second_paths(files1@, files2@, n)),
                ));
            }
        } else if in_second.len() > 1 {
            let ghost all_second = in_second.deep_view();
            let first = in_second.remove(0);
            assert(first@ == all_second[0]);
            assert(in_second.deep_view() =~= all_second.drop_first());
            out.push(
                Duplicate {
                    file_name: name.clone(),
                    first_dir_match: first,
                    second_dir_match: in_second,
                },
            );
            assert(out@.map_values(|d: Duplicate| dup_view(d)) =~= before.push(
                (n, first_path(files1@, files2@, n), second_paths(files1@, files2@, n)),
            ));
        }
        i += 1;
    }
    assert(all.take(i as int) =~= all);
    out
}

/// The duplicates that the scan reports for its walked trees: between the
/// first two, or within the only one; `None` where there is no tree.
pub fn duplicates_of_dirs(dirs: &Vec<Dir>) -> (r: Option<Vec<Duplicate>>)
    ensures
        dirs@.len() == 0 ==> r is None,
        dirs@.len() == 1 ==> (r matches Some(v) && v@.map_values(|d: Duplicate| dup_view(d))
            == duplicates_of(Seq::empty(), dirs@[0].files@)),
        dirs@.len() >= 2 ==> (r matches Some(v) && v@.map_values(|d: Duplicate| dup_view(d))
            == duplicates_of(dirs@[0].files@, dirs@[1].files@)),
{
    if dirs.len() == 0 {
        None
    } else if dirs.len() == 1 {
        let none: Vec<File> = Vec::new();
        Some(find_duplicates(&none, &dirs[0].files))
    } else {
        Some(find_duplicates(&dirs[0].files, &dirs[1].files))
    }
}

/// The directories that a scan walks, from its arguments: the first two,
/// once each where they are equal; `None` where there is none.
pub fn scan_targets(args: &Vec<String>) -> (r: Option<Vec<String>>)
    ensures
        args@.len() == 0 ==> r is None,
        args@.len() == 1 ==> (r matches Some(v) && v@ == seq![args@[0]]),
        args@.len() >= 2 && args@[0]@ == args@[1]@ ==> (r matches Some(v) && v@ == seq![args@[0]]),
        args@.len() >= 2 && args@[0]@ != args@[1]@ ==> (r matches Some(v) && v@ == seq![
            args@[0],
            args@[1],
        ]),
{
    if args.len() == 0 {
        return None;
    }
    let mut v: Vec<String> = Vec::new();
    v.push(args[0].clone());
    if args.len() >= 2 && args[0] != args[1] {
        v.push(args[1].clone());
    }
    Some(v)
}

} // verus!
