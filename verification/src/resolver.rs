//! The executable resolver: an index from bare command names to absolute
//! paths, built once per session from the search-path directories, in
//! order, with the first directory that holds a name winning. Lookups check
//! the working directory first, then the index.
//!
//! The filesystem scan itself happens outside the library; the index is
//! built from the scan's plain results, one listing per directory.

use vstd::prelude::*;

use crate::parser::spec_path_push;
use crate::parser::path_push;
use crate::text::vec_contains_string;

verus! {

/// One search-path directory and the executable names found in it.
pub struct DirListing {
    /// The directory's path.
    pub path: String,
    /// The bare file names of the executable entries inside it.
    pub executables: Vec<String>,
}

/// The first index at or after `i` where `names` holds `name`.
pub open spec fn find_name_from(names: Seq<Seq<char>>, name: Seq<char>, i: int) -> Option<int>
    decreases names.len() - i,
{
    if i < 0 || i >= names.len() {
        None
    } else if names[i] == name {
        Some(i)
    } else {
        find_name_from(names, name, i + 1)
    }
}

/// Resolution of `name` against the directories `dirs[i..end]`: the first
/// directory listing `name` gives the absolute path.
pub open spec fn dirs_lookup_range(
    dirs: Seq<DirListing>,
    name: Seq<char>,
    i: int,
    end: int,
) -> Option<Seq<char>>
    decreases end - i,
{
    if i < 0 || i >= end || i >= dirs.len() {
        None
    } else if dirs[i].executables.deep_view().contains(name) {
        Some(spec_path_push(dirs[i].path@, name))
    } else {
        dirs_lookup_range(dirs, name, i + 1, end)
    }
}

/// Resolution of `name` against all the directories, first match winning.
pub open spec fn dirs_lookup(dirs: Seq<DirListing>, name: Seq<char>) -> Option<Seq<char>> {
    dirs_lookup_range(dirs, name, 0, dirs.len() as int)
}

proof fn lemma_find_name_push(names: Seq<Seq<char>>, name: Seq<char>, i: int, x: Seq<char>)
    requires
        0 <= i <= names.len(),
    ensures
        find_name_from(names.push(x), name, i) == match find_name_from(names, name, i) {
            Some(k) => Some(k),
            None => if x == name {
                Some(names.len() as int)
            } else {
                None
            },
        },
    decreases names.len() - i,
{
    if i < names.len() {
        assert(names.push(x)[i] == names[i]);
        lemma_find_name_push(names, name, i + 1, x);
    } else {
        assert(names.push(x)[i] == x);
        if x != name {
            assert(find_name_from(names.push(x), name, i + 1) == None::<int>);
        }
    }
}

proof fn lemma_dirs_lookup_extend(dirs: Seq<DirListing>, name: Seq<char>, i: int, end: int)
    requires
        0 <= i <= end < dirs.len(),
    ensures
        dirs_lookup_range(dirs, name, i, end + 1) == match dirs_lookup_range(dirs, name, i, end) {
            Some(p) => Some(p),
            None => if dirs[end].executables.deep_view().contains(name) {
                Some(spec_path_push(dirs[end].path@, name))
            } else {
                None
            },
        },
    decreases end - i,
{
    if i < end {
        lemma_dirs_lookup_extend(dirs, name, i + 1, end);
    } else {
        assert(dirs_lookup_range(dirs, name, i, end) == None::<Seq<char>>);
        assert(dirs_lookup_range(dirs, name, end + 1, end + 1) == None::<Seq<char>>);
    }
}

/// What a name-to-path table answers for `name`: the path beside the first
/// occurrence of the name.
pub open spec fn table_lookup(
    names: Seq<Seq<char>>,
    paths: Seq<Seq<char>>,
    name: Seq<char>,
) -> Option<Seq<char>> {
    match find_name_from(names, name, 0) {
        Some(i) => Some(paths[i]),
        None => None,
    }
}

/// The session's view of the operating system's executables: the immutable
/// index built at session start.
pub struct OSInstance {
    names: Vec<String>,
    paths: Vec<String>,
}

impl OSInstance {
    #[verifier::type_invariant]
    closed spec fn wf(&self) -> bool {
        self.names@.len() == self.paths@.len()
    }

    /// The indexed names, in the order the scan found them, without
    /// duplicates.
    pub closed spec fn spec_names(&self) -> Seq<Seq<char>> {
        self.names.deep_view()
    }

    /// The absolute path the index maps `name` to, if any.
    pub closed spec fn spec_lookup(&self, name: Seq<char>) -> Option<Seq<char>> {
        table_lookup(self.names.deep_view(), self.paths.deep_view(), name)
    }

    /// Builds the index from the search-path directories' listings, in
    /// listed order; a name found in an earlier directory is never
    /// overwritten by a later one.
    pub fn new(dirs: &Vec<DirListing>) -> (os: OSInstance)
        ensures
            forall|name: Seq<char>| #[trigger] os.spec_lookup(name) == dirs_lookup(dirs@, name),
            forall|name: Seq<char>|
                os.spec_names().contains(name) == dirs_lookup(dirs@, name) is Some,
    {
        let mut names: Vec<String> = Vec::new();
        let mut paths: Vec<String> = Vec::new();
        let mut i: usize = 0;
        proof {
            assert(names.deep_view() =~= Seq::<Seq<char>>::empty());
        }
        while i < dirs.len()
            invariant
                i <= dirs@.len(),
                names@.len() == paths@.len(),
                forall|name: Seq<char>| #[trigger] table_lookup(
                    names.deep_view(),
                    paths.deep_view(),
                    name,
                ) == dirs_lookup_range(dirs@, name, 0, i as int),
            decreases dirs.len() - i,
        {
            let dir = &dirs[i];
            let mut j: usize = 0;
            while j < dir.executables.len()
                invariant
                    i < dirs@.len(),
                    j <= dir.executables@.len(),
                    dir == dirs@[i as int],
                    names@.len() == paths@.len(),
                    forall|name: Seq<char>| #[trigger] table_lookup(
                        names.deep_view(),
                        paths.deep_view(),
                        name,
                    ) == (match dirs_lookup_range(dirs@, name, 0, i as int) {
                        Some(p) => Some(p),
                        None => if dirs@[i as int].executables.deep_view().take(
                            j as int,
                        ).contains(name) {
                            Some(spec_path_push(dirs@[i as int].path@, name))
                        } else {
                            None
                        },
                    }),
                decreases dir.executables.len() - j,
            {
                let name = &dir.executables[j];
                let ghost names_pre = names.deep_view();
                let ghost paths_pre = paths.deep_view();
                let present = vec_contains_string(&names, name);
                if !present {
                    let full = path_push(dir.path.as_str(), name.as_str());
                    names.push(name.clone());
                    paths.push(full);
                    proof {
                        assert(names.deep_view() =~= names_pre.push(name@));
                        assert(paths.deep_view() =~= paths_pre.push(
                            spec_path_push(dirs@[i as int].path@, name@),
                        ));
                    }
                }
                proof {
                    let execs = dirs@[i as int].executables.deep_view();
                    let dpath = dirs@[i as int].path@;
                    assert(execs.take(j + 1) =~= execs.take(j as int).push(execs[j as int]));
                    assert(execs[j as int] == name@);
                    assert forall|n: Seq<char>| #[trigger] table_lookup(
                        names.deep_view(),
                        paths.deep_view(),
                        n,
                    ) == (match dirs_lookup_range(dirs@, n, 0, i as int) {
                        Some(p) => Some(p),
                        None => if execs.take(j + 1).contains(n) {
                            Some(spec_path_push(dpath, n))
                        } else {
                            None
                        },
                    }) by {
                        let pre_val = table_lookup(names_pre, paths_pre, n);
                        lemma_contains_iff_found(names_pre, n);
                        lemma_found_range(names_pre, n, 0);
                        if n == name@ {
                            assert(execs.take(j + 1)[j as int] == n);
                            assert(execs.take(j + 1).contains(n));
                        } else {
                            assert forall|t: int|
                                0 <= t < j + 1 && #[trigger] execs.take(j + 1)[t] == n implies 0
                                <= t < j by {
                                assert(execs.take(j + 1)[j as int] == name@);
                            }
                            assert(execs.take(j + 1).contains(n) == execs.take(
                                j as int,
                            ).contains(n));
                        }
                        if !present {
                            lemma_find_name_push(names_pre, n, 0, name@);
                        }
                    }
                }
                j = j + 1;
            }
            proof {
                let execs = dirs@[i as int].executables.deep_view();
                assert(execs.take(execs.len() as int) =~= execs);
                assert forall|n: Seq<char>| #[trigger] table_lookup(
                    names.deep_view(),
                    paths.deep_view(),
                    n,
                ) == dirs_lookup_range(dirs@, n, 0, i + 1) by {
                    lemma_dirs_lookup_extend(dirs@, n, 0, i as int);
                }
            }
            i = i + 1;
        }
        let os = OSInstance { names, paths };
        proof {
            assert forall|name: Seq<char>| #[trigger] os.spec_names().contains(name)
                == dirs_lookup(dirs@, name) is Some by {
                assert(table_lookup(os.names.deep_view(), os.paths.deep_view(), name)
                    == dirs_lookup_range(dirs@, name, 0, dirs@.len() as int));
                lemma_contains_iff_found(os.names.deep_view(), name);
            }
            assert forall|name: Seq<char>| #[trigger] os.spec_lookup(name) == dirs_lookup(
                dirs@,
                name,
            ) by {
                assert(table_lookup(os.names.deep_view(), os.paths.deep_view(), name)
                    == dirs_lookup_range(dirs@, name, 0, dirs@.len() as int));
            }
        }
        os
    }

    /// Looks `name` up in the index alone.
    pub fn lookup(&self, name: &String) -> (r: Option<String>)
        ensures
            (r is Some) == (self.spec_lookup(name@) is Some),
            r matches Some(p) ==> Some(p@) == self.spec_lookup(name@),
    {
        proof {
            use_type_invariant(self);
        }
        let mut k: usize = 0;
        while k < self.names.len()
            invariant
                k <= self.names@.len(),
                self.wf(),
                find_name_from(self.names.deep_view(), name@, 0) == find_name_from(
                    self.names.deep_view(),
                    name@,
                    k as int,
                ),
            decreases self.names.len() - k,
        {
            if self.names[k].eq(name) {
                return Some(self.paths[k].clone());
            }
            k = k + 1;
        }
        None
    }

    /// Where `name` resolves to: a same-named executable right in the
    /// working directory wins; otherwise the index answers.
    pub open spec fn spec_find_executable(
        &self,
        name: Seq<char>,
        cwd: Seq<char>,
        cwd_executables: Seq<Seq<char>>,
    ) -> Option<Seq<char>> {
        if cwd_executables.contains(name) {
            Some(spec_path_push(cwd, name))
        } else {
            self.spec_lookup(name)
        }
    }

    /// Looks `name` up, as [`Self::spec_find_executable`] says.
    pub fn find_executable(
        &self,
        name: &String,
        current_dir: &str,
        cwd_executables: &Vec<String>,
    ) -> (r: Option<String>)
        ensures
            (r is Some) == (self.spec_find_executable(
                name@,
                current_dir@,
                cwd_executables.deep_view(),
            ) is Some),
            r matches Some(p) ==> Some(p@) == self.spec_find_executable(
                name@,
                current_dir@,
                cwd_executables.deep_view(),
            ),
    {
        if vec_contains_string(cwd_executables, name) {
            Some(path_push(current_dir, name.as_str()))
        } else {
            self.lookup(name)
        }
    }

    /// The indexed command names, for the completion's known-command set.
    pub fn get_know_commands(&self) -> (r: Vec<String>)
        ensures
            r.deep_view() == self.spec_names(),
    {
        crate::text::clone_strings(&self.names)
    }
}

proof fn lemma_contains_iff_found(names: Seq<Seq<char>>, name: Seq<char>)
    ensures
        names.contains(name) == (find_name_from(names, name, 0) is Some),
{
    lemma_found_range(names, name, 0);
}

proof fn lemma_found_range(names: Seq<Seq<char>>, name: Seq<char>, i: int)
    requires
        0 <= i <= names.len(),
    ensures
        (find_name_from(names, name, i) is Some) == exists|t: int|
            i <= t < names.len() && names[t] == name,
        find_name_from(names, name, i) matches Some(k) ==> i <= k < names.len() && names[k]
            == name,
    decreases names.len() - i,
{
    if i < names.len() {
        lemma_found_range(names, name, i + 1);
        if names[i] == name {
            assert(exists|t: int| i <= t < names.len() && names[t] == name);
        }
    }
}

} // verus!
