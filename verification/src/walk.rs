//! The directory walker: which configuration locations to visit next,
//! which directories to scan, and which files a scan has found.
//!
//! Reading the file system is the caller's part.  The walker holds the
//! work lists and decides, from what the caller found at each location,
//! what is to be visited next; the caller runs the loop.
use crate::config::{directives_of, parsed_directives, Directive, ParseFontsConf};
use crate::paths::{
    file_name_of, path_file_name, process_path, resolved_path, EnvironmentModel, FcEnvironment,
};
use crate::pattern::text_of;
use crate::text::{ends_with, has_suffix};
use vstd::prelude::*;
use vstd::string::*;

verus! {

/// The base configuration file, at which the expansion begins.
pub const BASE_FONTCONFIG_PATH: &'static str = "/etc/fonts/fonts.conf";

/// One entry of a directory listing, as the caller found it.
#[derive(Debug, PartialEq, Eq)]
pub struct FcDirEntry {
    /// The path of the entry.
    pub path: String,
    /// The entry is a regular file, symbolic links followed.
    pub is_file: bool,
    /// The entry is a directory, symbolic links followed.
    pub is_dir: bool,
}

/// The content of a list of strings.
pub open spec fn texts_of(v: Seq<String>) -> Seq<Seq<char>> {
    Seq::new(v.len(), |i: int| v[i]@)
}

/// The name of a numbered configuration fragment: it begins with an ASCII
/// digit and ends in `.conf`.
pub open spec fn is_config_fragment(name: Seq<char>) -> bool {
    name.len() > 0 && '0' <= name[0] <= '9' && has_suffix(name, ".conf"@)
}

/// Whether a file name is that of a numbered configuration fragment.
pub fn is_fragment_name(name: &str) -> (r: bool)
    ensures
        r == is_config_fragment(name@),
{
    if name.unicode_len() == 0 {
        return false;
    }
    let first = name.get_char(0);
    first >= '0' && first <= '9' && ends_with(name, ".conf")
}

/// An entry is a numbered configuration fragment: a regular file whose
/// path ends in a component with the name of one.
pub open spec fn is_fragment_entry(entry: FcDirEntry) -> bool {
    entry.is_file && match path_file_name(entry.path@) {
        Some(name) => is_config_fragment(name),
        None => false,
    }
}

/// Whether an entry is a numbered configuration fragment.
pub fn entry_is_fragment(entry: &FcDirEntry) -> (r: bool)
    ensures
        r == is_fragment_entry(*entry),
{
    if !entry.is_file {
        return false;
    }
    match file_name_of(entry.path.as_str()) {
        Some(name) => is_fragment_name(name.as_str()),
        None => false,
    }
}

/// The configuration locations that a directory listing contributes:
/// each numbered configuration fragment, without prefix, in listing
/// order.
pub open spec fn fragments(entries: Seq<FcDirEntry>) -> Seq<Directive>
    decreases entries.len(),
{
    if entries.len() == 0 {
        Seq::empty()
    } else {
        let rest = fragments(entries.drop_last());
        let entry = entries.last();
        if is_fragment_entry(entry) {
            rest.push((None, entry.path@))
        } else {
            rest
        }
    }
}

/// The position and the resolved path of the pending location that is
/// visited next: the last one, in list order, that resolves as a path of
/// a configuration file.  `None` where no pending location resolves.
pub open spec fn next_visit(pending: Seq<Directive>, env: EnvironmentModel) -> Option<
    (int, Seq<char>),
>
    decreases pending.len(),
{
    if pending.len() == 0 {
        None
    } else {
        match resolved_path(pending.last().0, pending.last().1, true, env) {
            Some(path) => Some((pending.len() - 1, path)),
            None => next_visit(pending.drop_last(), env),
        }
    }
}

/// The expansion of the configuration: the locations still to visit,
/// last one first, and the directories to scan found so far.
#[derive(Debug, PartialEq, Eq)]
pub struct FcScanDirectories {
    /// Configuration locations that wait to be visited.
    pub paths_to_visit: Vec<(Option<String>, String)>,
    /// Directories to scan, with their prefixes.
    pub font_paths: Vec<(Option<String>, String)>,
}

impl FcScanDirectories {
    /// Begins the expansion at the base configuration file.  Without
    /// that file there is nothing to expand: the result is `None`.
    pub fn start(base_exists: bool) -> (r: Option<FcScanDirectories>)
        ensures
            base_exists <==> r is Some,
            r matches Some(scan) ==> directives_of(scan.paths_to_visit@) == seq![
                (None::<Seq<char>>, BASE_FONTCONFIG_PATH@),
            ] && scan.font_paths@.len() == 0,
    {
        if !base_exists {
            return None;
        }
        let mut paths_to_visit: Vec<(Option<String>, String)> = Vec::new();
        paths_to_visit.push((None, String::from_str(BASE_FONTCONFIG_PATH)));
        let scan = FcScanDirectories { paths_to_visit, font_paths: Vec::new() };
        assert(directives_of(scan.paths_to_visit@) =~= seq![
            (None::<Seq<char>>, BASE_FONTCONFIG_PATH@),
        ]);
        Some(scan)
    }

    /// Takes pending locations off the list until one resolves, and
    /// returns its resolved path for the caller to look at.  Locations
    /// that do not resolve are dropped.  `None` when nothing is left to
    /// visit.
    pub fn next_location(&mut self, env: &FcEnvironment) -> (r: Option<String>)
        ensures
            final(self).font_paths == old(self).font_paths,
            match next_visit(directives_of(old(self).paths_to_visit@), env@) {
                Some((position, path)) => {
                    &&& text_of(r) == Some(path)
                    &&& final(self).paths_to_visit@ == old(self).paths_to_visit@.take(position)
                },
                None => r is None && final(self).paths_to_visit@.len() == 0,
            },
    {
        let ghost all = self.paths_to_visit@;
        assert(all.take(all.len() as int) =~= all);
        loop
            invariant
                self.font_paths == old(self).font_paths,
                all == old(self).paths_to_visit@,
                self.paths_to_visit@.len() <= all.len(),
                self.paths_to_visit@ == all.take(self.paths_to_visit@.len() as int),
                next_visit(directives_of(all), env@) == next_visit(
                    directives_of(self.paths_to_visit@),
                    env@,
                ),
            decreases self.paths_to_visit@.len(),
        {
            let ghost before = self.paths_to_visit@;
            match self.paths_to_visit.pop() {
                None => {
                    return None;
                },
                Some((prefix, path)) => {
                    proof {
                        assert(directives_of(before).drop_last() =~= directives_of(
                            self.paths_to_visit@,
                        ));
                        assert(directives_of(before).last() == (text_of(prefix), path@));
                        assert(self.paths_to_visit@ =~= all.take(before.len() - 1));
                    }
                    if let Some(found) = process_path(&prefix, path, true, env) {
                        return Some(found);
                    }
                },
            }
        }
    }

    /// Takes in the text of a configuration file that the caller read at
    /// the location last handed out: what the document yields is added
    /// to the two lists.  A document that does not parse adds nothing.
    pub fn visit_file(&mut self, text: &str)
        ensures
            match parsed_directives(text@) {
                Some(found) => {
                    &&& directives_of(final(self).paths_to_visit@) == directives_of(
                        old(self).paths_to_visit@,
                    ) + found.0
                    &&& directives_of(final(self).font_paths@) == directives_of(
                        old(self).font_paths@,
                    ) + found.1
                },
                None => *final(self) == *old(self),
            },
    {
        let _ = ParseFontsConf(text, &mut self.paths_to_visit, &mut self.font_paths);
    }

    /// Takes in the listing of a directory that the caller found at the
    /// location last handed out: its numbered configuration fragments
    /// are added to the locations to visit.
    pub fn visit_directory(&mut self, entries: &[FcDirEntry])
        ensures
            final(self).font_paths == old(self).font_paths,
            directives_of(final(self).paths_to_visit@) == directives_of(old(self).paths_to_visit@)
                + fragments(entries@),
    {
        let ghost start = directives_of(self.paths_to_visit@);
        let mut i: usize = 0;
        assert(entries@.take(0) =~= Seq::<FcDirEntry>::empty());
        assert(start + fragments(entries@.take(0)) =~= start);
        while i < entries.len()
            invariant
                i <= entries.len(),
                self.font_paths == old(self).font_paths,
                start == directives_of(old(self).paths_to_visit@),
                directives_of(self.paths_to_visit@) == start + fragments(entries@.take(i as int)),
            decreases entries.len() - i,
        {
            let entry = &entries[i];
            proof {
                assert(entries@.take(i + 1).drop_last() =~= entries@.take(i as int));
                assert(entries@.take(i + 1).last() == *entry);
            }
            if entry_is_fragment(entry) {
                let ghost before = directives_of(self.paths_to_visit@);
                self.paths_to_visit.push((None, entry.path.clone()));
                assert(directives_of(self.paths_to_visit@) =~= before.push((None, entry.path@)));
                assert(start + fragments(entries@.take(i as int)).push((None, entry.path@)) =~= (
                start + fragments(entries@.take(i as int))).push((None, entry.path@)));
            }
            i += 1;
        }
        assert(entries@.take(entries@.len() as int) =~= entries@);
    }

    /// Ends the expansion and gives the directories to scan.  Where none
    /// was found, discovery has failed: the result is `None`.
    pub fn finish(self) -> (r: Option<Vec<(Option<String>, String)>>)
        ensures
            match r {
                Some(dirs) => dirs == self.font_paths && dirs@.len() > 0,
                None => self.font_paths@.len() == 0,
            },
    {
        if self.font_paths.len() == 0 {
            None
        } else {
            Some(self.font_paths)
        }
    }
}

/// The directories to scan after resolution: each directive that
/// resolves as a directory path contributes its resolved path, in order;
/// the others are passed over.
pub open spec fn scan_roots(paths: Seq<Directive>, env: EnvironmentModel) -> Seq<Seq<char>>
    decreases paths.len(),
{
    if paths.len() == 0 {
        Seq::empty()
    } else {
        let rest = scan_roots(paths.drop_last(), env);
        match resolved_path(paths.last().0, paths.last().1, false, env) {
            Some(path) => rest.push(path),
            None => rest,
        }
    }
}

/// Resolves the directories to scan.  Each resolved directory is a root
/// for the caller to scan, independently of the others.
pub fn FcScanDirectoriesInner(paths: &[(Option<String>, String)], env: &FcEnvironment) -> (r: Vec<
    String,
>)
    ensures
        texts_of(r@) == scan_roots(directives_of(paths@), env@),
{
    let ghost all = directives_of(paths@);
    let mut roots: Vec<String> = Vec::new();
    let mut i: usize = 0;
    assert(all.take(0) =~= Seq::<Directive>::empty());
    assert(texts_of(roots@) =~= Seq::<Seq<char>>::empty());
    while i < paths.len()
        invariant
            i <= paths.len(),
            all == directives_of(paths@),
            texts_of(roots@) == scan_roots(all.take(i as int), env@),
        decreases paths.len() - i,
    {
        proof {
            assert(all.take(i + 1).drop_last() =~= all.take(i as int));
            assert(all.take(i + 1).last() == (text_of(paths@[i as int].0), paths@[i as int].1@));
        }
        if let Some(root) = process_path(&paths[i].0, paths[i].1.clone(), false, env) {
            let ghost before = texts_of(roots@);
            let ghost added = root@;
            roots.push(root);
            assert(texts_of(roots@) =~= before.push(added));
        }
        i += 1;
    }
    assert(all.take(paths@.len() as int) =~= all);
    roots
}

/// The paths of the directories among the entries of a listing, in
/// listing order.
pub open spec fn directories_among(entries: Seq<FcDirEntry>) -> Seq<Seq<char>>
    decreases entries.len(),
{
    if entries.len() == 0 {
        Seq::empty()
    } else {
        let rest = directories_among(entries.drop_last());
        if entries.last().is_dir {
            rest.push(entries.last().path@)
        } else {
            rest
        }
    }
}

/// The paths of the regular files among the entries of a listing, in
/// listing order.
pub open spec fn files_among(entries: Seq<FcDirEntry>) -> Seq<Seq<char>>
    decreases entries.len(),
{
    if entries.len() == 0 {
        Seq::empty()
    } else {
        let rest = files_among(entries.drop_last());
        if !entries.last().is_dir && entries.last().is_file {
            rest.push(entries.last().path@)
        } else {
            rest
        }
    }
}

/// The scan of one directory tree, level by level: the directories of
/// the current level, which the caller is to list, and the files found
/// on the levels above.
#[derive(Debug, PartialEq, Eq)]
pub struct FcScanSingleDirectoryRecursive {
    /// The directories of the current level.
    pub dirs_to_parse: Vec<String>,
    /// The files found so far.
    pub files_to_parse: Vec<String>,
}

impl FcScanSingleDirectoryRecursive {
    /// Begins a scan at its root directory.
    pub fn start(dir: String) -> (r: FcScanSingleDirectoryRecursive)
        ensures
            texts_of(r.dirs_to_parse@) == seq![dir@],
            r.files_to_parse@.len() == 0,
    {
        let mut dirs_to_parse: Vec<String> = Vec::new();
        let ghost root = dir@;
        dirs_to_parse.push(dir);
        assert(texts_of(dirs_to_parse@) =~= seq![root]);
        FcScanSingleDirectoryRecursive { dirs_to_parse, files_to_parse: Vec::new() }
    }

    /// Takes in the entries of all directories of the current level that
    /// the caller could list, and moves to the next level: the
    /// directories among the entries become the new level, the regular
    /// files join the files found.  Returns whether a level is left to
    /// list; the scan is over when it returns `false`.
    pub fn advance(&mut self, entries: &[FcDirEntry]) -> (more: bool)
        ensures
            texts_of(final(self).dirs_to_parse@) == directories_among(entries@),
            texts_of(final(self).files_to_parse@) == texts_of(old(self).files_to_parse@)
                + files_among(entries@),
            more == (directories_among(entries@).len() > 0),
    {
        let ghost start = texts_of(self.files_to_parse@);
        let mut new_dirs_to_parse: Vec<String> = Vec::new();
        let mut i: usize = 0;
        assert(entries@.take(0) =~= Seq::<FcDirEntry>::empty());
        assert(start + files_among(entries@.take(0)) =~= start);
        assert(texts_of(new_dirs_to_parse@) =~= Seq::<Seq<char>>::empty());
        while i < entries.len()
            invariant
                i <= entries.len(),
                start == texts_of(old(self).files_to_parse@),
                texts_of(new_dirs_to_parse@) == directories_among(entries@.take(i as int)),
                texts_of(self.files_to_parse@) == start + files_among(entries@.take(i as int)),
            decreases entries.len() - i,
        {
            let entry = &entries[i];
            proof {
                assert(entries@.take(i + 1).drop_last() =~= entries@.take(i as int));
                assert(entries@.take(i + 1).last() == *entry);
            }
            if entry.is_dir {
                let ghost before = texts_of(new_dirs_to_parse@);
                new_dirs_to_parse.push(entry.path.clone());
                assert(texts_of(new_dirs_to_parse@) =~= before.push(entry.path@));
            } else if entry.is_file {
                let ghost before = texts_of(self.files_to_parse@);
                self.files_to_parse.push(entry.path.clone());
                assert(texts_of(self.files_to_parse@) =~= before.push(entry.path@));
                assert(start + files_among(entries@.take(i as int)).push(entry.path@) =~= (start
                    + files_among(entries@.take(i as int))).push(entry.path@));
            }
            i += 1;
        }
        assert(entries@.take(entries@.len() as int) =~= entries@);
        let more = new_dirs_to_parse.len() > 0;
        self.dirs_to_parse = new_dirs_to_parse;
        more
    }
}

} // verus!
