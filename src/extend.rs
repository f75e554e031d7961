//! The decisions of a restore: which files are written, what happens to
//! entries that the snapshot does not hold, and the links to create later.

use vstd::prelude::*;

use crate::entry::{Attributes, DirEntry, SymlinkEntry, has_named, lemma_first_named};
use crate::timestamp::Timestamp;

verus! {

/// What to do with one file of the snapshot.
#[derive(Debug, Clone, Copy, PartialEq, Eq, Structural)]
pub enum FileAction {
    /// Leave the target as it is.
    Skip,
    /// Write the snapshot's contents, then its flags and time.
    Write,
}

/// What to do with an entry of the target that the snapshot does not hold.
#[derive(Debug, Clone, Copy, PartialEq, Eq, Structural)]
pub enum LeftoverAction {
    /// Leave it.
    Keep,
    /// Remove the file.
    RemoveFile,
    /// Remove the directory and everything in it.
    RemoveDir,
}

/// An entry found in a directory of the restore target.
#[derive(Debug, Clone, PartialEq)]
pub struct Found {
    pub name: String,
    pub is_dir: bool,
    pub is_file: bool,
}

/// An entry found in the target as a mathematical value.
pub struct FoundView {
    pub name: Seq<char>,
    pub is_dir: bool,
    pub is_file: bool,
}

impl View for Found {
    type V = FoundView;

    open spec fn view(&self) -> FoundView {
        FoundView { name: self.name@, is_dir: self.is_dir, is_file: self.is_file }
    }
}

/// What the remove policy does with an entry that the snapshot does not hold.
pub open spec fn leftover_of(remove: bool, is_dir: bool, is_file: bool) -> LeftoverAction {
    if !remove {
        LeftoverAction::Keep
    } else if is_dir {
        LeftoverAction::RemoveDir
    } else if is_file {
        LeftoverAction::RemoveFile
    } else {
        LeftoverAction::Keep
    }
}

/// The entries of a target directory that the snapshot's directory does not
/// hold, in the order found, each with what to do with it.
pub open spec fn leftovers_of(remove: bool, children: Seq<crate::entry::FsHashView>, found: Seq<FoundView>) -> Seq<(Seq<char>, LeftoverAction)>
    decreases found.len(),
{
    if found.len() == 0 {
        Seq::empty()
    } else {
        let rest = leftovers_of(remove, children, found.drop_last());
        let f = found.last();
        if has_named(children, f.name) {
            rest
        } else {
            rest.push((f.name, leftover_of(remove, f.is_dir, f.is_file)))
        }
    }
}

/// A link found in the snapshot, to be created by the caller.
#[derive(Debug, Clone, PartialEq)]
pub struct Symlink {
    from: String,
    to: String,
    is_dir: bool,
}

/// A link as a mathematical value.
pub struct SymlinkView {
    pub from: Seq<char>,
    pub to: Seq<char>,
    pub is_dir: bool,
}

impl View for Symlink {
    type V = SymlinkView;

    closed spec fn view(&self) -> SymlinkView {
        SymlinkView { from: self.from@, to: self.to@, is_dir: self.is_dir }
    }
}

impl Symlink {
    /// A link at `from` pointing to `to`.
    pub fn new(from: String, to: String, is_dir: bool) -> (r: Symlink)
        ensures
            r@ == (SymlinkView { from: from@, to: to@, is_dir }),
    {
        Symlink { from, to, is_dir }
    }

    /// Where the link goes.
    pub fn from(&self) -> (r: &str)
        ensures
            r@ == self@.from,
    {
        self.from.as_str()
    }

    /// What the link points to.
    pub fn to(&self) -> (r: &str)
        ensures
            r@ == self@.to,
    {
        self.to.as_str()
    }

    /// Whether the link points to a directory.
    pub fn is_dir(&self) -> (r: bool)
        ensures
            r == self@.is_dir,
    {
        self.is_dir
    }
}

/// The links found during a restore, in the order found.
#[derive(Debug, Clone)]
pub struct Symlinks {
    list: Vec<Symlink>,
}

impl View for Symlinks {
    type V = Seq<SymlinkView>;

    closed spec fn view(&self) -> Seq<SymlinkView> {
        self.list@.map_values(|s: Symlink| s@)
    }
}

impl Symlinks {
    /// No links.
    pub fn new() -> (r: Symlinks)
        ensures
            r@ == Seq::<SymlinkView>::empty(),
    {
        let r = Symlinks { list: Vec::new() };
        assert(r@ =~= Seq::<SymlinkView>::empty());
        r
    }

    /// Adds a link at the end.
    pub fn add(&mut self, symlink: Symlink)
        ensures
            final(self)@ == old(self)@.push(symlink@),
    {
        let ghost before = self@;
        self.list.push(symlink);
        assert(self@ =~= before.push(symlink@));
    }

    /// The links, in the order found.
    pub fn list(&self) -> (r: &[Symlink])
        ensures
            r@.map_values(|s: Symlink| s@) == self@,
    {
        self.list.as_slice()
    }
}

/// Restores snapshots with the chosen overwrite and remove policies.
#[derive(Debug)]
pub struct Extender {
    overwrite: bool,
    remove: bool,
    symlinks: Symlinks,
}

/// An extender as a mathematical value.
pub struct ExtenderView {
    pub overwrite: bool,
    pub remove: bool,
    pub symlinks: Seq<SymlinkView>,
}

impl View for Extender {
    type V = ExtenderView;

    closed spec fn view(&self) -> ExtenderView {
        ExtenderView { overwrite: self.overwrite, remove: self.remove, symlinks: self.symlinks@ }
    }
}

impl Extender {
    /// An extender that neither overwrites nor removes, with no links found.
    pub fn new() -> (r: Extender)
        ensures
            r@ == (ExtenderView { overwrite: false, remove: false, symlinks: Seq::empty() }),
    {
        Extender { overwrite: false, remove: false, symlinks: Symlinks::new() }
    }

    /// Whether files that exist at the target may be rewritten.
    pub fn overwrites(&self) -> (r: bool)
        ensures
            r == self@.overwrite,
    {
        self.overwrite
    }

    /// Whether entries absent from the snapshot are removed from the target.
    pub fn removes(&self) -> (r: bool)
        ensures
            r == self@.remove,
    {
        self.remove
    }

    /// Sets whether files that exist at the target may be rewritten.
    pub fn allow_overwrite(&mut self, allow: bool)
        ensures
            final(self)@ == (ExtenderView { overwrite: allow, ..old(self)@ }),
    {
        self.overwrite = allow;
    }

    /// Sets whether entries absent from the snapshot are removed.
    pub fn allow_remove(&mut self, allow: bool)
        ensures
            final(self)@ == (ExtenderView { remove: allow, ..old(self)@ }),
    {
        self.remove = allow;
    }

    /// The links found so far.
    pub fn symlinks(&self) -> (r: &Symlinks)
        ensures
            r@ == self@.symlinks,
    {
        &self.symlinks
    }

    /// What to do with a file of the snapshot: an existing file is kept
    /// unless overwriting is allowed, and then also when its modification
    /// time equals the snapshot's.
    pub fn file_action(&self, exists: bool, target_modified: Option<Timestamp>, attr: &Attributes) -> (r:
        FileAction)
        ensures
            r == (if !exists {
                FileAction::Write
            } else if !self@.overwrite {
                FileAction::Skip
            } else if target_modified matches Some(t) && t@ == attr@.modified {
                FileAction::Skip
            } else {
                FileAction::Write
            }),
    {
        if !exists {
            return FileAction::Write;
        }
        if !self.overwrite {
            return FileAction::Skip;
        }
        match target_modified {
            Some(t) => {
                if t.unix_epoch() == attr.modified().unix_epoch() {
                    FileAction::Skip
                } else {
                    FileAction::Write
                }
            },
            None => FileAction::Write,
        }
    }

    /// What to do with an entry of the target that the snapshot does not
    /// hold: removed only when removing is allowed.
    pub fn leftover_action(&self, is_dir: bool, is_file: bool) -> (r: LeftoverAction)
        ensures
            r == leftover_of(self@.remove, is_dir, is_file),
    {
        if !self.remove {
            LeftoverAction::Keep
        } else if is_dir {
            LeftoverAction::RemoveDir
        } else if is_file {
            LeftoverAction::RemoveFile
        } else {
            LeftoverAction::Keep
        }
    }

    /// The entries found in a target directory that the snapshot's
    /// directory does not hold, in the order found, each with what to do
    /// with it.
    pub fn leftovers(&self, dir: &DirEntry, found: &Vec<Found>) -> (r: Vec<(String, LeftoverAction)>)
        ensures
            r@.map_values(|x: (String, LeftoverAction)| (x.0@, x.1)) == leftovers_of(
                self@.remove,
                dir@.children,
                found@.map_values(|f: Found| f@),
            ),
    {
        let ghost fv = found@.map_values(|f: Found| f@);
        let mut r: Vec<(String, LeftoverAction)> = Vec::new();
        let mut i: usize = 0;
        assert(fv.take(0) =~= Seq::<FoundView>::empty());
        assert(r@.map_values(|x: (String, LeftoverAction)| (x.0@, x.1)) =~= Seq::<(Seq<char>, LeftoverAction)>::empty());
        while i < found.len()
            invariant
                i <= found@.len(),
                fv == found@.map_values(|f: Found| f@),
                r@.map_values(|x: (String, LeftoverAction)| (x.0@, x.1)) == leftovers_of(
                    self@.remove,
                    dir@.children,
                    fv.take(i as int),
                ),
            decreases found@.len() - i,
        {
            let f = &found[i];
            assert(fv.take(i + 1).drop_last() =~= fv.take(i as int));
            assert(fv.take(i + 1).last() == f@);
            let known = dir.find_child(f.name.as_str()).is_some();
            proof {
                lemma_first_named(dir@.children, f.name@);
            }
            if !known {
                let ghost before = r@.map_values(|x: (String, LeftoverAction)| (x.0@, x.1));
                let a = self.leftover_action(f.is_dir, f.is_file);
                r.push((f.name.clone(), a));
                assert(r@.map_values(|x: (String, LeftoverAction)| (x.0@, x.1)) =~= before.push((f.name@, a)));
            }
            i = i + 1;
        }
        assert(fv.take(i as int) =~= fv);
        r
    }

    /// Records the link of the snapshot that belongs at `path`, for the
    /// caller to create.
    pub fn extend_symlink(&mut self, path: &str, entry: &SymlinkEntry)
        ensures
            final(self)@ == (ExtenderView {
                symlinks: old(self)@.symlinks.push(
                    SymlinkView { from: path@, to: entry@.target, is_dir: entry@.is_dir },
                ),
                ..old(self)@
            }),
    {
        let s = Symlink::new(path.to_owned(), entry.target().to_owned(), entry.is_dir());
        self.symlinks.add(s);
    }
}

} // verus!
