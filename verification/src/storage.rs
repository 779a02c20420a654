//! The persistence model: paths, storage errors, and an explicit model of the
//! file tree that gives exact semantics to loading and saving text files.
//!
//! The editor's load/save semantics are stated and proved against the `Disk`
//! model in this module; the thin unverified shell around the library performs
//! the same operations against the real file system and hands their outcomes
//! to the editor session.

use vstd::prelude::*;
use vstd::pervasive::VecAdditionalExecFns;
use vstd::string::StringExecFns;

verus! {

/// The cause recorded when a file cannot be read.
pub open spec fn read_error_message(shown: Seq<char>) -> Seq<char> {
    "Failed to read file: "@ + shown
}

/// The cause recorded when a file cannot be written.
pub open spec fn write_error_message(shown: Seq<char>) -> Seq<char> {
    "Failed to write file: "@ + shown
}

/// The cause recorded when a directory chain cannot be created.
pub open spec fn create_dir_error_message(shown: Seq<char>) -> Seq<char> {
    "Failed to create directory: "@ + shown
}

/// A failure of the persistence layer, with a human-readable cause.
#[derive(Debug)]
pub enum StorageError {
    /// A file could not be read, written, or created.
    Io(String),
    /// The platform's per-user data directory could not be determined.
    Config(String),
}

impl StorageError {
    /// The human-readable cause carried by the error.
    pub open spec fn message_spec(&self) -> Seq<char> {
        match self {
            StorageError::Io(cause) => cause@,
            StorageError::Config(cause) => cause@,
        }
    }

    /// Returns the human-readable cause as an owned string.
    pub fn message(&self) -> (cause: String)
        ensures
            cause@ == self.message_spec(),
    {
        match self {
            StorageError::Io(cause) => cause.clone(),
            StorageError::Config(cause) => cause.clone(),
        }
    }
}

/// A file-system path as a sequence of components, root first. The last
/// component names the file; the ones before it name the directory chain.
#[derive(Debug)]
pub struct FilePath {
    pub components: Vec<String>,
}

/// The text a path is shown as: its components joined with `/`.
pub open spec fn spec_display(path: Seq<Seq<char>>) -> Seq<char>
    decreases path.len(),
{
    if path.len() == 0 {
        Seq::empty()
    } else if path.len() == 1 {
        path[0]
    } else {
        spec_display(path.drop_last()) + "/"@ + path.last()
    }
}

impl View for FilePath {
    type V = Seq<Seq<char>>;

    open spec fn view(&self) -> Seq<Seq<char>> {
        self.components.deep_view()
    }
}

impl FilePath {
    /// Wraps a component list as a path.
    pub fn new(components: Vec<String>) -> (path: FilePath)
        ensures
            path@ == components.deep_view(),
    {
        FilePath { components }
    }

    /// Joins the first `count` components with `/`.
    pub fn display_prefix(&self, count: usize) -> (shown: String)
        requires
            count <= self.components@.len(),
        ensures
            shown@ == spec_display(self@.take(count as int)),
    {
        let mut shown = String::new();
        let mut i: usize = 0;
        while i < count
            invariant
                i <= count,
                count <= self.components@.len(),
                shown@ == spec_display(self@.take(i as int)),
            decreases count - i,
        {
            if i > 0 {
                shown.append("/");
            }
            shown.append(self.components[i].as_str());
            proof {
                let taken = self@.take(i + 1);
                assert(taken.drop_last() =~= self@.take(i as int));
                assert(taken.last() == self@[i as int]);
                if i == 0 {
                    assert(shown@ =~= self@[0]);
                }
            }
            i += 1;
        }
        shown
    }

    /// Joins all components with `/`.
    pub fn display_string(&self) -> (shown: String)
        ensures
            shown@ == spec_display(self@),
    {
        let count = self.components.len();
        let shown = self.display_prefix(count);
        proof {
            assert(self@.take(count as int) =~= self@);
        }
        shown
    }

    /// Compares this whole path with the first `count` components of `other`.
    pub fn eq_prefix(&self, other: &FilePath, count: usize) -> (same: bool)
        requires
            count <= other.components@.len(),
        ensures
            same == (self@ == other@.take(count as int)),
    {
        if self.components.len() != count {
            proof {
                assert(self@.len() == self.components@.len());
            }
            return false;
        }
        let mut i: usize = 0;
        while i < count
            invariant
                i <= count,
                count <= other.components@.len(),
                self.components@.len() == count,
                forall|j: int| 0 <= j < i ==> self@[j] == other@[j],
            decreases count - i,
        {
            if !(self.components[i] == other.components[i]) {
                proof {
                    assert(self@[i as int] != other@.take(count as int)[i as int]);
                }
                return false;
            }
            i += 1;
        }
        proof {
            assert(self@ =~= other@.take(count as int));
        }
        true
    }

    /// Compares two paths component by component.
    pub fn eq_path(&self, other: &FilePath) -> (same: bool)
        ensures
            same == (self@ == other@),
    {
        let count = other.components.len();
        let same = self.eq_prefix(other, count);
        proof {
            assert(other@.take(count as int) =~= other@);
        }
        same
    }

    /// Copies the first `count` components into a new path.
    pub fn prefix_path(&self, count: usize) -> (prefix: FilePath)
        requires
            count <= self.components@.len(),
        ensures
            prefix@ == self@.take(count as int),
    {
        let mut components: Vec<String> = Vec::new();
        let mut i: usize = 0;
        while i < count
            invariant
                i <= count,
                count <= self.components@.len(),
                components.deep_view() == self@.take(i as int),
            decreases count - i,
        {
            let ghost prev = components.deep_view();
            let component = self.components[i].clone();
            proof {
                assert(component@ == self@[i as int]);
            }
            components.push(component);
            proof {
                assert(components.deep_view() =~= prev.push(self@[i as int]));
                assert(prev.push(self@[i as int]) =~= self@.take(i + 1));
            }
            i += 1;
        }
        FilePath { components }
    }
}

impl Clone for FilePath {
    /// Clones the path; the copy shows the same components.
    fn clone(&self) -> (copy: Self)
        ensures
            copy@ == self@,
    {
        let count = self.components.len();
        let copy = self.prefix_path(count);
        proof {
            assert(self@.take(count as int) =~= self@);
        }
        copy
    }
}

/// A model of the file tree: the text files present, each with its content,
/// and the directories present. At most one entry exists per path, and no
/// path is both a file and a directory.
pub struct Disk {
    files: Vec<(FilePath, String)>,
    dirs: Vec<FilePath>,
}

impl Disk {
    /// A text file exists at `path`.
    pub closed spec fn has_file(self, path: Seq<Seq<char>>) -> bool {
        exists|i: int| 0 <= i < self.files@.len() && (#[trigger] self.files@[i]).0@ == path
    }

    /// The content of the text file at `path` (meaningful when `has_file`).
    pub closed spec fn file_content(self, path: Seq<Seq<char>>) -> Seq<char> {
        let i = choose|i: int| 0 <= i < self.files@.len() && (#[trigger] self.files@[i]).0@
            == path;
        self.files@[i].1@
    }

    /// A directory exists at `path`.
    pub closed spec fn is_dir(self, path: Seq<Seq<char>>) -> bool {
        exists|i: int| 0 <= i < self.dirs@.len() && (#[trigger] self.dirs@[i])@ == path
    }

    /// Every file path occurs once, and no path is both a file and a
    /// directory.
    pub closed spec fn wf(self) -> bool {
        &&& self.files_distinct()
        &&& forall|i: int|
            0 <= i < self.files@.len() ==> !self.is_dir((#[trigger] self.files@[i]).0@)
    }

    /// Every file path occurs at most once among the entries.
    pub closed spec fn files_distinct(self) -> bool {
        forall|i: int, j: int|
            0 <= i < j < self.files@.len() ==> (#[trigger] self.files@[i]).0@ != (
            #[trigger] self.files@[j]).0@
    }

    /// A save of a file at `path` can succeed: the path is not empty, it is
    /// not a directory, and no proper prefix of it is a file. Missing parent
    /// directories do not block a save; they are created by it.
    pub open spec fn save_allowed(self, path: Seq<Seq<char>>) -> bool {
        &&& path.len() > 0
        &&& !self.is_dir(path)
        &&& forall|k: int| 1 <= k < path.len() ==> !self.has_file(#[trigger] path.take(k))
    }

    /// Everything a successful save of `content` at `path` guarantees: the
    /// file now holds exactly `content`, every other file is untouched, the
    /// parent directory chain exists, and no directory appeared other than
    /// the parents of `path`.
    pub open spec fn saved(pre: Disk, post: Disk, path: Seq<Seq<char>>, content: Seq<char>) -> bool {
        &&& post.wf()
        &&& post.has_file(path)
        &&& post.file_content(path) == content
        &&& forall|q: Seq<Seq<char>>|
            q != path ==> ((#[trigger] post.has_file(q)) <==> pre.has_file(q))
        &&& forall|q: Seq<Seq<char>>|
            q != path && pre.has_file(q) ==> (#[trigger] post.file_content(q))
                == pre.file_content(q)
        &&& forall|k: int| 1 <= k < path.len() ==> post.is_dir(#[trigger] path.take(k))
        &&& forall|q: Seq<Seq<char>>|
            (#[trigger] post.is_dir(q)) <==> pre.is_dir(q) || (exists|k: int|
                1 <= k < path.len() && q == #[trigger] path.take(k))
    }

    /// When the entry at a known index holds `path`, the content at `path`
    /// is that entry's content.
    proof fn lemma_content_at_index(self, path: Seq<Seq<char>>, i: int)
        requires
            self.files_distinct(),
            0 <= i < self.files@.len(),
            self.files@[i].0@ == path,
        ensures
            self.has_file(path),
            self.file_content(path) == self.files@[i].1@,
    {
        assert(self.has_file(path));
        let j = choose|j: int| 0 <= j < self.files@.len() && (#[trigger] self.files@[j]).0@
            == path;
        assert(j == i);
    }

    /// Two disks with the same file entries agree on every file.
    proof fn lemma_same_files(a: Disk, b: Disk)
        requires
            a.files_distinct(),
            b.files@ == a.files@,
        ensures
            b.files_distinct(),
            forall|q: Seq<Seq<char>>| (#[trigger] b.has_file(q)) <==> a.has_file(q),
            forall|q: Seq<Seq<char>>|
                a.has_file(q) ==> (#[trigger] b.file_content(q)) == a.file_content(q),
    {
        assert forall|q: Seq<Seq<char>>| (#[trigger] b.has_file(q)) <==> a.has_file(q) by {
            if a.has_file(q) {
                let i = choose|i: int| 0 <= i < a.files@.len() && (#[trigger] a.files@[i]).0@
                    == q;
                assert(b.files@[i].0@ == q);
            }
            if b.has_file(q) {
                let i = choose|i: int| 0 <= i < b.files@.len() && (#[trigger] b.files@[i]).0@
                    == q;
                assert(a.files@[i].0@ == q);
            }
        }
        assert forall|q: Seq<Seq<char>>|
            a.has_file(q) implies (#[trigger] b.file_content(q)) == a.file_content(q) by {
            let i = choose|i: int| 0 <= i < a.files@.len() && (#[trigger] a.files@[i]).0@ == q;
            a.lemma_content_at_index(q, i);
            b.lemma_content_at_index(q, i);
        }
    }

    /// Two disks with the same directory entries agree on every directory.
    proof fn lemma_same_dirs(a: Disk, b: Disk)
        requires
            b.dirs@ == a.dirs@,
        ensures
            forall|q: Seq<Seq<char>>| (#[trigger] b.is_dir(q)) <==> a.is_dir(q),
    {
        assert forall|q: Seq<Seq<char>>| (#[trigger] b.is_dir(q)) <==> a.is_dir(q) by {
            if a.is_dir(q) {
                let i = choose|i: int| 0 <= i < a.dirs@.len() && (#[trigger] a.dirs@[i])@ == q;
                assert((b.dirs@[i])@ == q);
            }
            if b.is_dir(q) {
                let i = choose|i: int| 0 <= i < b.dirs@.len() && (#[trigger] b.dirs@[i])@ == q;
                assert((a.dirs@[i])@ == q);
            }
        }
    }

    /// Pushing a directory entry adds exactly that directory and disturbs no
    /// file.
    proof fn lemma_dirs_push(pre: Disk, post: Disk, path: Seq<Seq<char>>)
        requires
            pre.wf(),
            !pre.has_file(path),
            post.files@ == pre.files@,
            post.dirs@ == pre.dirs@.push(post.dirs@.last()),
            post.dirs@.len() == pre.dirs@.len() + 1,
            post.dirs@.last()@ == path,
        ensures
            post.wf(),
            forall|q: Seq<Seq<char>>| (#[trigger] post.is_dir(q)) <==> pre.is_dir(q) || q == path,
            forall|q: Seq<Seq<char>>| (#[trigger] post.has_file(q)) <==> pre.has_file(q),
            forall|q: Seq<Seq<char>>|
                pre.has_file(q) ==> (#[trigger] post.file_content(q)) == pre.file_content(q),
    {
        Self::lemma_same_files(pre, post);
        assert forall|q: Seq<Seq<char>>| (#[trigger] post.is_dir(q)) <==> pre.is_dir(q) || q
            == path by {
            if pre.is_dir(q) {
                let i = choose|i: int| 0 <= i < pre.dirs@.len() && (#[trigger] pre.dirs@[i])@ == q;
                assert((post.dirs@[i])@ == q);
            }
            if q == path {
                assert((post.dirs@[post.dirs@.len() - 1])@ == q);
            }
            if post.is_dir(q) {
                let i = choose|i: int| 0 <= i < post.dirs@.len() && (#[trigger] post.dirs@[i])@
                    == q;
                if i < pre.dirs@.len() {
                    assert((pre.dirs@[i])@ == q);
                }
            }
        }
    }

    /// Pushing a file entry at a fresh path adds exactly that file and
    /// disturbs no directory.
    proof fn lemma_files_push(pre: Disk, post: Disk, path: Seq<Seq<char>>, content: Seq<char>)
        requires
            pre.wf(),
            !pre.has_file(path),
            !pre.is_dir(path),
            post.dirs@ == pre.dirs@,
            post.files@ == pre.files@.push(post.files@.last()),
            post.files@.len() == pre.files@.len() + 1,
            post.files@.last().0@ == path,
            post.files@.last().1@ == content,
        ensures
            post.wf(),
            post.has_file(path),
            post.file_content(path) == content,
            forall|q: Seq<Seq<char>>|
                q != path ==> ((#[trigger] post.has_file(q)) <==> pre.has_file(q)),
            forall|q: Seq<Seq<char>>|
                q != path && pre.has_file(q) ==> (#[trigger] post.file_content(q))
                    == pre.file_content(q),
            forall|q: Seq<Seq<char>>| (#[trigger] post.is_dir(q)) <==> pre.is_dir(q),
    {
        Self::lemma_same_dirs(pre, post);
        let last = pre.files@.len() as int;
        assert forall|q: Seq<Seq<char>>|
            q != path implies ((#[trigger] post.has_file(q)) <==> pre.has_file(q)) by {
            if pre.has_file(q) {
                let i = choose|i: int| 0 <= i < pre.files@.len() && (#[trigger] pre.files@[i]).0@
                    == q;
                assert(post.files@[i].0@ == q);
            }
            if post.has_file(q) {
                let i = choose|i: int| 0 <= i < post.files@.len() && (#[trigger] post.files@[i]).0@
                    == q;
                assert(i < last);
                assert(pre.files@[i].0@ == q);
            }
        }
        assert(post.files_distinct()) by {
            assert forall|i: int, j: int|
                0 <= i < j < post.files@.len() implies (#[trigger] post.files@[i]).0@ != (
            #[trigger] post.files@[j]).0@ by {
                if j < last {
                    assert(pre.files@[i].0@ != pre.files@[j].0@);
                } else {
                    assert(pre.files@[i].0@ != path);
                }
            }
        }
        post.lemma_content_at_index(path, last);
        assert forall|q: Seq<Seq<char>>|
            q != path && pre.has_file(q) implies (#[trigger] post.file_content(q))
            == pre.file_content(q) by {
            let i = choose|i: int| 0 <= i < pre.files@.len() && (#[trigger] pre.files@[i]).0@ == q;
            pre.lemma_content_at_index(q, i);
            post.lemma_content_at_index(q, i);
        }
        assert forall|i: int|
            0 <= i < post.files@.len() implies !post.is_dir((#[trigger] post.files@[i]).0@) by {
            if i < last {
                assert(!pre.is_dir(pre.files@[i].0@));
            }
        }
    }

    /// Overwriting the content of the entry at index `at` changes exactly
    /// that file's content and nothing else.
    proof fn lemma_files_update(pre: Disk, post: Disk, at: int, content: Seq<char>)
        requires
            pre.wf(),
            0 <= at < pre.files@.len(),
            post.dirs@ == pre.dirs@,
            post.files@ == pre.files@.update(at, post.files@[at]),
            post.files@[at].0@ == pre.files@[at].0@,
            post.files@[at].1@ == content,
        ensures
            post.wf(),
            post.has_file(pre.files@[at].0@),
            post.file_content(pre.files@[at].0@) == content,
            forall|q: Seq<Seq<char>>| (#[trigger] post.has_file(q)) <==> pre.has_file(q),
            forall|q: Seq<Seq<char>>|
                q != pre.files@[at].0@ && pre.has_file(q) ==> (#[trigger] post.file_content(q))
                    == pre.file_content(q),
            forall|q: Seq<Seq<char>>| (#[trigger] post.is_dir(q)) <==> pre.is_dir(q),
    {
        Self::lemma_same_dirs(pre, post);
        let path = pre.files@[at].0@;
        assert forall|q: Seq<Seq<char>>| (#[trigger] post.has_file(q)) <==> pre.has_file(q) by {
            if pre.has_file(q) {
                let i = choose|i: int| 0 <= i < pre.files@.len() && (#[trigger] pre.files@[i]).0@
                    == q;
                assert(post.files@[i].0@ == q);
            }
            if post.has_file(q) {
                let i = choose|i: int| 0 <= i < post.files@.len() && (#[trigger] post.files@[i]).0@
                    == q;
                assert(pre.files@[i].0@ == q);
            }
        }
        assert(post.files_distinct()) by {
            assert forall|i: int, j: int|
                0 <= i < j < post.files@.len() implies (#[trigger] post.files@[i]).0@ != (
            #[trigger] post.files@[j]).0@ by {
                assert(pre.files@[i].0@ != pre.files@[j].0@);
                assert(post.files@[i].0@ == pre.files@[i].0@);
                assert(post.files@[j].0@ == pre.files@[j].0@);
            }
        }
        post.lemma_content_at_index(path, at);
        assert forall|q: Seq<Seq<char>>|
            q != path && pre.has_file(q) implies (#[trigger] post.file_content(q))
            == pre.file_content(q) by {
            let i = choose|i: int| 0 <= i < pre.files@.len() && (#[trigger] pre.files@[i]).0@ == q;
            pre.lemma_content_at_index(q, i);
            assert(post.files@[i].0@ == q);
            assert(post.files@[i].1@ == pre.files@[i].1@);
            post.lemma_content_at_index(q, i);
        }
        assert forall|i: int|
            0 <= i < post.files@.len() implies !post.is_dir((#[trigger] post.files@[i]).0@) by {
            assert(post.files@[i].0@ == pre.files@[i].0@);
            assert(!pre.is_dir(pre.files@[i].0@));
        }
    }

    /// Creates an empty file tree.
    pub fn new() -> (disk: Disk)
        ensures
            disk.wf(),
            forall|p: Seq<Seq<char>>| !(#[trigger] disk.has_file(p)),
            forall|p: Seq<Seq<char>>| !(#[trigger] disk.is_dir(p)),
    {
        Disk { files: Vec::new(), dirs: Vec::new() }
    }

    /// Looks up the index of the entry for `path`, if one exists.
    fn find_file(&self, path: &FilePath) -> (found: Option<usize>)
        ensures
            match found {
                Some(i) => i < self.files@.len() && self.files@[i as int].0@ == path@,
                None => !self.has_file(path@),
            },
    {
        let mut i: usize = 0;
        while i < self.files.len()
            invariant
                i <= self.files@.len(),
                forall|j: int| 0 <= j < i ==> (#[trigger] self.files@[j]).0@ != path@,
            decreases self.files@.len() - i,
        {
            if self.files[i].0.eq_path(path) {
                return Some(i);
            }
            i += 1;
        }
        None
    }

    /// Whether the first `count` components of `path` name a file.
    fn find_file_prefix(&self, path: &FilePath, count: usize) -> (found: bool)
        requires
            count <= path.components@.len(),
        ensures
            found == self.has_file(path@.take(count as int)),
    {
        let mut i: usize = 0;
        while i < self.files.len()
            invariant
                i <= self.files@.len(),
                count <= path.components@.len(),
                forall|j: int|
                    0 <= j < i ==> (#[trigger] self.files@[j]).0@ != path@.take(count as int),
            decreases self.files@.len() - i,
        {
            if self.files[i].0.eq_prefix(path, count) {
                return true;
            }
            i += 1;
        }
        false
    }

    /// Whether the first `count` components of `path` name a directory.
    fn find_dir(&self, path: &FilePath, count: usize) -> (found: bool)
        requires
            count <= path.components@.len(),
        ensures
            found == self.is_dir(path@.take(count as int)),
    {
        let mut i: usize = 0;
        while i < self.dirs.len()
            invariant
                i <= self.dirs@.len(),
                count <= path.components@.len(),
                forall|j: int| 0 <= j < i ==> (#[trigger] self.dirs@[j])@ != path@.take(count as int),
            decreases self.dirs@.len() - i,
        {
            if self.dirs[i].eq_prefix(path, count) {
                return true;
            }
            i += 1;
        }
        false
    }

    /// Reads the full content of the text file at `path`. Fails exactly when
    /// no file exists there, with a cause naming the attempted path.
    pub fn load(&self, path: &FilePath) -> (loaded: Result<String, StorageError>)
        requires
            self.wf(),
        ensures
            loaded is Ok <==> self.has_file(path@),
            loaded matches Ok(content) ==> content@ == self.file_content(path@),
            loaded matches Err(error) ==> error is Io && error.message_spec()
                == read_error_message(spec_display(path@)),
    {
        match self.find_file(path) {
            Some(i) => {
                proof {
                    self.lemma_content_at_index(path@, i as int);
                }
                Ok(self.files[i].1.clone())
            },
            None => {
                let shown = path.display_string();
                let mut cause = String::from_str("Failed to read file: ");
                cause.append(shown.as_str());
                Err(StorageError::Io(cause))
            },
        }
    }

    /// Writes `content` as the text file at `path`, creating any missing
    /// parent directories first and overwriting an existing file wholesale.
    /// Fails, changing nothing, exactly when the path is empty, names a
    /// directory, or has a proper prefix that names a file; the recorded
    /// cause then names the directory chain or the attempted path.
    pub fn save(&mut self, path: &FilePath, content: &str) -> (outcome: Result<(), StorageError>)
        requires
            old(self).wf(),
        ensures
            final(self).wf(),
            outcome is Ok <==> old(self).save_allowed(path@),
            outcome is Ok ==> Disk::saved(*old(self), *final(self), path@, content@),
            outcome is Err ==> *final(self) == *old(self),
            outcome matches Err(error) ==> error is Io,
            outcome matches Err(error) ==> ((exists|k: int|
                1 <= k < path@.len() && old(self).has_file(#[trigger] path@.take(k)))
                ==> error.message_spec() == create_dir_error_message(
                spec_display(path@.take(path@.len() - 1)),
            )),
            outcome matches Err(error) ==> (!(exists|k: int|
                1 <= k < path@.len() && old(self).has_file(#[trigger] path@.take(k)))
                ==> error.message_spec() == write_error_message(spec_display(path@))),
    {
        let count = path.components.len();
        if count == 0 {
            let shown = path.display_string();
            let mut cause = String::from_str("Failed to write file: ");
            cause.append(shown.as_str());
            return Err(StorageError::Io(cause));
        }
        // The parent chain first: a prefix that names a file blocks the save.
        let mut k: usize = 1;
        while k < count
            invariant
                1 <= k <= count,
                count == path@.len(),
                count == path.components@.len(),
                old(self).wf(),
                *self == *old(self),
                forall|j: int| 1 <= j < k ==> !old(self).has_file(#[trigger] path@.take(j)),
            decreases count - k,
        {
            if self.find_file_prefix(path, k) {
                let parent = path.display_prefix(count - 1);
                let mut cause = String::from_str("Failed to create directory: ");
                cause.append(parent.as_str());
                return Err(StorageError::Io(cause));
            }
            k += 1;
        }
        // The target itself must not be a directory.
        if self.find_dir(path, count) {
            proof {
                assert(path@.take(count as int) =~= path@);
            }
            let shown = path.display_string();
            let mut cause = String::from_str("Failed to write file: ");
            cause.append(shown.as_str());
            return Err(StorageError::Io(cause));
        }
        proof {
            assert(path@.take(count as int) =~= path@);
        }
        // Create the missing parent directories.
        let mut k: usize = 1;
        while k < count
            invariant
                1 <= k <= count,
                count == path@.len(),
                count == path.components@.len(),
                old(self).wf(),
                self.wf(),
                self.files@ == old(self).files@,
                forall|j: int| 1 <= j < count ==> !old(self).has_file(#[trigger] path@.take(j)),
                !old(self).is_dir(path@),
                forall|q: Seq<Seq<char>>|
                    (#[trigger] self.is_dir(q)) <==> old(self).is_dir(q) || (exists|j: int|
                        1 <= j < k && q == #[trigger] path@.take(j)),
            decreases count - k,
        {
            proof {
                Self::lemma_same_files(*old(self), *self);
            }
            if !self.find_dir(path, k) {
                let prefix = path.prefix_path(k);
                let ghost before = *self;
                self.dirs.push(prefix);
                proof {
                    Self::lemma_dirs_push(before, *self, path@.take(k as int));
                }
            }
            k += 1;
        }
        proof {
            Self::lemma_same_files(*old(self), *self);
            // No proper prefix of `path` is `path` itself, so the target is
            // still not a directory.
            assert forall|j: int| 1 <= j < count implies path@.take(j) != path@ by {
                assert(path@.take(j).len() == j);
            }
            assert(!self.is_dir(path@));
        }
        // Write the file, overwriting an entry already present.
        let ghost mid = *self;
        let text = String::from_str(content);
        match self.find_file(path) {
            Some(at) => {
                let key = self.files[at].0.clone();
                self.files.set(at, (key, text));
                proof {
                    Self::lemma_files_update(mid, *self, at as int, content@);
                }
            },
            None => {
                let key = path.clone();
                self.files.push((key, text));
                proof {
                    Self::lemma_files_push(mid, *self, path@, content@);
                }
            },
        }
        proof {
            assert(Disk::saved(*old(self), *self, path@, content@));
        }
        Ok(())
    }
}

/// Round trip: once a save of `content` at `path` has succeeded, the file at
/// `path` holds exactly `content`, so by `Disk::load`'s contract a load of
/// `path` on the resulting tree returns `Ok` with exactly `content`.
pub proof fn lemma_save_then_load(pre: Disk, post: Disk, path: Seq<Seq<char>>, content: Seq<char>)
    requires
        Disk::saved(pre, post, path, content),
    ensures
        post.wf(),
        post.has_file(path),
        post.file_content(path) == content,
{
}

} // verus!
