//! A host storage that lives in memory: a list of files by path, and the
//! archives it can read.

use crate::util::text::{chars_of, has_prefix, starts_with, string_of_range, text_equal};
use crate::vfs::ig_archive::copy_bytes;
use crate::vfs::ig_fs::{igArchiveEntry, igHostRead, igHostStorage};
use vstd::prelude::*;

verus! {

/// An archive as the memory storage knows it: the bytes of the archive file
/// and the files they stand for.
#[derive(Debug)]
pub struct igMemoryArchive {
    pub image: Vec<u8>,
    pub files: Vec<igArchiveEntry>,
}

/// Files held in memory. A directory exists where a file lies below it.
#[derive(Debug)]
pub struct igMemoryStorage {
    pub files: Vec<igArchiveEntry>,
    pub archives: Vec<igMemoryArchive>,
}

/// Position of the first file named `path`, at or after `from`; the number
/// of files when there is none.
pub open spec fn spec_find_file(files: Seq<igArchiveEntry>, path: Seq<char>, from: int) -> int
    decreases files.len() - from,
{
    if from < 0 || from >= files.len() {
        files.len() as int
    } else if files[from].name@ == path {
        from
    } else {
        spec_find_file(files, path, from + 1)
    }
}

/// What stands in front of everything inside a directory: its path and a
/// separator; nothing for `.`, the root for `/`.
pub open spec fn spec_dir_prefix(dir: Seq<char>) -> Seq<char> {
    if dir == seq!['.'] {
        Seq::empty()
    } else if dir.len() > 0 && dir.last() == '/' {
        dir
    } else {
        dir + seq!['/']
    }
}

/// Whether a file lies directly in the directory with prefix `prefix`.
pub open spec fn spec_directly_in(name: Seq<char>, prefix: Seq<char>) -> bool {
    starts_with(name, prefix) && !name.subrange(prefix.len() as int, name.len() as int).contains(
        '/',
    )
}

/// The names of the first `n` files that lie directly in a directory.
pub open spec fn spec_listing(files: Seq<igArchiveEntry>, prefix: Seq<char>, n: nat) -> Seq<
    Seq<char>,
>
    decreases n,
{
    if n == 0 {
        Seq::empty()
    } else if spec_directly_in(files[n - 1].name@, prefix) {
        spec_listing(files, prefix, (n - 1) as nat).push(
            files[n - 1].name@.subrange(prefix.len() as int, files[n - 1].name@.len() as int),
        )
    } else {
        spec_listing(files, prefix, (n - 1) as nat)
    }
}

/// The paths of the first `n` files that lie at or below a directory.
pub open spec fn spec_files_below(files: Seq<igArchiveEntry>, prefix: Seq<char>, n: nat) -> Seq<
    Seq<char>,
>
    decreases n,
{
    if n == 0 {
        Seq::empty()
    } else if starts_with(files[n - 1].name@, prefix) {
        spec_files_below(files, prefix, (n - 1) as nat).push(files[n - 1].name@)
    } else {
        spec_files_below(files, prefix, (n - 1) as nat)
    }
}

/// Whether any of the first `n` files lies at or below a directory.
pub open spec fn spec_any_below(files: Seq<igArchiveEntry>, prefix: Seq<char>, n: nat) -> bool
    decreases n,
{
    n > 0 && (starts_with(files[n - 1].name@, prefix) || spec_any_below(
        files,
        prefix,
        (n - 1) as nat,
    ))
}

/// Position of the first archive whose bytes are `image`, at or after
/// `from`; the number of archives when there is none.
pub open spec fn spec_find_image(archives: Seq<igMemoryArchive>, image: Seq<u8>, from: int) -> int
    decreases archives.len() - from,
{
    if from < 0 || from >= archives.len() {
        archives.len() as int
    } else if archives[from].image@ == image {
        from
    } else {
        spec_find_image(archives, image, from + 1)
    }
}

/// The texts of a list of strings.
pub open spec fn spec_texts(list: Seq<String>) -> Seq<Seq<char>> {
    Seq::new(list.len(), |i: int| list[i]@)
}

/// Whether two lists of files hold the same names and contents.
pub open spec fn spec_same_files(a: Seq<igArchiveEntry>, b: Seq<igArchiveEntry>) -> bool {
    a.len() == b.len() && forall|i: int|
        0 <= i < a.len() ==> (#[trigger] a[i]).name@ == b[i].name@ && a[i].data@ == b[i].data@
}

/// The prefix of a directory.
fn dir_prefix(dir: &str) -> (prefix: Vec<char>)
    ensures
        prefix@ == spec_dir_prefix(dir@),
{
    let mut d = chars_of(dir);
    if d.len() == 1 && d[0] == '.' {
        assert(d@ =~= seq!['.']);
        return Vec::new();
    }
    if d.len() > 0 && d[d.len() - 1] == '/' {
        return d;
    }
    d.push('/');
    assert(d@ =~= dir@ + seq!['/']);
    d
}

/// Whether two byte strings are equal.
fn bytes_equal(a: &Vec<u8>, b: &Vec<u8>) -> (same: bool)
    ensures
        same == (a@ == b@),
{
    if a.len() != b.len() {
        return false;
    }
    let mut i: usize = 0;
    while i < a.len()
        invariant
            a.len() == b.len(),
            i <= a.len(),
            forall|j: int| 0 <= j < i ==> a@[j] == b@[j],
        decreases a.len() - i,
    {
        if a[i] != b[i] {
            return false;
        }
        i = i + 1;
    }
    assert(a@ =~= b@);
    true
}

impl igMemoryStorage {
    /// A storage without files.
    pub fn new() -> (storage: igMemoryStorage)
        ensures
            storage.files@.len() == 0,
            storage.archives@.len() == 0,
    {
        igMemoryStorage { files: Vec::new(), archives: Vec::new() }
    }

    /// Adds a file behind those that are there.
    pub fn add_file(&mut self, path: &str, data: Vec<u8>)
        ensures
            final(self).files@.len() == old(self).files@.len() + 1,
            final(self).files@.drop_last() == old(self).files@,
            final(self).files@.last().name@ == path@,
            final(self).files@.last().data == data,
            final(self).archives == old(self).archives,
    {
        self.files.push(igArchiveEntry { name: path.to_owned(), data });
        assert(self.files@.drop_last() =~= old(self).files@);
    }

    /// Teaches the storage to read `image` as an archive of `files`.
    pub fn add_archive(&mut self, image: Vec<u8>, files: Vec<igArchiveEntry>)
        ensures
            final(self).archives@.len() == old(self).archives@.len() + 1,
            final(self).archives@.drop_last() == old(self).archives@,
            final(self).archives@.last().image == image,
            final(self).archives@.last().files == files,
            final(self).files == old(self).files,
    {
        self.archives.push(igMemoryArchive { image, files });
        assert(self.archives@.drop_last() =~= old(self).archives@);
    }
}

impl igHostStorage for igMemoryStorage {
    /// Whether a file is named `path` or lies below the directory `path`.
    fn path_exists(&self, path: &str) -> (found: bool)
        ensures
            found == (spec_find_file(self.files@, path@, 0) < self.files@.len() || spec_any_below(
                self.files@,
                spec_dir_prefix(path@),
                self.files@.len(),
            )),
    {
        let mut k: usize = 0;
        while k < self.files.len()
            invariant
                k <= self.files.len(),
                spec_find_file(self.files@, path@, 0) == spec_find_file(
                    self.files@,
                    path@,
                    k as int,
                ),
            decreases self.files.len() - k,
        {
            if text_equal(self.files[k].name.as_str(), path) {
                return true;
            }
            k = k + 1;
        }
        let prefix = dir_prefix(path);
        let mut below = false;
        let mut i: usize = 0;
        while i < self.files.len()
            invariant
                i <= self.files.len(),
                prefix@ == spec_dir_prefix(path@),
                below == spec_any_below(self.files@, prefix@, i as nat),
            decreases self.files.len() - i,
        {
            let name = chars_of(self.files[i].name.as_str());
            if has_prefix(&name, &prefix) {
                below = true;
            }
            i = i + 1;
        }
        below
    }

    /// The contents of the first file named `path`.
    fn read_file(&self, path: &str) -> (read: igHostRead)
        ensures
            match read {
                igHostRead::Data(data) => spec_find_file(self.files@, path@, 0) < self.files@.len()
                    && data@ == self.files@[spec_find_file(self.files@, path@, 0)].data@,
                igHostRead::NotFound => spec_find_file(self.files@, path@, 0) == self.files@.len(),
                igHostRead::Failed => false,
            },
    {
        let mut i: usize = 0;
        while i < self.files.len()
            invariant
                i <= self.files.len(),
                spec_find_file(self.files@, path@, 0) == spec_find_file(
                    self.files@,
                    path@,
                    i as int,
                ),
            decreases self.files.len() - i,
        {
            if text_equal(self.files[i].name.as_str(), path) {
                return igHostRead::Data(copy_bytes(&self.files[i].data));
            }
            i = i + 1;
        }
        igHostRead::NotFound
    }

    /// The names of the files that lie directly in the directory `path`, or
    /// `None` when no file lies at or below it.
    fn list_directory(&self, path: &str) -> (entries: Option<Vec<String>>)
        ensures
            match entries {
                Some(list) => spec_any_below(
                    self.files@,
                    spec_dir_prefix(path@),
                    self.files@.len(),
                ) && spec_texts(list@) == spec_listing(
                    self.files@,
                    spec_dir_prefix(path@),
                    self.files@.len(),
                ),
                None => !spec_any_below(self.files@, spec_dir_prefix(path@), self.files@.len()),
            },
    {
        let prefix = dir_prefix(path);
        let mut list: Vec<String> = Vec::new();
        let mut below = false;
        let mut i: usize = 0;
        assert(spec_texts(list@) =~= spec_listing(self.files@, prefix@, 0));
        while i < self.files.len()
            invariant
                i <= self.files.len(),
                prefix@ == spec_dir_prefix(path@),
                below == spec_any_below(self.files@, prefix@, i as nat),
                spec_texts(list@) == spec_listing(self.files@, prefix@, i as nat),
            decreases self.files.len() - i,
        {
            let name = chars_of(self.files[i].name.as_str());
            if has_prefix(&name, &prefix) {
                below = true;
                let mut direct = true;
                let mut k: usize = prefix.len();
                while k < name.len()
                    invariant
                        prefix.len() <= k <= name.len(),
                        direct == !name@.subrange(prefix.len() as int, k as int).contains('/'),
                    decreases name.len() - k,
                {
                    let ghost before = name@.subrange(prefix.len() as int, k as int);
                    if name[k] == '/' {
                        direct = false;
                    }
                    k = k + 1;
                    proof {
                        let after = name@.subrange(prefix.len() as int, k as int);
                        assert(after =~= before.push(name@[k - 1]));
                        if before.contains('/') {
                            let w = choose|w: int| 0 <= w < before.len() && before[w] == '/';
                            assert(after[w] == '/');
                        }
                        if name@[k - 1] == '/' {
                            assert(after[after.len() - 1] == '/');
                        }
                    }
                }
                if direct {
                    let entry = string_of_range(&name, prefix.len(), name.len());
                    let ghost before = list@;
                    list.push(entry);
                    assert(spec_texts(list@) =~= spec_texts(before).push(entry@));
                }
            }
            i = i + 1;
        }
        if below {
            Some(list)
        } else {
            None
        }
    }

    /// The memory storage removes nothing.
    fn remove_directory(&self, path: &str) -> (removed: bool)
        ensures
            !removed,
    {
        false
    }

    /// The paths of the files that lie at or below the directory `path`.
    fn list_files(&self, path: &str) -> (found: Vec<String>)
        ensures
            spec_texts(found@) == spec_files_below(
                self.files@,
                spec_dir_prefix(path@),
                self.files@.len(),
            ),
    {
        let prefix = dir_prefix(path);
        let mut list: Vec<String> = Vec::new();
        let mut i: usize = 0;
        assert(spec_texts(list@) =~= spec_files_below(self.files@, prefix@, 0));
        while i < self.files.len()
            invariant
                i <= self.files.len(),
                prefix@ == spec_dir_prefix(path@),
                spec_texts(list@) == spec_files_below(self.files@, prefix@, i as nat),
            decreases self.files.len() - i,
        {
            let name = chars_of(self.files[i].name.as_str());
            if has_prefix(&name, &prefix) {
                let entry = self.files[i].name.clone();
                let ghost before = list@;
                list.push(entry);
                assert(spec_texts(list@) =~= spec_texts(before).push(entry@));
            }
            i = i + 1;
        }
        list
    }

    /// The files of the first archive whose bytes are `bytes`.
    fn decode_archive(&self, bytes: &Vec<u8>) -> (files: Option<Vec<igArchiveEntry>>)
        ensures
            match files {
                Some(list) => spec_find_image(self.archives@, bytes@, 0) < self.archives@.len()
                    && spec_same_files(
                    list@,
                    self.archives@[spec_find_image(self.archives@, bytes@, 0)].files@,
                ),
                None => spec_find_image(self.archives@, bytes@, 0) == self.archives@.len(),
            },
    {
        let mut i: usize = 0;
        while i < self.archives.len()
            invariant
                i <= self.archives.len(),
                spec_find_image(self.archives@, bytes@, 0) == spec_find_image(
                    self.archives@,
                    bytes@,
                    i as int,
                ),
            decreases self.archives.len() - i,
        {
            if bytes_equal(&self.archives[i].image, bytes) {
                let source = &self.archives[i].files;
                let mut list: Vec<igArchiveEntry> = Vec::new();
                let mut k: usize = 0;
                while k < source.len()
                    invariant
                        k <= source.len(),
                        list@.len() == k,
                        forall|j: int|
                            0 <= j < k ==> (#[trigger] list@[j]).name@ == source@[j].name@
                                && list@[j].data@ == source@[j].data@,
                    decreases source.len() - k,
                {
                    list.push(
                        igArchiveEntry {
                            name: source[k].name.clone(),
                            data: copy_bytes(&source[k].data),
                        },
                    );
                    k = k + 1;
                }
                return Some(list);
            }
            i = i + 1;
        }
        None
    }
}

} // verus!
