//! The filesystem shadow: an in-memory, content-addressed mirror of a
//! directory tree. Paths live in exactly one of two registries, `files`
//! (live) and `deleted_files` (tombstoned); deletions can be undone by a
//! reset or accepted by a commit, and the pending change set can be read
//! off as a sequence of file diffs without touching disk.

use vstd::prelude::*;
use vstd::string::*;
use sha2::Digest;
use crate::error::{SandboxError, SandboxResult};
use crate::keyed::{
    Keyed, find_index, lemma_lookup_append, lemma_lookup_characterization, lemma_lookup_push,
    lemma_lookup_remove,
    lemma_lookup_update, lemma_unique_append, lemma_unique_push, lemma_unique_remove,
    lemma_unique_update, lookup, unique_keys,
};
use crate::strutil::copy_bytes;

verus! {

/// The SHA-256 digest of a byte sequence, as the sha2 crate computes it:
/// a function of the bytes alone.
pub uninterp spec fn sha256_of(data: Seq<u8>) -> Seq<u8>;

/// Relies on sha2::Sha256::digest: the digest depends on the input bytes
/// alone and is always 32 bytes long.
#[verifier::external_body]
fn sha256_bytes(data: &[u8]) -> (r: Vec<u8>)
    ensures
        r@ == sha256_of(data@),
        r@.len() == 32,
{
    sha2::Sha256::digest(data).to_vec()
}

/// One lowercase hexadecimal digit.
pub open spec fn spec_hex_digit(d: nat) -> char {
    if d < 10 {
        ((d + 48) as u8) as char
    } else {
        ((d - 10 + 97) as u8) as char
    }
}

/// The lowercase hexadecimal encoding of a byte sequence: two digits per
/// byte, high nibble first, in input order.
pub open spec fn spec_hex_lower(data: Seq<u8>) -> Seq<char>
    decreases data.len(),
{
    if data.len() == 0 {
        Seq::empty()
    } else {
        spec_hex_lower(data.drop_last()) + seq![
            spec_hex_digit((data.last() >> 4) as nat),
            spec_hex_digit((data.last() & 0x0f) as nat),
        ]
    }
}

/// Relies on hex::encode: lowercase hexadecimal, exactly two digits for
/// each input byte, in input order.
#[verifier::external_body]
fn hex_encode(data: &Vec<u8>) -> (r: String)
    ensures
        r@ == spec_hex_lower(data@),
{
    hex::encode(data.as_slice())
}

/// The content hash this shadow stores beside every file: the lowercase
/// hexadecimal rendering of the SHA-256 digest of the content.
pub open spec fn spec_content_hash(data: Seq<u8>) -> Seq<char> {
    spec_hex_lower(sha256_of(data))
}

/// Relies on chrono::Utc::now: the current Unix timestamp in seconds.
/// Nothing is promised of the value.
#[verifier::external_body]
pub(crate) fn current_timestamp() -> i64 {
    chrono::Utc::now().timestamp()
}

/// What the utf-8 decoder of the standard library makes of a byte
/// sequence, invalid sequences replaced: a function of the bytes alone.
pub uninterp spec fn lossy_utf8(bytes: Seq<u8>) -> Seq<char>;

/// Relies on String::from_utf8_lossy: the decoding depends on the bytes
/// alone.
#[verifier::external_body]
fn bytes_to_string_lossy(bytes: &Vec<u8>) -> (r: String)
    ensures
        r@ == lossy_utf8(bytes@),
{
    String::from_utf8_lossy(bytes.as_slice()).into_owned()
}

/// Represents a file in the virtual filesystem.
#[derive(Debug, Clone)]
pub struct VirtualFile {
    pub path: String,
    pub content: Vec<u8>,
    pub permissions: u16,
    pub is_executable: bool,
    pub hash: String,
    pub created_at: i64,
    pub modified_at: i64,
}

impl Keyed for VirtualFile {
    open spec fn spec_key(&self) -> Seq<char> {
        self.path@
    }

    fn key(&self) -> (k: &str) {
        self.path.as_str()
    }
}

impl VirtualFile {
    /// The stored hash is always the content hash of the stored content.
    pub open spec fn wf(&self) -> bool {
        self.hash@ == spec_content_hash(self.content@)
    }

    pub fn new(path: String, content: Vec<u8>) -> (r: Self)
        ensures
            r.path == path,
            r.content == content,
            r.permissions == 0o644u16,
            r.is_executable == false,
            r.wf(),
            r.created_at == r.modified_at,
    {
        let hash = Self::compute_hash(&content);
        let now = current_timestamp();
        VirtualFile {
            path,
            content,
            permissions: 0o644,
            is_executable: false,
            hash,
            created_at: now,
            modified_at: now,
        }
    }

    pub fn new_executable(path: String, content: Vec<u8>) -> (r: Self)
        ensures
            r.path == path,
            r.content == content,
            r.permissions == 0o755u16,
            r.is_executable == true,
            r.wf(),
            r.created_at == r.modified_at,
    {
        let mut file = Self::new(path, content);
        file.is_executable = true;
        file.permissions = 0o755;
        file
    }

    fn compute_hash(content: &Vec<u8>) -> (r: String)
        ensures
            r@ == spec_content_hash(content@),
    {
        hex_encode(&sha256_bytes(content.as_slice()))
    }

    pub fn update_content(&mut self, content: Vec<u8>)
        ensures
            final(self).content == content,
            final(self).wf(),
            final(self).path == old(self).path,
            final(self).permissions == old(self).permissions,
            final(self).is_executable == old(self).is_executable,
            final(self).created_at == old(self).created_at,
    {
        self.hash = Self::compute_hash(&content);
        self.content = content;
        self.modified_at = current_timestamp();
    }

    /// An element-for-element copy.
    fn duplicate(&self) -> (r: Self)
        ensures
            r.path == self.path,
            r.content@ == self.content@,
            r.permissions == self.permissions,
            r.is_executable == self.is_executable,
            r.hash == self.hash,
            r.created_at == self.created_at,
            r.modified_at == self.modified_at,
    {
        let content = copy_bytes(&self.content);
        VirtualFile {
            path: self.path.clone(),
            content,
            permissions: self.permissions,
            is_executable: self.is_executable,
            hash: self.hash.clone(),
            created_at: self.created_at,
            modified_at: self.modified_at,
        }
    }
}

/// Represents a diff operation.
#[derive(Debug, Clone, Copy, PartialEq, Eq, Structural)]
pub enum DiffOperation {
    Added,
    Modified,
    Deleted,
}

/// Represents a file diff.
#[derive(Debug, Clone)]
pub struct FileDiff {
    pub path: String,
    pub operation: DiffOperation,
    pub old_content: Option<String>,
    pub new_content: Option<String>,
}

/// The view of an optional text, the empty text when absent.
pub open spec fn spec_opt_text(o: Option<String>) -> Seq<char> {
    match o {
        Some(s) => s@,
        None => Seq::empty(),
    }
}

impl FileDiff {
    /// The display rendering of this diff.
    pub open spec fn spec_format(&self) -> Seq<char> {
        match self.operation {
            DiffOperation::Added => "+++ "@ + self.path@ + "\n"@ + spec_opt_text(self.new_content)
                + "\n"@,
            DiffOperation::Modified => "M  "@ + self.path@ + "\n--- a/"@ + self.path@ + "\n+++ b/"@
                + self.path@ + "\n"@ + spec_opt_text(self.new_content) + "\n"@,
            DiffOperation::Deleted => "D  "@ + self.path@ + "\n"@ + spec_opt_text(self.old_content)
                + "\n"@,
        }
    }

    /// Format the diff for display.
    pub fn format(&self) -> (r: String)
        ensures
            r@ == self.spec_format(),
    {
        let body_new = match &self.new_content {
            Some(c) => c.as_str(),
            None => "",
        };
        let body_old = match &self.old_content {
            Some(c) => c.as_str(),
            None => "",
        };
        proof {
            reveal_strlit("");
            assert(""@ =~= Seq::<char>::empty());
        }
        match self.operation {
            DiffOperation::Added => "+++ ".to_owned().concat(self.path.as_str()).concat(
                "\n",
            ).concat(body_new).concat("\n"),
            DiffOperation::Modified => "M  ".to_owned().concat(self.path.as_str()).concat(
                "\n--- a/",
            ).concat(self.path.as_str()).concat("\n+++ b/").concat(self.path.as_str()).concat(
                "\n",
            ).concat(body_new).concat("\n"),
            DiffOperation::Deleted => "D  ".to_owned().concat(self.path.as_str()).concat(
                "\n",
            ).concat(body_old).concat("\n"),
        }
    }
}

impl FileDiff {
    /// An element-for-element copy.
    pub(crate) fn duplicate(&self) -> (r: Self)
        ensures
            r == *self,
    {
        FileDiff {
            path: self.path.clone(),
            operation: self.operation,
            old_content: match &self.old_content {
                Some(s) => Some(s.clone()),
                None => None,
            },
            new_content: match &self.new_content {
                Some(s) => Some(s.clone()),
                None => None,
            },
        }
    }
}

/// An element-for-element copy of a diff vector.
pub(crate) fn clone_diffs(v: &Vec<FileDiff>) -> (r: Vec<FileDiff>)
    ensures
        r@ == v@,
{
    let mut r: Vec<FileDiff> = Vec::new();
    let n = v.len();
    let mut i: usize = 0;
    while i < n
        invariant
            n == v@.len(),
            i <= n,
            r@ == v@.subrange(0, i as int),
        decreases n - i,
    {
        r.push(v[i].duplicate());
        proof {
            assert(v@.subrange(0, i + 1) =~= v@.subrange(0, i as int).push(v@[i as int]));
        }
        i = i + 1;
    }
    proof {
        assert(v@.subrange(0, n as int) =~= v@);
    }
    r
}

/// One regular file found under a mounted directory, as plain values: its
/// path relative to the mount root, its bytes, and its executable bit.
#[derive(Debug, Clone)]
pub struct MountEntry {
    pub path: String,
    pub content: Vec<u8>,
    pub executable: bool,
}

/// The views of a sequence of mount entries.
pub open spec fn entry_views(s: Seq<MountEntry>) -> Seq<(Seq<char>, Seq<u8>, bool)> {
    s.map_values(|e: MountEntry| (e.path@, e.content@, e.executable))
}

/// The last entry for a path wins, as repeated insertion would have it.
pub open spec fn spec_entry_last(s: Seq<(Seq<char>, Seq<u8>, bool)>, k: Seq<char>) -> Option<
    (Seq<char>, Seq<u8>, bool),
>
    decreases s.len(),
{
    if s.len() == 0 {
        None
    } else if s.last().0 == k {
        Some(s.last())
    } else {
        spec_entry_last(s.drop_last(), k)
    }
}

/// Virtual filesystem with diff tracking.
#[derive(Debug, Clone)]
pub struct VirtualFilesystem {
    pub files: Vec<VirtualFile>,
    pub deleted_files: Vec<VirtualFile>,
    pub mount_points: Vec<String>,
}

impl VirtualFilesystem {
    /// Each registry holds a path at most once, and no path is live and
    /// tombstoned at the same time.
    pub open spec fn wf(&self) -> bool {
        &&& unique_keys(self.files@)
        &&& unique_keys(self.deleted_files@)
        &&& forall|i: int, j: int|
            0 <= i < self.files@.len() && 0 <= j < self.deleted_files@.len() ==> (
            #[trigger] self.files@[i]).spec_key() != (#[trigger] self.deleted_files@[j]).spec_key()
    }

    /// The live registry.
    pub open spec fn spec_live(&self) -> Seq<VirtualFile> {
        self.files@
    }

    /// The tombstoned registry.
    pub open spec fn spec_tombstoned(&self) -> Seq<VirtualFile> {
        self.deleted_files@
    }

    /// The live file at a path, if any.
    pub open spec fn spec_lookup_live(&self, path: Seq<char>) -> Option<VirtualFile> {
        lookup(self.files@, path)
    }

    /// The tombstoned file at a path, if any.
    pub open spec fn spec_lookup_deleted(&self, path: Seq<char>) -> Option<VirtualFile> {
        lookup(self.deleted_files@, path)
    }

    pub fn new() -> (r: Self)
        ensures
            r.wf(),
            r.spec_live().len() == 0,
            r.spec_tombstoned().len() == 0,
            r.mount_points@.len() == 0,
    {
        VirtualFilesystem { files: Vec::new(), deleted_files: Vec::new(), mount_points: Vec::new() }
    }

    /// Put one file into the live registry, replacing a live file at the
    /// same path and clearing any tombstone there, so that a path never
    /// stands in both registries.
    fn place_file(&mut self, file: VirtualFile)
        requires
            old(self).wf(),
        ensures
            final(self).wf(),
            forall|k: Seq<char>|
                #[trigger] final(self).spec_lookup_live(k) == (if k == file.path@ {
                    Some(file)
                } else {
                    old(self).spec_lookup_live(k)
                }),
            forall|k: Seq<char>|
                #[trigger] final(self).spec_lookup_deleted(k) == (if k == file.path@ {
                    None::<VirtualFile>
                } else {
                    old(self).spec_lookup_deleted(k)
                }),
            final(self).mount_points == old(self).mount_points,
            final(self).spec_tombstoned().len() <= old(self).spec_tombstoned().len(),
    {
        let ghost pre = *self;
        let path = file.path.clone();
        match find_index(&self.files, file.path.as_str()) {
            Some(i) => {
                proof {
                    assert forall|k: Seq<char>| true implies #[trigger] lookup(
                        self.files@.update(i as int, file),
                        k,
                    ) == (if k == file.path@ {
                        Some(file)
                    } else {
                        lookup(self.files@, k)
                    }) by {
                        lemma_lookup_update(self.files@, i as int, file, k);
                    }
                    lemma_unique_update(self.files@, i as int, file);
                }
                self.files[i] = file;
            },
            None => {
                proof {
                    assert forall|k: Seq<char>| true implies #[trigger] lookup(
                        self.files@.push(file),
                        k,
                    ) == (if k == file.path@ {
                        Some(file)
                    } else {
                        lookup(self.files@, k)
                    }) by {
                        lemma_lookup_push(self.files@, file, k);
                    }
                    lemma_unique_push(self.files@, file);
                }
                self.files.push(file);
            },
        }
        proof {
            assert(forall|a: int|
                0 <= a < self.files@.len() ==> (#[trigger] self.files@[a]).spec_key() == file.path@
                    || (exists|c: int|
                    0 <= c < pre.files@.len() && self.files@[a] == #[trigger] pre.files@[c]));
        }
        let ghost mid = *self;
        match find_index(&self.deleted_files, path.as_str()) {
            Some(j) => {
                proof {
                    assert forall|k: Seq<char>| true implies #[trigger] lookup(
                        self.deleted_files@.remove(j as int),
                        k,
                    ) == (if k == self.deleted_files@[j as int].spec_key() {
                        None::<VirtualFile>
                    } else {
                        lookup(self.deleted_files@, k)
                    }) by {
                        lemma_lookup_remove(self.deleted_files@, j as int, k);
                    }
                    lemma_unique_remove(self.deleted_files@, j as int);
                }
                self.deleted_files.remove(j);
                proof {
                    assert forall|b: int| 0 <= b < self.deleted_files@.len() implies (exists|d: int|
                        0 <= d < pre.deleted_files@.len() && #[trigger] self.deleted_files@[b]
                            == pre.deleted_files@[d]) && self.deleted_files@[b].spec_key()
                        != file.path@ by {
                        if b < j {
                            assert(self.deleted_files@[b] == pre.deleted_files@[b]);
                        } else {
                            assert(self.deleted_files@[b] == pre.deleted_files@[b + 1]);
                        }
                    }
                }
            },
            None => {
                proof {
                    lemma_lookup_characterization(self.deleted_files@, path@);
                    assert forall|b: int| 0 <= b < self.deleted_files@.len() implies (exists|d: int|
                        0 <= d < pre.deleted_files@.len() && #[trigger] self.deleted_files@[b]
                            == pre.deleted_files@[d]) && self.deleted_files@[b].spec_key()
                        != file.path@ by {
                        assert(self.deleted_files@[b] == pre.deleted_files@[b]);
                    }
                }
            },
        }
        proof {
            assert forall|a: int, b: int|
                0 <= a < self.files@.len() && 0 <= b < self.deleted_files@.len() implies (
            #[trigger] self.files@[a]).spec_key() != (
            #[trigger] self.deleted_files@[b]).spec_key() by {
                if self.files@[a].spec_key() == file.path@ {
                } else {
                    let c = choose|c: int|
                        0 <= c < pre.files@.len() && self.files@[a] == #[trigger] pre.files@[c];
                    let d = choose|d: int|
                        0 <= d < pre.deleted_files@.len() && #[trigger] self.deleted_files@[b]
                            == pre.deleted_files@[d];
                    assert(pre.files@[c].spec_key() != pre.deleted_files@[d].spec_key());
                }
            }
        }
    }

    /// Write a file to the virtual filesystem: insert or replace, with the
    /// content hash recomputed.
    pub fn write(&mut self, path: String, content: Vec<u8>)
        requires
            old(self).wf(),
        ensures
            final(self).wf(),
            final(self).spec_lookup_live(path@) matches Some(f) && ({
                &&& f.path == path
                &&& f.content == content
                &&& f.hash@ == spec_content_hash(content@)
                &&& f.is_executable == false
                &&& f.permissions == 0o644u16
            }),
            forall|k: Seq<char>|
                k != path@ ==> #[trigger] final(self).spec_lookup_live(k) == old(
                    self,
                ).spec_lookup_live(k),
            forall|k: Seq<char>|
                #[trigger] final(self).spec_lookup_deleted(k) == (if k == path@ {
                    None::<VirtualFile>
                } else {
                    old(self).spec_lookup_deleted(k)
                }),
            final(self).mount_points == old(self).mount_points,
            final(self).spec_tombstoned().len() <= old(self).spec_tombstoned().len(),
    {
        let file = VirtualFile::new(path, content);
        self.place_file(file);
    }

    /// Mount a walked directory into the virtual filesystem: the root is
    /// remembered as a mount point and every entry is imported in order,
    /// a later entry for the same path replacing an earlier one.
    pub fn mount(&mut self, root: String, entries: &Vec<MountEntry>)
        requires
            old(self).wf(),
        ensures
            final(self).wf(),
            final(self).mount_points@ == old(self).mount_points@.push(root),
            forall|k: Seq<char>|
                match spec_entry_last(entry_views(entries@), k) {
                    Some(e) => #[trigger] final(self).spec_lookup_live(k) matches Some(f) && ({
                        &&& f.path@ == k
                        &&& f.content@ == e.1
                        &&& f.is_executable == e.2
                        &&& f.wf()
                        &&& f.permissions == (if e.2 {
                            0o755u16
                        } else {
                            0o644u16
                        })
                    }),
                    None => final(self).spec_lookup_live(k) == old(self).spec_lookup_live(k)
                        && final(self).spec_lookup_deleted(k) == old(self).spec_lookup_deleted(k),
                },
            forall|k: Seq<char>|
                spec_entry_last(entry_views(entries@), k) is Some ==> #[trigger] final(self).spec_lookup_deleted(k) is None,
            final(self).spec_tombstoned().len() <= old(self).spec_tombstoned().len(),
    {
        self.mount_points.push(root);
        let ghost pre = *self;
        let n = entries.len();
        let mut i: usize = 0;
        while i < n
            invariant
                self.wf(),
                n == entries@.len(),
                i <= n,
                self.mount_points == pre.mount_points,
                self.deleted_files@.len() <= pre.deleted_files@.len(),
                forall|k: Seq<char>|
                    match spec_entry_last(entry_views(entries@.subrange(0, i as int)), k) {
                        Some(e) => #[trigger] lookup(self.files@, k) matches Some(f) && ({
                            &&& f.path@ == k
                            &&& f.content@ == e.1
                            &&& f.is_executable == e.2
                            &&& f.wf()
                            &&& f.permissions == (if e.2 {
                                0o755u16
                            } else {
                                0o644u16
                            })
                        }),
                        None => lookup(self.files@, k) == lookup(pre.files@, k) && lookup(
                            self.deleted_files@,
                            k,
                        ) == lookup(pre.deleted_files@, k),
                    },
                forall|k: Seq<char>|
                    spec_entry_last(entry_views(entries@.subrange(0, i as int)), k) is Some
                        ==> #[trigger] lookup(self.deleted_files@, k) is None,
            decreases n - i,
        {
            let ghost before = *self;
            let e = &entries[i];
            let file = if e.executable {
                VirtualFile::new_executable(e.path.clone(), copy_bytes(&e.content))
            } else {
                VirtualFile::new(e.path.clone(), copy_bytes(&e.content))
            };
            let ghost placed = file;
            self.place_file(file);
            proof {
                let pv = entry_views(entries@.subrange(0, i as int));
                let pv1 = entry_views(entries@.subrange(0, i + 1));
                assert(pv1.drop_last() =~= pv);
                assert(pv1.last() == (
                    entries@[i as int].path@,
                    entries@[i as int].content@,
                    entries@[i as int].executable,
                ));
                assert(placed.path@ == entries@[i as int].path@);
                assert forall|k: Seq<char>| true implies match spec_entry_last(pv1, k) {
                    Some(e2) => #[trigger] lookup(self.files@, k) matches Some(f) && ({
                        &&& f.path@ == k
                        &&& f.content@ == e2.1
                        &&& f.is_executable == e2.2
                        &&& f.wf()
                        &&& f.permissions == (if e2.2 {
                            0o755u16
                        } else {
                            0o644u16
                        })
                    }),
                    None => lookup(self.files@, k) == lookup(pre.files@, k) && lookup(
                        self.deleted_files@,
                        k,
                    ) == lookup(pre.deleted_files@, k),
                } by {
                    if k == placed.path@ {
                        assert(spec_entry_last(pv1, k) == Some(pv1.last()));
                        assert(self.spec_lookup_live(k) == Some(placed));
                        assert(lookup(self.files@, k) == Some(placed));
                    } else {
                        assert(spec_entry_last(pv1, k) == spec_entry_last(pv, k));
                        assert(self.spec_lookup_live(k) == before.spec_lookup_live(k));
                        assert(self.spec_lookup_deleted(k) == before.spec_lookup_deleted(k));
                    }
                }
                assert forall|k: Seq<char>| spec_entry_last(pv1, k) is Some implies #[trigger] lookup(
                    self.deleted_files@,
                    k,
                ) is None by {
                    if k == placed.path@ {
                        assert(self.spec_lookup_deleted(k) is None);
                    } else {
                        assert(spec_entry_last(pv1, k) == spec_entry_last(pv, k));
                        assert(self.spec_lookup_deleted(k) == before.spec_lookup_deleted(k));
                    }
                }
            }
            i = i + 1;
        }
        proof {
            assert(entries@.subrange(0, n as int) =~= entries@);
        }
    }

    /// Read a file from the virtual filesystem.
    pub fn read(&self, path: &str) -> (r: SandboxResult<Vec<u8>>)
        ensures
            match self.spec_lookup_live(path@) {
                Some(f) => r matches Ok(c) && c@ == f.content@,
                None => r matches Err(SandboxError::VirtualFileNotFound(m)) && m@ == path@,
            },
    {
        match find_index(&self.files, path) {
            Some(i) => Ok(copy_bytes(&self.files[i].content)),
            None => Err(SandboxError::VirtualFileNotFound(path.to_owned())),
        }
    }

    /// The exact two-state relation of a successful delete: the path moves
    /// from the live registry to the tombstoned one and nothing else moves.
    pub open spec fn spec_delete_ok(pre: Self, post: Self, p: Seq<char>) -> bool {
        &&& pre.spec_lookup_live(p) is Some
        &&& forall|k: Seq<char>|
            #[trigger] post.spec_lookup_live(k) == (if k == p {
                None::<VirtualFile>
            } else {
                pre.spec_lookup_live(k)
            })
        &&& forall|k: Seq<char>|
            #[trigger] post.spec_lookup_deleted(k) == (if k == p {
                pre.spec_lookup_live(p)
            } else {
                pre.spec_lookup_deleted(k)
            })
    }

    /// Delete a file from the virtual filesystem: the entry moves to the
    /// tombstoned registry, from which a reset can restore it.
    pub fn delete(&mut self, path: &str) -> (r: SandboxResult<()>)
        requires
            old(self).wf(),
        ensures
            final(self).wf(),
            final(self).mount_points == old(self).mount_points,
            old(self).spec_lookup_live(path@) is Some ==> r is Ok && Self::spec_delete_ok(
                *old(self),
                *final(self),
                path@,
            ),
            old(self).spec_lookup_live(path@) is None ==> *final(self) == *old(self) && (r matches
                Err(SandboxError::VirtualFileNotFound(m)) && m@ == path@),
    {
        let ghost pre = *self;
        match find_index(&self.files, path) {
            Some(i) => {
                proof {
                    assert forall|k: Seq<char>| true implies #[trigger] lookup(
                        self.files@.remove(i as int),
                        k,
                    ) == (if k == path@ {
                        None::<VirtualFile>
                    } else {
                        lookup(self.files@, k)
                    }) by {
                        lemma_lookup_remove(self.files@, i as int, k);
                    }
                    lemma_unique_remove(self.files@, i as int);
                    lemma_lookup_characterization(self.deleted_files@, path@);
                }
                let f = self.files.remove(i);
                proof {
                    assert forall|k: Seq<char>| true implies #[trigger] lookup(
                        self.deleted_files@.push(f),
                        k,
                    ) == (if k == path@ {
                        Some(f)
                    } else {
                        lookup(self.deleted_files@, k)
                    }) by {
                        lemma_lookup_push(self.deleted_files@, f, k);
                    }
                    lemma_unique_push(self.deleted_files@, f);
                }
                self.deleted_files.push(f);
                proof {
                    assert forall|a: int, b: int|
                        0 <= a < self.files@.len() && 0 <= b < self.deleted_files@.len() implies (
                    #[trigger] self.files@[a]).spec_key() != (
                    #[trigger] self.deleted_files@[b]).spec_key() by {
                        let fa = self.files@[a];
                        assert(fa == (if a < i {
                            pre.files@[a]
                        } else {
                            pre.files@[a + 1]
                        }));
                        if b < self.deleted_files@.len() - 1 {
                            assert(self.deleted_files@[b] == pre.deleted_files@[b]);
                        } else {
                            assert(self.deleted_files@[b] == pre.files@[i as int]);
                        }
                    }
                }
                Ok(())
            },
            None => Err(SandboxError::VirtualFileNotFound(path.to_owned())),
        }
    }

    /// Check if a file exists, live or tombstoned.
    pub fn path_exists(&self, path: &str) -> (r: bool)
        ensures
            r == (self.spec_lookup_live(path@) is Some || self.spec_lookup_deleted(path@) is Some),
    {
        match find_index(&self.files, path) {
            Some(_) => true,
            None => match find_index(&self.deleted_files, path) {
                Some(_) => true,
                None => false,
            },
        }
    }

    /// Get a file's metadata: a copy of the live entry.
    pub fn get_metadata(&self, path: &str) -> (r: SandboxResult<VirtualFile>)
        ensures
            match self.spec_lookup_live(path@) {
                Some(f) => r matches Ok(g) && ({
                    &&& g.path == f.path
                    &&& g.content@ == f.content@
                    &&& g.permissions == f.permissions
                    &&& g.is_executable == f.is_executable
                    &&& g.hash == f.hash
                    &&& g.created_at == f.created_at
                    &&& g.modified_at == f.modified_at
                }),
                None => r matches Err(SandboxError::VirtualFileNotFound(m)) && m@ == path@,
            },
    {
        match find_index(&self.files, path) {
            Some(i) => Ok(self.files[i].duplicate()),
            None => Err(SandboxError::VirtualFileNotFound(path.to_owned())),
        }
    }

    /// List all live paths, in registry order.
    pub fn list_files(&self) -> (r: Vec<String>)
        ensures
            r@.len() == self.spec_live().len(),
            forall|i: int| 0 <= i < r@.len() ==> (#[trigger] r@[i])@ == self.spec_live()[i].path@,
    {
        let mut out: Vec<String> = Vec::new();
        let n = self.files.len();
        let mut i: usize = 0;
        while i < n
            invariant
                n == self.files@.len(),
                i <= n,
                out@.len() == i,
                forall|p: int| 0 <= p < i ==> (#[trigger] out@[p])@ == self.files@[p].path@,
            decreases n - i,
        {
            out.push(self.files[i].path.clone());
            i = i + 1;
        }
        out
    }

    /// Get the diff between current state and original state: every live
    /// entry is reported as `Modified` with its text as the new content
    /// (the shadow does not tell baseline files from files written since
    /// mount), then every tombstoned entry as `Deleted` with its prior
    /// text as the old content.
    pub fn get_diff(&self) -> (r: Vec<FileDiff>)
        ensures
            r@.len() == self.spec_live().len() + self.spec_tombstoned().len(),
            forall|i: int|
                0 <= i < self.spec_live().len() ==> spec_is_live_diff(
                    #[trigger] r@[i],
                    self.spec_live()[i],
                ),
            forall|i: int|
                self.spec_live().len() <= i < r@.len() ==> spec_is_deleted_diff(
                    #[trigger] r@[i],
                    self.spec_tombstoned()[i - self.spec_live().len()],
                ),
    {
        let mut diffs: Vec<FileDiff> = Vec::new();
        let n = self.files.len();
        let mut i: usize = 0;
        while i < n
            invariant
                n == self.files@.len(),
                i <= n,
                diffs@.len() == i,
                forall|p: int|
                    0 <= p < i ==> spec_is_live_diff(#[trigger] diffs@[p], self.files@[p]),
            decreases n - i,
        {
            let f = &self.files[i];
            diffs.push(
                FileDiff {
                    path: f.path.clone(),
                    operation: DiffOperation::Modified,
                    old_content: None,
                    new_content: Some(bytes_to_string_lossy(&f.content)),
                },
            );
            i = i + 1;
        }
        let m = self.deleted_files.len();
        let mut j: usize = 0;
        while j < m
            invariant
                n == self.files@.len(),
                m == self.deleted_files@.len(),
                j <= m,
                diffs@.len() == n + j,
                forall|p: int|
                    0 <= p < n ==> spec_is_live_diff(#[trigger] diffs@[p], self.files@[p]),
                forall|p: int|
                    n <= p < n + j ==> spec_is_deleted_diff(
                        #[trigger] diffs@[p],
                        self.deleted_files@[p - n],
                    ),
            decreases m - j,
        {
            let f = &self.deleted_files[j];
            diffs.push(
                FileDiff {
                    path: f.path.clone(),
                    operation: DiffOperation::Deleted,
                    old_content: Some(bytes_to_string_lossy(&f.content)),
                    new_content: None,
                },
            );
            j = j + 1;
        }
        diffs
    }

    /// The exact two-state relation of a reset: every tombstoned entry is
    /// live again, live entries stay, and no tombstone remains.
    pub open spec fn spec_reset_done(pre: Self, post: Self) -> bool {
        &&& forall|k: Seq<char>|
            #[trigger] post.spec_lookup_live(k) == (if pre.spec_lookup_live(k) is Some {
                pre.spec_lookup_live(k)
            } else {
                pre.spec_lookup_deleted(k)
            })
        &&& post.spec_tombstoned().len() == 0
    }

    /// Reset the virtual filesystem to its original state: restore all
    /// tombstoned entries.
    pub fn reset(&mut self)
        requires
            old(self).wf(),
        ensures
            final(self).wf(),
            final(self).mount_points == old(self).mount_points,
            final(self).spec_live() == old(self).spec_live() + old(self).spec_tombstoned(),
            Self::spec_reset_done(*old(self), *final(self)),
    {
        proof {
            assert forall|k: Seq<char>| true implies #[trigger] lookup(
                self.files@ + self.deleted_files@,
                k,
            ) == (if lookup(self.files@, k) is Some {
                lookup(self.files@, k)
            } else {
                lookup(self.deleted_files@, k)
            }) by {
                lemma_lookup_append(self.files@, self.deleted_files@, k);
            }
            lemma_unique_append(self.files@, self.deleted_files@);
        }
        self.files.append(&mut self.deleted_files);
    }

    /// The exact two-state relation of a commit: the live registry stays
    /// and no tombstone remains.
    pub open spec fn spec_commit_done(pre: Self, post: Self) -> bool {
        &&& post.spec_live() == pre.spec_live()
        &&& post.spec_tombstoned().len() == 0
    }

    /// Commit changes: accept the deletions by discarding tombstones.
    pub fn commit(&mut self)
        requires
            old(self).wf(),
        ensures
            final(self).wf(),
            final(self).mount_points == old(self).mount_points,
            Self::spec_commit_done(*old(self), *final(self)),
    {
        self.deleted_files.clear();
    }
}

/// A live entry reported by the diff query: `Modified`, no old content,
/// and the file's text as the new content.
pub open spec fn spec_is_live_diff(d: FileDiff, f: VirtualFile) -> bool {
    &&& d.path@ == f.path@
    &&& d.operation == DiffOperation::Modified
    &&& d.old_content is None
    &&& d.new_content matches Some(c) && c@ == lossy_utf8(f.content@)
}

/// A tombstoned entry reported by the diff query: `Deleted`, no new
/// content, and the file's prior text as the old content.
pub open spec fn spec_is_deleted_diff(d: FileDiff, f: VirtualFile) -> bool {
    &&& d.path@ == f.path@
    &&& d.operation == DiffOperation::Deleted
    &&& d.new_content is None
    &&& d.old_content matches Some(c) && c@ == lossy_utf8(f.content@)
}

/// On a shadow with no tombstones — a freshly mounted one — the diff query
/// reports every live file as `Modified` with its text, never as `Added`,
/// and reports nothing as `Deleted`.
pub proof fn lemma_diff_of_fresh_shadow(v: VirtualFilesystem, diffs: Seq<FileDiff>)
    requires
        v.spec_tombstoned().len() == 0,
        diffs.len() == v.spec_live().len() + v.spec_tombstoned().len(),
        forall|i: int|
            0 <= i < v.spec_live().len() ==> spec_is_live_diff(#[trigger] diffs[i], v.spec_live()[i]),
        forall|i: int|
            v.spec_live().len() <= i < diffs.len() ==> spec_is_deleted_diff(
                #[trigger] diffs[i],
                v.spec_tombstoned()[i - v.spec_live().len()],
            ),
    ensures
        forall|i: int|
            0 <= i < diffs.len() ==> (#[trigger] diffs[i]).operation == DiffOperation::Modified,
        forall|j: int|
            0 <= j < v.spec_live().len() ==> (#[trigger] diffs[j]).path@ == v.spec_live()[j].path@
                && spec_opt_text(diffs[j].new_content) == lossy_utf8(v.spec_live()[j].content@),
{
}

/// Deleting a live path and then resetting restores it with content and
/// hash identical to what stood there before the deletion.
pub proof fn lemma_delete_then_reset_restores(
    v0: VirtualFilesystem,
    v1: VirtualFilesystem,
    v2: VirtualFilesystem,
    p: Seq<char>,
)
    requires
        VirtualFilesystem::spec_delete_ok(v0, v1, p),
        VirtualFilesystem::spec_reset_done(v1, v2),
    ensures
        v2.spec_lookup_live(p) == v0.spec_lookup_live(p),
        v0.spec_lookup_live(p) matches Some(f) ==> v2.spec_lookup_live(p) matches Some(g)
            && g.content == f.content && g.hash == f.hash,
{
}

/// Deleting a path, committing, and then resetting does not restore it:
/// the commit made the deletion final.
pub proof fn lemma_delete_commit_reset_drops(
    v0: VirtualFilesystem,
    v1: VirtualFilesystem,
    v2: VirtualFilesystem,
    v3: VirtualFilesystem,
    p: Seq<char>,
)
    requires
        VirtualFilesystem::spec_delete_ok(v0, v1, p),
        VirtualFilesystem::spec_commit_done(v1, v2),
        VirtualFilesystem::spec_reset_done(v2, v3),
    ensures
        v3.spec_lookup_live(p) is None,
{
    assert(v2.spec_lookup_live(p) == v1.spec_lookup_live(p));
    assert(v2.spec_lookup_deleted(p) is None);
}

} // verus!
