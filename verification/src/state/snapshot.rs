//! Where snapshots of files are kept before they are edited.
use vstd::prelude::*;
use crate::json::opt_text;
use crate::text::{push_str, string_from};
use crate::words::{decimal, digits, lemma_decimal_digits, lemma_decimal_injective, push_decimal};

verus! {

/// What `Path::file_name` gives for `path`, read lossily as text.
pub uninterp spec fn path_file_name_of(path: Seq<char>) -> Option<Seq<char>>;

/// What `Path::join` gives for `dir` and `name`, read lossily as text.
pub uninterp spec fn path_joined(dir: Seq<char>, name: Seq<char>) -> Seq<char>;

/// Calls `std::path::Path::file_name` and `OsStr::to_string_lossy`. Claimed:
/// the result is the named file name.
#[verifier::external_body]
pub(crate) fn path_file_name(path: &str) -> (r: Option<String>)
    ensures
        opt_text(r) == path_file_name_of(path@),
{
    match std::path::Path::new(path).file_name() {
        Some(name) => Some(name.to_string_lossy().into_owned()),
        None => None,
    }
}

/// Calls `std::path::Path::join` and `Path::to_string_lossy`. Claimed: the
/// result is the named joined path.
#[verifier::external_body]
pub(crate) fn path_join(dir: &str, name: &str) -> (r: String)
    ensures
        r@ == path_joined(dir@, name@),
{
    std::path::Path::new(dir).join(name).to_string_lossy().into_owned()
}

/// Why a snapshot cannot be named.
#[derive(Debug, Clone, Copy, PartialEq, Eq, Structural)]
pub enum SnapshotError {
    /// The path has no file name.
    InvalidFilePath,
    /// The manager has numbered as many snapshots as a `u64` counts.
    TooManySnapshots,
}

impl SnapshotError {
    pub fn message(&self) -> (m: &'static str)
        ensures
            *self == SnapshotError::InvalidFilePath ==> m@ == "Invalid file path"@,
            *self == SnapshotError::TooManySnapshots ==> m@ == "Too many snapshots"@,
    {
        match self {
            SnapshotError::InvalidFilePath => "Invalid file path",
            SnapshotError::TooManySnapshots => "Too many snapshots",
        }
    }
}

/// The name of the `n`-th snapshot taken by a manager, of a file named
/// `file_name` at `timestamp`: the file's name, `_`, the time stamp, `_`,
/// the number and `.snapshot`.
pub open spec fn snapshot_name(file_name: Seq<char>, timestamp: Seq<char>, n: nat) -> Seq<char> {
    file_name + "_"@ + timestamp + "_"@ + decimal(n) + ".snapshot"@
}

/// Keeps snapshots in one directory, numbering them as they are taken.
pub struct SnapshotManager {
    snapshot_dir: String,
    taken: u64,
}

impl SnapshotManager {
    /// The directory that holds the snapshots.
    pub closed spec fn dir(&self) -> Seq<char> {
        self.snapshot_dir@
    }

    /// How many snapshots this manager has named.
    pub closed spec fn count(&self) -> nat {
        self.taken as nat
    }

    /// A manager that keeps its snapshots in `snapshot_dir`, with none taken.
    pub fn new(snapshot_dir: &str) -> (m: Self)
        ensures
            m.dir() == snapshot_dir@,
            m.count() == 0,
    {
        SnapshotManager { snapshot_dir: string_from(snapshot_dir), taken: 0 }
    }

    /// The directory that holds the snapshots.
    pub fn snapshot_dir(&self) -> (d: &str)
        ensures
            d@ == self.dir(),
    {
        self.snapshot_dir.as_str()
    }

    /// Where the next snapshot of `file_path`, taken at `timestamp`, goes: in
    /// the snapshot directory, named by `snapshot_name` with the manager's
    /// count, which then goes up by one. Refused, with nothing changed, for a
    /// path with no file name, and once the count can go no higher.
    pub fn snapshot_path(&mut self, file_path: &str, timestamp: &str) -> (r: Result<String, SnapshotError>)
        ensures
            final(self).dir() == old(self).dir(),
            path_file_name_of(file_path@) is None ==> r == Err::<String, SnapshotError>(
                SnapshotError::InvalidFilePath,
            ) && final(self).count() == old(self).count(),
            path_file_name_of(file_path@) is Some && old(self).count() == u64::MAX ==> r == Err::<
                String,
                SnapshotError,
            >(SnapshotError::TooManySnapshots) && final(self).count() == old(self).count(),
            path_file_name_of(file_path@) matches Some(name) ==> (old(self).count() < u64::MAX ==> (r matches Ok(
                p,
            ) && p@ == path_joined(old(self).dir(), snapshot_name(name, timestamp@, old(self).count()))
                && final(self).count() == old(self).count() + 1)),
    {
        let name = match path_file_name(file_path) {
            Some(n) => n,
            None => return Err(SnapshotError::InvalidFilePath),
        };
        if self.taken == u64::MAX {
            return Err(SnapshotError::TooManySnapshots);
        }
        let mut snapshot_name = name;
        push_str(&mut snapshot_name, "_");
        push_str(&mut snapshot_name, timestamp);
        push_str(&mut snapshot_name, "_");
        push_decimal(&mut snapshot_name, self.taken);
        push_str(&mut snapshot_name, ".snapshot");
        let p = path_join(self.snapshot_dir.as_str(), snapshot_name.as_str());
        self.taken = self.taken + 1;
        Ok(p)
    }
}

/// Law: a manager never gives two snapshots the same name. Its count goes up
/// with every snapshot, and names with different numbers differ, whatever the
/// files and the time stamps.
pub proof fn law_snapshot_names_differ(
    file1: Seq<char>,
    time1: Seq<char>,
    n1: nat,
    file2: Seq<char>,
    time2: Seq<char>,
    n2: nat,
)
    requires
        n1 != n2,
    ensures
        snapshot_name(file1, time1, n1) != snapshot_name(file2, time2, n2),
{
    let a = snapshot_name(file1, time1, n1);
    let b = snapshot_name(file2, time2, n2);
    let d1 = decimal(n1);
    let d2 = decimal(n2);
    let p1 = file1 + "_"@ + time1 + "_"@;
    let p2 = file2 + "_"@ + time2 + "_"@;
    let suffix = ".snapshot"@;
    lemma_decimal_digits(n1);
    lemma_decimal_digits(n2);
    assert(!digits().contains('_')) by {
        if digits().contains('_') {
            let i = choose|i: int| 0 <= i < digits().len() && digits()[i] == '_';
        }
    }
    if a == b {
        reveal_strlit("_");
        reveal_strlit(".snapshot");
        assert(a =~= p1 + d1 + suffix);
        assert(b =~= p2 + d2 + suffix);
        let la = a.len() as int;
        let s = suffix.len() as int;
        assert(p1[p1.len() - 1] == '_');
        assert(p2[p2.len() - 1] == '_');
        if d1.len() < d2.len() {
            let k = la - s - d1.len() - 1;
            assert(a[k] == p1[p1.len() - 1]);
            assert(b[k] == d2[d2.len() - d1.len() - 1]);
            assert(digits().contains(d2[d2.len() - d1.len() - 1]));
        } else if d2.len() < d1.len() {
            let k = la - s - d2.len() - 1;
            assert(b[k] == p2[p2.len() - 1]);
            assert(a[k] == d1[d1.len() - d2.len() - 1]);
            assert(digits().contains(d1[d1.len() - d2.len() - 1]));
        } else {
            assert forall|i: int| 0 <= i < d1.len() implies d1[i] == d2[i] by {
                assert(a[p1.len() + i] == d1[i]);
                assert(p1.len() == p2.len());
                assert(b[p2.len() + i] == d2[i]);
            }
            assert(d1 =~= d2);
            lemma_decimal_injective(n1, n2);
        }
    }
}

} // verus!
