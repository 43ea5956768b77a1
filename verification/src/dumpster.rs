//! The dumpster engine.
//!
//! A `Dumpster` owns two paths fixed at construction: the home directory
//! and the dumpster root, which is the fixed name `.dumpster` under home.
//! `yeet` maps a path under home to its mirrored slot under the root,
//! resolving filename collisions; `restore` reverses the mirroring; and
//! `empty` turns a listing of the root into one removal per entry.
//!
//! The engine only computes and checks paths. The callers that own the
//! process perform the filesystem moves the results describe, and they
//! mutate nothing when an operation here returns an error.

use vstd::prelude::*;
use crate::collision::{chosen_name, contains_name, first_free, make_candidate,
    MAX_NUMBER_OF_DUPLICATES};
use crate::error::YeetError;
use crate::path::{get_absolute_path, is_under, AbsPath, DOT};

verus! {

broadcast use crate::views::lemma_bytes_deep_view;

/// The fixed name of the dumpster root under the home directory:
/// the bytes of `.dumpster`.
pub open spec fn dumpster_dir_name() -> Seq<u8> {
    seq![DOT, 100, 117, 109, 112, 115, 116, 101, 114]
}

/// The bytes of `.dumpster`.
fn dumpster_name_vec() -> (r: Vec<u8>)
    ensures
        r@ == dumpster_dir_name(),
{
    let mut r: Vec<u8> = Vec::new();
    r.push(DOT);
    r.push(100);
    r.push(117);
    r.push(109);
    r.push(112);
    r.push(115);
    r.push(116);
    r.push(101);
    r.push(114);
    proof {
        assert(r@ =~= dumpster_dir_name());
    }
    r
}

/// The view of a computed path, or the error unchanged.
pub open spec fn path_result_view(r: Result<AbsPath, YeetError>) -> Result<
    Seq<Seq<u8>>,
    YeetError,
> {
    match r {
        Ok(p) => Ok(p@),
        Err(e) => Err(e),
    }
}

/// Where a yeet of `abs` puts its entry's directory: the mirrored path of
/// `abs` under the dumpster root, without the final filename component.
/// Rejected before anything else: a path already under the root, then a
/// path outside home.
pub open spec fn yeet_directory(
    home: Seq<Seq<u8>>,
    location: Seq<Seq<u8>>,
    abs: Seq<Seq<u8>>,
) -> Result<Seq<Seq<u8>>, YeetError> {
    if is_under(location, abs) {
        Err(YeetError::AlreadyInDumpster)
    } else if !is_under(home, abs) {
        Err(YeetError::OutsideHomeDirectory)
    } else {
        Ok((location + abs.skip(home.len() as int)).drop_last())
    }
}

/// The full destination of a yeet of `abs`, given the names `occupied`
/// already present in its destination directory.
pub open spec fn yeet_target(
    home: Seq<Seq<u8>>,
    location: Seq<Seq<u8>>,
    abs: Seq<Seq<u8>>,
    occupied: Seq<Seq<u8>>,
) -> Result<Seq<Seq<u8>>, YeetError> {
    match yeet_directory(home, location, abs) {
        Err(e) => Err(e),
        Ok(dir) => if abs.len() == 0 {
            Err(YeetError::MissingFilename)
        } else {
            match chosen_name(abs.last(), occupied) {
                Some(name) => Ok(dir.push(name)),
                None => Err(YeetError::DuplicateLimitExceeded),
            }
        },
    }
}

/// The destination of a restore of `abs`: home with the dumpster-root
/// prefix of `abs` stripped. Only paths under the root are accepted.
pub open spec fn restore_target(
    home: Seq<Seq<u8>>,
    location: Seq<Seq<u8>>,
    abs: Seq<Seq<u8>>,
) -> Result<Seq<Seq<u8>>, YeetError> {
    if is_under(location, abs) {
        Ok(home + abs.skip(location.len() as int))
    } else {
        Err(YeetError::NotInDumpster)
    }
}

/// One entry of the dumpster root's listing, as the engine sees it.
pub struct DirEntry {
    pub name: Vec<u8>,
    pub is_dir: bool,
}

/// One removal that emptying asks for: the entry's full path, and whether
/// it must be removed as a directory tree or as a single file.
pub struct EmptyAction {
    pub path: AbsPath,
    pub is_dir: bool,
}

/// The engine. `location` is always `home` extended by `.dumpster`.
pub struct Dumpster {
    pub home: AbsPath,
    pub location: AbsPath,
}

/// Looks up the platform's home directory.
///
/// Relies on dirs::home_dir, which reads the platform's notion of the
/// current user's home directory; the result depends on the environment,
/// so nothing is promised of it. A home whose path is not valid UTF-8 is
/// treated as unavailable.
#[verifier::external_body]
fn home_dir_bytes() -> (r: Option<Vec<u8>>) {
    dirs::home_dir().and_then(|p| p.to_str().map(|s| s.as_bytes().to_vec()))
}

impl Dumpster {
    /// The two stored paths agree: the dumpster root is the fixed name
    /// under the home directory, and both are normalized.
    pub open spec fn wf(&self) -> bool {
        &&& self.home.wf()
        &&& self.location@ == self.home@.push(dumpster_dir_name())
    }

    /// An engine for the given home directory.
    pub fn with_location(home: AbsPath) -> (d: Dumpster)
        requires
            home.wf(),
        ensures
            d.wf(),
            d.home@ == home@,
    {
        let mut location = home.clone();
        location.push(dumpster_name_vec());
        Dumpster { home, location }
    }

    /// An engine rooted under the platform's home directory, or
    /// `HomeDirectoryUnavailable` when the platform reports none.
    pub fn with_default_location() -> (r: Result<Dumpster, YeetError>)
        ensures
            match r {
                Ok(d) => d.wf(),
                Err(e) => e == YeetError::HomeDirectoryUnavailable,
            },
    {
        match home_dir_bytes() {
            None => Err(YeetError::HomeDirectoryUnavailable),
            Some(bytes) => {
                let root = AbsPath::root();
                let home = get_absolute_path(&bytes, &root);
                Ok(Self::with_location(home))
            },
        }
    }

    /// The dumpster root.
    pub fn dumpster_location(&self) -> (r: &AbsPath)
        ensures
            r@ == self.location@,
    {
        &self.location
    }

    /// The final filename component of `path`, or `MissingFilename` when
    /// the path is the root and has none.
    pub fn get_filename<'a>(path: &'a AbsPath) -> (r: Result<&'a Vec<u8>, YeetError>)
        ensures
            match r {
                Ok(name) => path@.len() > 0 && name@ == path@.last(),
                Err(e) => e == YeetError::MissingFilename && path@.len() == 0,
            },
    {
        let n = path.components.len();
        if n == 0 {
            Err(YeetError::MissingFilename)
        } else {
            let r = &path.components[n - 1];
            proof {
                assert(path@.last() == path.components@[n - 1]@);
            }
            Ok(r)
        }
    }

    /// The name a yeet stores `original_filename` under, given the names
    /// `occupied` already present at the destination: the original name
    /// when free, else the first free of `name.0`, `name.1`, …, else
    /// `DuplicateLimitExceeded`.
    pub fn generate_filename(&self, original_filename: &Vec<u8>, occupied: &Vec<Vec<u8>>) -> (r:
        Result<Vec<u8>, YeetError>)
        ensures
            match r {
                Ok(name) => chosen_name(original_filename@, occupied.deep_view()) == Some(name@),
                Err(e) => e == YeetError::DuplicateLimitExceeded && chosen_name(
                    original_filename@,
                    occupied.deep_view(),
                ) is None,
            },
    {
        if !contains_name(occupied, original_filename) {
            let r = original_filename.clone();
            proof {
                assert(r@ =~= original_filename@);
            }
            return Ok(r);
        }
        let ghost orig = original_filename@;
        let ghost occ = occupied.deep_view();
        let mut n: u16 = 0;
        while n < MAX_NUMBER_OF_DUPLICATES
            invariant
                n <= MAX_NUMBER_OF_DUPLICATES,
                first_free(orig, occ, 0) == first_free(orig, occ, n as nat),
                orig == original_filename@,
                occ == occupied.deep_view(),
                occ.contains(orig),
            decreases MAX_NUMBER_OF_DUPLICATES - n,
        {
            let cand = make_candidate(original_filename, n);
            if !contains_name(occupied, &cand) {
                proof {
                    assert(first_free(orig, occ, n as nat) == Some(n as nat));
                }
                return Ok(cand);
            }
            proof {
                assert(first_free(orig, occ, n as nat) == first_free(orig, occ, n as nat + 1));
            }
            n = n + 1;
        }
        proof {
            assert(first_free(orig, occ, MAX_NUMBER_OF_DUPLICATES as nat) is None);
        }
        Err(YeetError::DuplicateLimitExceeded)
    }

    /// The directory a yeet of `absolute_path` stores its entry in: the
    /// mirrored path under the dumpster root, without the filename. This
    /// is the directory tree a caller creates before moving the file; it
    /// is computed, and the path checked, before anything is mutated.
    pub fn yeet_destination(&self, absolute_path: &AbsPath) -> (r: Result<AbsPath, YeetError>)
        requires
            self.wf(),
        ensures
            path_result_view(r) == yeet_directory(self.home@, self.location@, absolute_path@),
            is_under(self.location@, absolute_path@) ==> (r matches Err(e) && e
                == YeetError::AlreadyInDumpster),
    {
        if absolute_path.starts_with(&self.location) {
            Err(YeetError::AlreadyInDumpster)
        } else if !absolute_path.starts_with(&self.home) {
            Err(YeetError::OutsideHomeDirectory)
        } else {
            let suffix = absolute_path.strip_prefix(&self.home);
            let mut new_path = self.location.join(&suffix);
            proof {
                assert(self.location@.len() > 0);
                assert(new_path@.len() > 0);
            }
            new_path.pop();
            Ok(new_path)
        }
    }

    /// Where a yeet moves `absolute_path`, given the names `occupied`
    /// already present in its destination directory: the mirrored path
    /// under the dumpster root, with the filename the collision resolver
    /// chose. A path already under the root is rejected with
    /// `AlreadyInDumpster` — and nothing is mutated on any rejection,
    /// since this only computes the move's endpoint.
    pub fn yeet(&self, absolute_path: &AbsPath, occupied: &Vec<Vec<u8>>) -> (r: Result<
        AbsPath,
        YeetError,
    >)
        requires
            self.wf(),
        ensures
            path_result_view(r) == yeet_target(
                self.home@,
                self.location@,
                absolute_path@,
                occupied.deep_view(),
            ),
            is_under(self.location@, absolute_path@) ==> (r matches Err(e) && e
                == YeetError::AlreadyInDumpster),
            !is_under(self.location@, absolute_path@) && !is_under(self.home@, absolute_path@)
                ==> (r matches Err(e) && e == YeetError::OutsideHomeDirectory),
            match r {
                Ok(p) => absolute_path@.len() > self.home@.len() ==> is_under(self.location@, p@),
                Err(_) => true,
            },
    {
        let dir = match self.yeet_destination(absolute_path) {
            Ok(dir) => dir,
            Err(e) => {
                return Err(e);
            },
        };
        let old_filename = match Self::get_filename(absolute_path) {
            Ok(f) => f,
            Err(e) => {
                return Err(e);
            },
        };
        let new_filename = match self.generate_filename(old_filename, occupied) {
            Ok(f) => f,
            Err(e) => {
                return Err(e);
            },
        };
        let mut dest = dir;
        dest.push(new_filename);
        proof {
            let home = self.home@;
            let location = self.location@;
            let abs = absolute_path@;
            let suffix = abs.skip(home.len() as int);
            if abs.len() > home.len() {
                assert(suffix.len() > 0);
                assert((location + suffix).drop_last() =~~= location + suffix.drop_last());
                assert(is_under(location, dest@));
            }
        }
        Ok(dest)
    }

    /// Where a restore moves `absolute_path`: the home directory extended
    /// by the path's components below the dumpster root. A path not under
    /// the root is rejected with `NotInDumpster`; an accepted path's
    /// destination always lies under home.
    pub fn restore(&self, absolute_path: &AbsPath) -> (r: Result<AbsPath, YeetError>)
        requires
            self.wf(),
        ensures
            path_result_view(r) == restore_target(self.home@, self.location@, absolute_path@),
            match r {
                Ok(p) => is_under(self.location@, absolute_path@) && is_under(self.home@, p@),
                Err(e) => e == YeetError::NotInDumpster && !is_under(
                    self.location@,
                    absolute_path@,
                ),
            },
    {
        if absolute_path.starts_with(&self.location) {
            let suffix = absolute_path.strip_prefix(&self.location);
            let new_path = self.home.join(&suffix);
            Ok(new_path)
        } else {
            Err(YeetError::NotInDumpster)
        }
    }

    /// One removal per listed entry of the dumpster root, in listing
    /// order: the entry's full path under the root, removed as a tree for
    /// a directory and as a single file otherwise. Every entry is covered;
    /// a caller that performs the removals reports each failure and goes
    /// on, so one undeletable entry skips nothing else.
    pub fn empty(&self, entries: &Vec<DirEntry>) -> (r: Vec<EmptyAction>)
        ensures
            r@.len() == entries@.len(),
            forall|i: int|
                0 <= i < entries@.len() ==> {
                    &&& (#[trigger] r@[i]).path@ == self.location@.push(entries@[i].name@)
                    &&& r@[i].is_dir == entries@[i].is_dir
                    &&& is_under(self.location@, r@[i].path@)
                },
    {
        let n = entries.len();
        let mut r: Vec<EmptyAction> = Vec::new();
        let mut i: usize = 0;
        while i < n
            invariant
                i <= n,
                n == entries.len(),
                r@.len() == i,
                forall|j: int|
                    0 <= j < i ==> {
                        &&& (#[trigger] r@[j]).path@ == self.location@.push(entries@[j].name@)
                        &&& r@[j].is_dir == entries@[j].is_dir
                        &&& is_under(self.location@, r@[j].path@)
                    },
            decreases n - i,
        {
            let mut path = self.location.clone();
            let name = entries[i].name.clone();
            proof {
                assert(name@ =~= entries@[i as int].name@);
            }
            path.push(name);
            r.push(EmptyAction { path, is_dir: entries[i].is_dir });
            i = i + 1;
        }
        r
    }
}

} // verus!
