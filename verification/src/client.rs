//! Where a client keeps the image files it pulls: a directory given by the user, or
//! else the per-user cache directory of the platform.
use vstd::prelude::*;
use crate::vfs::VFSError;
use crate::startup::bytes_equal;
use directories_next::ProjectDirs;

verus! {

#[verifier::external_type_specification]
#[verifier::external_body]
pub struct ExProjectDirs(ProjectDirs);

/// Failures in preparing an image that carry no value of another crate.
#[derive(Debug, Clone, PartialEq, Eq)]
pub enum ImageError {
    TARFileError,
    ImageVFSError(VFSError),
    BadStoragePath(String),
    StorageMissingAfterInsert,
    NoDefaultCacheDir,
    UnsupportedManifestType,
    UnsupportedRuntimeConfigType(String),
    UnsupportedLayerType(String),
    UnexpectedContentSize,
    UnexpectedDecompressedLayerContent,
    UnsupportedRootFilesystemType(String),
}

/// `directories_next::ProjectDirs::from`: the per-user directories of an application,
/// or `None` where no home directory can be found. Which it is, and the paths inside,
/// depend on the environment (the home directory, the XDG variables), so nothing is
/// stated of the result.
#[verifier::external_body]
fn project_dirs_from(qualifier: &str, organization: &str, application: &str) -> (r: Option<
    ProjectDirs,
>) {
    ProjectDirs::from(qualifier, organization, application)
}

/// `ProjectDirs::cache_dir`, as the bytes of the path. The path is the one that
/// `ProjectDirs::from` chose from the environment; nothing is stated of it.
#[verifier::external_body]
fn project_cache_dir(dirs: &ProjectDirs) -> (r: Vec<u8>) {
    dirs.cache_dir().as_os_str().as_encoded_bytes().to_vec()
}

/// The cache directory for this application that the platform suggests.
fn default_cache_dir() -> (r: Result<Vec<u8>, ImageError>)
    ensures
        r is Ok || r == Err::<Vec<u8>, ImageError>(ImageError::NoDefaultCacheDir),
{
    match project_dirs_from("org", "scanlime", "bandsocks") {
        Some(dirs) => Ok(project_cache_dir(&dirs)),
        None => Err(ImageError::NoDefaultCacheDir),
    }
}

/// The settings a client is made from.
pub struct ClientBuilder {
    cache_dir: Option<Vec<u8>>,
}

impl ClientBuilder {
    /// The cache directory the user chose, if any, as the bytes of its path.
    pub closed spec fn cache_dir_setting(&self) -> Option<Seq<u8>> {
        match self.cache_dir {
            Some(d) => Some(d@),
            None => None,
        }
    }

    /// Settings with no cache directory chosen.
    pub fn configure() -> (r: Self)
        ensures
            r.cache_dir_setting() is None,
    {
        ClientBuilder { cache_dir: None }
    }

    /// Choose the directory that image files are cached in.
    pub fn cache_dir(&mut self, dir: &[u8]) -> (r: &mut Self)
        ensures
            r.cache_dir_setting() == Some(dir@),
            *final(self) == *final(r),
    {
        self.cache_dir = Some(vstd::slice::slice_to_vec(dir));
        self
    }

    /// The directory to cache in, given what the platform suggests: the one chosen, if
    /// any, else the suggestion.
    pub fn select_cache_dir(&self, default: Result<Vec<u8>, ImageError>) -> (r: Result<
        Vec<u8>,
        ImageError,
    >)
        ensures
            self.cache_dir_setting() matches Some(d) ==> r matches Ok(v) && v@ == d,
            self.cache_dir_setting() is None ==> r == default,
    {
        match &self.cache_dir {
            Some(d) => Ok(vstd::slice::slice_to_vec(d.as_slice())),
            None => default,
        }
    }

    /// The directory the client will cache in. The platform is asked only where no
    /// directory was chosen, and where it has none to suggest the answer is
    /// `NoDefaultCacheDir`.
    pub fn build_cache_dir(self) -> (r: Result<Vec<u8>, ImageError>)
        ensures
            self.cache_dir_setting() matches Some(d) ==> r matches Ok(v) && v@ == d,
            self.cache_dir_setting() is None ==> (r is Ok || r == Err::<Vec<u8>, ImageError>(
                ImageError::NoDefaultCacheDir,
            )),
    {
        match self.cache_dir {
            Some(dir) => Ok(dir),
            None => self.select_cache_dir(default_cache_dir()),
        }
    }
}

/// A registry connection made for one image serves another exactly when both name the
/// same registry and the same repository.
pub fn registry_is_reusable(
    previous: Option<(&[u8], &[u8])>,
    registry: &[u8],
    repository: &[u8],
) -> (r: bool)
    ensures
        r == (previous matches Some((g, p)) && g@ == registry@ && p@ == repository@),
{
    match previous {
        None => false,
        Some((prev_registry, prev_repository)) => bytes_equal(prev_registry, registry)
            && bytes_equal(prev_repository, repository),
    }
}

/// A blob, downloaded or cached, must have the size that the manifest gives for it.
pub fn check_blob_size(len: usize, expected: u64) -> (r: Result<(), ImageError>)
    ensures
        len == expected ==> r is Ok,
        len != expected ==> r == Err::<(), ImageError>(ImageError::UnexpectedContentSize),
{
    if len as u64 == expected {
        Ok(())
    } else {
        Err(ImageError::UnexpectedContentSize)
    }
}

/// The cached blobs for a list of digests, when every one of them was found: `found`
/// holds what the cache gave for each digest in turn.
pub fn all_found<T>(found: Vec<Option<T>>) -> (r: Option<Vec<T>>)
    ensures
        (forall|i: int| 0 <= i < found@.len() ==> found@[i] is Some) ==> (r matches Some(v) && v@
            == found@.map_values(|o: Option<T>| o->Some_0)),
        (exists|i: int| 0 <= i < found@.len() && found@[i] is None) ==> r is None,
{
    let n = found.len();
    let mut result: Vec<T> = Vec::new();
    let mut rest = found;
    let ghost all = rest@;
    let mut i: usize = 0;
    while i < n
        invariant
            all == found@,
            rest@.len() == n,
            all.len() == n,
            i <= n,
            forall|k: int| i <= k < n ==> rest@[k] == all[k],
            forall|k: int| 0 <= k < i ==> all[k] is Some,
            result@ == all.take(i as int).map_values(|o: Option<T>| o->Some_0),
        decreases n - i,
    {
        let item = rest.remove(i);
        proof {
            assert(item == all[i as int]);
        }
        rest.insert(i, None);
        match item {
            Some(v) => {
                result.push(v);
                proof {
                    assert(all.take(i + 1).map_values(|o: Option<T>| o->Some_0) =~= all.take(
                        i as int,
                    ).map_values(|o: Option<T>| o->Some_0).push(v));
                }
            },
            None => {
                proof {
                    assert(!(found@[i as int] is Some));
                }
                return None;
            },
        }
        i = i + 1;
    }
    proof {
        assert(all.take(n as int) =~= all);
    }
    Some(result)
}

} // verus!
