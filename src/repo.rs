use crate::digest::{is_hex_char, lemma_hex_upper_chars, lemma_hex_upper_len, sha3_512_of, signature_of, spec_signature};
use crate::text::{trim_end, trim_start, trim_text, trim_ws};
use vstd::prelude::*;

verus! {

/// Where cached files and extracted packages live.
pub open spec fn default_cache_root() -> Seq<char> {
    "/tmp/pkg"@
}

/// Two path pieces joined by a single separator.
pub open spec fn join_path(a: Seq<char>, b: Seq<char>) -> Seq<char> {
    a + seq!['/'] + b
}

/// The file that holds a package's archive.
pub open spec fn archive_name(package: Seq<char>) -> Seq<char> {
    package + ".tar"@
}

/// The file that holds a package's signature.
pub open spec fn signature_name(package: Seq<char>) -> Seq<char> {
    package + ".sig"@
}

/// What a signature file holds: the signature and a newline.
pub open spec fn signature_file_text(data: Seq<u8>) -> Seq<char> {
    spec_signature(data) + seq!['\n']
}

/// An archive is valid when its signature equals the trimmed text of its
/// signature file.
pub open spec fn archive_valid(expected_text: Seq<char>, data: Seq<u8>) -> bool {
    spec_signature(data) == trim_ws(expected_text)
}

/// The bytes of an optional cached archive.
pub open spec fn cached_bytes(cached: Option<&[u8]>) -> Option<Seq<u8>> {
    match cached {
        Some(d) => Some(d@),
        None => None,
    }
}

/// Whether fetch has to download the archive: there is no cached copy, or
/// the cached copy does not match the signature file.
pub open spec fn needs_download(expected_text: Seq<char>, cached: Option<Seq<u8>>) -> bool {
    !(cached matches Some(d) && archive_valid(expected_text, d))
}

/// The archive that fetch hands out, given the cached copy and what a
/// download would bring; `None` where fetch fails as invalid.
pub open spec fn fetched_archive(
    expected_text: Seq<char>,
    cached: Option<Seq<u8>>,
    downloaded: Seq<u8>,
) -> Option<Seq<u8>> {
    if !needs_download(expected_text, cached) {
        cached
    } else if archive_valid(expected_text, downloaded) {
        Some(downloaded)
    } else {
        None
    }
}

/// What the next step of a sync is, after `attempted` mirrors were tried and
/// the last of them succeeded or not.
pub open spec fn spec_sync_step(mirrors: nat, attempted: nat, last_succeeded: bool) -> SyncAction {
    if attempted > 0 && last_succeeded {
        SyncAction::Finished
    } else if attempted < mirrors {
        SyncAction::Download(attempted as usize)
    } else {
        SyncAction::Exhausted
    }
}

/// The next step of a sync.
#[derive(Clone, Copy, Debug, PartialEq, Eq, Structural)]
pub enum SyncAction {
    /// Download the file from the mirror with this index into the cache.
    Download(usize),
    /// The last download succeeded: the cached file is the result.
    Finished,
    /// No mirror is left: the file was not found.
    Exhausted,
}

#[derive(Clone, Debug)]
pub enum RepoError {
    /// No mirror could supply a file, or a local file is absent.
    NotFound(String),
    /// An archive does not match its signature.
    InvalidData(String),
}

impl RepoError {
    /// No mirror supplied a file.
    pub fn no_remote_paths() -> (r: RepoError)
        ensures
            r matches RepoError::NotFound(m) && m@ == "no remote paths"@,
    {
        RepoError::NotFound("no remote paths".to_owned())
    }

    /// A package directory to be archived does not exist.
    pub fn package_not_found(package: &str) -> (r: RepoError)
        ensures
            r matches RepoError::NotFound(m) && m@ == package@ + " not found"@,
    {
        RepoError::NotFound(package.to_owned().concat(" not found"))
    }

    /// The text of the error.
    pub fn message(&self) -> (r: String)
        ensures
            self matches RepoError::NotFound(m) ==> r@ == m@,
            self matches RepoError::InvalidData(m) ==> r@ == m@,
    {
        match self {
            RepoError::NotFound(m) => m.clone(),
            RepoError::InvalidData(m) => m.clone(),
        }
    }
}

/// The repository client: a local cache, the mirrors in the order in which
/// they are tried, and the target that scopes every remote path.
pub struct Repo {
    local: String,
    remotes: Vec<String>,
    target: String,
}

pub struct RepoView {
    pub local: Seq<char>,
    pub remotes: Seq<Seq<char>>,
    pub target: Seq<char>,
}

impl View for Repo {
    type V = RepoView;

    closed spec fn view(&self) -> RepoView {
        RepoView {
            local: self.local@,
            remotes: self.remotes@.map_values(|r: String| r@),
            target: self.target@,
        }
    }
}

/// The local path of a file in the cache.
pub open spec fn cache_file(v: RepoView, file: Seq<char>) -> Seq<char> {
    join_path(v.local, file)
}

/// The path of a file on one mirror: `<mirror>/<target>/<file>`.
pub open spec fn remote_file(v: RepoView, mirror: int, file: Seq<char>) -> Seq<char> {
    join_path(join_path(v.remotes[mirror], v.target), file)
}

fn join(a: &str, b: &str) -> (r: String)
    ensures
        r@ == join_path(a@, b@),
{
    proof {
        reveal_strlit("/");
    }
    let s = a.to_owned().concat("/").concat(b);
    assert(s@ =~= join_path(a@, b@));
    s
}

impl Repo {
    /// A client for `target` with the given mirrors, tried in this order.
    pub fn new(target: &str, remotes: Vec<String>) -> (r: Repo)
        ensures
            r@.local == default_cache_root(),
            r@.remotes == remotes@.map_values(|m: String| m@),
            r@.target == target@,
    {
        Repo { local: "/tmp/pkg".to_owned(), remotes, target: target.to_owned() }
    }

    /// Appends a mirror, tried after all the others.
    pub fn add_remote(&mut self, remote: &str)
        ensures
            final(self)@.remotes == old(self)@.remotes.push(remote@),
            final(self)@.local == old(self)@.local,
            final(self)@.target == old(self)@.target,
    {
        self.remotes.push(remote.to_owned());
        assert(self.remotes@.map_values(|r: String| r@) =~= old(self)@.remotes.push(remote@));
    }

    pub fn mirror_count(&self) -> (r: usize)
        ensures
            r == self@.remotes.len(),
    {
        self.remotes.len()
    }

    /// The local path of a file in the cache.
    pub fn cache_path(&self, file: &str) -> (r: String)
        ensures
            r@ == cache_file(self@, file@),
    {
        join(self.local.as_str(), file)
    }

    /// The path of a file on a mirror, scoped by the target.
    pub fn remote_path(&self, mirror: usize, file: &str) -> (r: String)
        requires
            mirror < self@.remotes.len(),
        ensures
            r@ == remote_file(self@, mirror as int, file@),
    {
        let base = join(self.remotes[mirror].as_str(), self.target.as_str());
        join(base.as_str(), file)
    }

    /// The directory that a package is extracted into, and that cleaning removes.
    pub fn package_dir(&self, package: &str) -> (r: String)
        ensures
            r@ == cache_file(self@, package@),
    {
        self.cache_path(package)
    }

    /// Decides the next step of a sync: the mirrors are tried in list
    /// order, the first download that succeeds ends it, and when none is
    /// left the file is not found.
    pub fn sync_step(&self, attempted: usize, last_succeeded: bool) -> (r: SyncAction)
        ensures
            r == spec_sync_step(self@.remotes.len(), attempted as nat, last_succeeded),
    {
        if attempted > 0 && last_succeeded {
            SyncAction::Finished
        } else if attempted < self.remotes.len() {
            SyncAction::Download(attempted)
        } else {
            SyncAction::Exhausted
        }
    }

    /// The signature of an archive's bytes.
    pub fn signature(&self, data: &[u8]) -> (r: String)
        ensures
            r@ == spec_signature(data@),
    {
        signature_of(data)
    }

    /// What `create` writes into a package's signature file.
    pub fn signature_file(&self, data: &[u8]) -> (r: String)
        ensures
            r@ == signature_file_text(data@),
    {
        proof {
            reveal_strlit("\n");
        }
        let r = signature_of(data).concat("\n");
        assert(r@ =~= signature_file_text(data@));
        r
    }

    /// Whether the cached archive, if there is one, can be used as it is.
    pub fn cache_hit(&self, expected_text: &str, cached: Option<&[u8]>) -> (r: bool)
        ensures
            r == !needs_download(expected_text@, cached_bytes(cached)),
    {
        match cached {
            Some(d) => {
                let sig = signature_of(d);
                signature_matches(sig.as_str(), expected_text)
            },
            None => false,
        }
    }

    /// Checks a downloaded archive against the signature file's text.
    pub fn verify_archive(&self, package: &str, expected_text: &str, data: &[u8]) -> (r: Result<(), RepoError>)
        ensures
            r is Ok <==> archive_valid(expected_text@, data@),
            r matches Err(e) ==> (e matches RepoError::InvalidData(m) && m@ == package@ + " not valid"@),
    {
        let sig = signature_of(data);
        if signature_matches(sig.as_str(), expected_text) {
            Ok(())
        } else {
            Err(RepoError::InvalidData(package.to_owned().concat(" not valid")))
        }
    }
}

/// The name of a package's archive file.
pub fn archive_file(package: &str) -> (r: String)
    ensures
        r@ == archive_name(package@),
{
    package.to_owned().concat(".tar")
}

/// The name of a package's signature file.
pub fn signature_file_name(package: &str) -> (r: String)
    ensures
        r@ == signature_name(package@),
{
    package.to_owned().concat(".sig")
}

/// Whether a computed signature equals the trimmed text of a signature file.
pub fn signature_matches(signature: &str, expected_text: &str) -> (r: bool)
    ensures
        r == (signature@ == trim_ws(expected_text@)),
{
    let expected = trim_text(expected_text).to_owned();
    let sig = signature.to_owned();
    sig == expected
}

/// The text that `create` writes into a signature file, once trimmed,
/// equals the signature computed again from the archive's bytes.
pub proof fn lemma_signature_round_trip(data: Seq<u8>)
    ensures
        trim_ws(signature_file_text(data)) == spec_signature(data),
        archive_valid(signature_file_text(data), data),
{
    let h = spec_signature(data);
    let t = signature_file_text(data);
    lemma_hex_upper_len(sha3_512_of(data));
    lemma_hex_upper_chars(sha3_512_of(data));
    if h.len() == 0 {
        assert(t.drop_first() =~= Seq::<char>::empty());
        assert(trim_start(t) == trim_start(Seq::<char>::empty()));
        assert(trim_end(Seq::<char>::empty()) == Seq::<char>::empty());
        assert(h =~= Seq::<char>::empty());
    } else {
        assert(t[0] == h[0]);
        assert(is_hex_char(h[0]));
        assert(trim_start(t) == t);
        assert(t.last() == '\n');
        assert(t.drop_last() =~= h);
        assert(is_hex_char(h.last()));
        assert(trim_end(h) == h);
    }
}

/// Once the cache holds an archive that matches its signature file, fetch
/// takes it from the cache without a download, as often as it is called:
/// nothing in that path changes the cached archive or the signature file.
pub proof fn lemma_cache_hit_needs_no_download(expected_text: Seq<char>, data: Seq<u8>)
    requires
        archive_valid(expected_text, data),
    ensures
        !needs_download(expected_text, Some(data)),
        fetched_archive(expected_text, Some(data), data) == Some(data),
        forall|downloaded: Seq<u8>| #[trigger] fetched_archive(expected_text, Some(data), downloaded) == Some(data),
{
}

/// A cached archive that was altered is downloaded again, and whatever fetch
/// hands out always matches the signature file: mismatched content is never
/// handed out.
pub proof fn lemma_tamper_detected(expected_text: Seq<char>, cached: Seq<u8>, downloaded: Seq<u8>)
    ensures
        !archive_valid(expected_text, cached) ==> needs_download(expected_text, Some(cached)),
        !archive_valid(expected_text, cached) && !archive_valid(expected_text, downloaded)
            ==> fetched_archive(expected_text, Some(cached), downloaded) is None,
        fetched_archive(expected_text, Some(cached), downloaded) matches Some(b) ==> archive_valid(expected_text, b),
{
}

/// Sync tries the mirrors in list order: while no download has succeeded,
/// attempt `k` goes to mirror `k`, so no mirror is tried before those ahead
/// of it; the first success ends the sync; when every mirror failed, the
/// file is not found.
pub proof fn lemma_mirror_fallback_order(mirrors: nat, k: nat)
    requires
        mirrors <= usize::MAX,
    ensures
        k < mirrors ==> spec_sync_step(mirrors, k, false) == SyncAction::Download(k as usize),
        k > 0 ==> spec_sync_step(mirrors, k, true) == SyncAction::Finished,
        spec_sync_step(mirrors, mirrors, false) == SyncAction::Exhausted,
{
}

} // verus!
