//! The distribution cache: bucket naming from the resolved URL, the
//! hit/download/extract decision, the atomic-download temporary path, and
//! the reuse-unless-stale policy for metadata files.
use vstd::prelude::*;

verus! {

use vstd::string::{StrSliceExecFns, StringExecFns};
use crate::digest::{md5_of, md5decimal, be_value, hash_hex, radix_string, to_radix, unsigned32};
use crate::text::{chars_to_string, last_index, lemma_last_index, matches_at, range_to_string, rfind_char, str_chars};
use crate::uri::{java_uri_hash, uri_hash_spec, uri_hash_supported, UriHashError, UriParts};

/// `s` with every occurrence of `pat` removed, scanning left to right.
pub open spec fn remove_all(s: Seq<char>, pat: Seq<char>) -> Seq<char>
    recommends
        pat.len() > 0,
    decreases s.len(),
    when pat.len() >= 1
{
    if s.len() >= pat.len() && s.take(pat.len() as int) == pat {
        remove_all(s.skip(pat.len() as int), pat)
    } else if s.len() > 0 {
        seq![s[0]] + remove_all(s.skip(1), pat)
    } else {
        Seq::empty()
    }
}

/// Removes every occurrence of `pat` from `v`, scanning left to right.
fn remove_all_exec(v: &Vec<char>, pat: &Vec<char>) -> (out: Vec<char>)
    requires
        pat@.len() > 0,
    ensures
        out@ == remove_all(v@, pat@),
{
    let n = v.len();
    let m = pat.len();
    let mut out: Vec<char> = Vec::new();
    let mut i: usize = 0;
    proof {
        assert(v@.skip(0) =~= v@);
        assert(out@ + remove_all(v@, pat@) =~= remove_all(v@, pat@));
    }
    while i < n
        invariant
            n == v@.len(),
            m == pat@.len(),
            m > 0,
            i <= n,
            remove_all(v@, pat@) == out@ + remove_all(v@.skip(i as int), pat@),
        decreases n - i,
    {
        let ghost pre = out@;
        let ghost cur = v@.skip(i as int);
        if m <= n - i && matches_at(v, i, pat) {
            proof {
                assert(cur.take(m as int) =~= v@.subrange(i as int, i + m));
                assert(cur.skip(m as int) =~= v@.skip(i + m));
            }
            i = i + m;
        } else {
            proof {
                if m <= n - i {
                    assert(cur.take(m as int) =~= v@.subrange(i as int, i + m));
                }
                assert(cur.skip(1) =~= v@.skip(i + 1));
                assert(remove_all(cur, pat@) == seq![cur[0]] + remove_all(cur.skip(1), pat@));
                assert(pre + remove_all(cur, pat@) =~= pre.push(cur[0]) + remove_all(
                    cur.skip(1),
                    pat@,
                ));
            }
            out.push(v[i]);
            i = i + 1;
        }
    }
    proof {
        assert(v@.skip(n as int) =~= Seq::<char>::empty());
        assert(out@ + remove_all(v@.skip(n as int), pat@) =~= out@);
    }
    out
}

/// The archive file name of a URL path: what follows the last `/`.
pub open spec fn archive_name_spec(path: Seq<char>) -> Seq<char>
    recommends
        path.contains('/'),
{
    path.skip(last_index(path, '/') + 1)
}

/// The archive stem: the archive name with every `.zip` removed.
pub open spec fn archive_stem_spec(path: Seq<char>) -> Seq<char> {
    remove_all(archive_name_spec(path), ".zip"@)
}

/// The dist stem: the archive stem with every `-bin` removed.
pub open spec fn dist_stem_spec(path: Seq<char>) -> Seq<char> {
    remove_all(archive_stem_spec(path), "-bin"@)
}

/// Why no cache bucket can be named for a URL.
#[derive(Debug, PartialEq, Eq, Structural)]
pub enum CacheKeyError {
    /// The URL path has no `/`, so no archive file name can be taken from it.
    NoArchiveName,
    /// The URI hash is unsupported for this URL.
    UnsupportedUri(UriHashError),
}

/// Where a distribution lives in the cache, as paths relative to the
/// user's home directory.
pub struct CacheLayout {
    /// The archive's file name, taken from the URL path.
    pub archive_name: String,
    /// The cache bucket: `<family root>/dists/<archive stem>/<hash>`.
    pub base_dir: String,
    /// The unpacked home: `<base_dir>/<dist stem>`.
    pub home_dir: String,
}

/// The fields a cache layout must show for a URL `u` under a family cache
/// root `root` with cache key `key`.
pub open spec fn layout_spec(l: CacheLayout, u: UriParts, root: Seq<char>, key: Seq<char>) -> bool {
    &&& l.archive_name@ == archive_name_spec(u.path@)
    &&& l.base_dir@ == root + "/wrapper/dists/"@ + archive_stem_spec(u.path@) + "/"@ + key
    &&& l.home_dir@ == l.base_dir@ + "/"@ + dist_stem_spec(u.path@)
}

/// Joins `root + "/wrapper/dists/" + stem + "/" + key` and the home below it.
fn assemble_layout(u: &UriParts, root: &str, key: &str) -> (r: Result<CacheLayout, CacheKeyError>)
    ensures
        u.path@.contains('/') ==> (r matches Ok(l) && layout_spec(l, *u, root@, key@)),
        !u.path@.contains('/') ==> r == Err::<CacheLayout, CacheKeyError>(
            CacheKeyError::NoArchiveName,
        ),
{
    let chars = str_chars(u.path.as_str());
    let slash = match rfind_char(&chars, '/') {
        None => {
            proof {
                lemma_last_index(u.path@, '/');
            }
            return Err(CacheKeyError::NoArchiveName);
        },
        Some(s) => s,
    };
    let n = chars.len();
    proof {
        lemma_last_index(u.path@, '/');
        assert(slash < n);
    }
    let name_chars = str_chars(range_to_string(&chars, slash + 1, n).as_str());
    proof {
        assert(name_chars@ =~= u.path@.skip(last_index(u.path@, '/') + 1));
    }
    proof {
        reveal_strlit(".zip");
        reveal_strlit("-bin");
    }
    let zip_pat = str_chars(".zip");
    let bin_pat = str_chars("-bin");
    let stem_chars = remove_all_exec(&name_chars, &zip_pat);
    let dist_chars = remove_all_exec(&stem_chars, &bin_pat);
    let archive_name = chars_to_string(&name_chars);
    let stem = chars_to_string(&stem_chars);
    let dist = chars_to_string(&dist_chars);
    let mut base_dir = String::from_str(root);
    base_dir.append("/wrapper/dists/");
    base_dir.append(stem.as_str());
    base_dir.append("/");
    base_dir.append(key);
    let mut home_dir = String::from_str(base_dir.as_str());
    home_dir.append("/");
    home_dir.append(dist.as_str());
    Ok(CacheLayout { archive_name, base_dir, home_dir })
}

/// The cache bucket of a Maven distribution URL: under `.m2`, keyed by the
/// URI hash rendered as lower-case hex of its unsigned value.
pub fn maven_cache_layout(u: &UriParts) -> (r: Result<CacheLayout, CacheKeyError>)
    ensures
        uri_hash_supported(*u) && u.path@.contains('/') ==> (r matches Ok(l) && layout_spec(
            l,
            *u,
            ".m2"@,
            radix_string(unsigned32(uri_hash_spec(*u)), 16),
        )),
        !u.path@.contains('/') ==> r is Err,
        !uri_hash_supported(*u) ==> r is Err,
{
    let h = match java_uri_hash(u) {
        Ok(h) => h,
        Err(e) => {
            return Err(CacheKeyError::UnsupportedUri(e));
        },
    };
    let key = hash_hex(h);
    assemble_layout(u, ".m2", key.as_str())
}

/// The cache bucket of a Gradle distribution URL: under `.gradle`, keyed by
/// the MD5 of the whole URL rendered in base 36.
pub fn gradle_cache_layout(u: &UriParts) -> (r: Result<CacheLayout, CacheKeyError>)
    ensures
        u.path@.contains('/') ==> (r matches Ok(l) && layout_spec(
            l,
            *u,
            ".gradle"@,
            radix_string(be_value(md5_of(u.full@)), 36),
        )),
        !u.path@.contains('/') ==> r == Err::<CacheLayout, CacheKeyError>(
            CacheKeyError::NoArchiveName,
        ),
{
    let key = md5decimal(u.full.as_str());
    assemble_layout(u, ".gradle", key.as_str())
}

/// What the cache manager must do for a bucket.
#[derive(Debug, PartialEq, Eq, Structural)]
pub enum CachePlan {
    /// The unpacked home exists: reuse it, touch nothing.
    UseExisting,
    /// The archive is present but not unpacked: extract only.
    ExtractOnly,
    /// Nothing is present: download the archive, then extract.
    DownloadAndExtract,
}

/// Decides what to do for a cache bucket: a present, non-empty unpacked
/// home is the cache hit with nothing re-validated, and the archive is
/// downloaded only if missing.
pub fn cache_plan(home_dir_present: bool, archive_present: bool) -> (r: CachePlan)
    ensures
        home_dir_present ==> r == CachePlan::UseExisting,
        !home_dir_present && archive_present ==> r == CachePlan::ExtractOnly,
        !home_dir_present && !archive_present ==> r == CachePlan::DownloadAndExtract,
{
    if home_dir_present {
        CachePlan::UseExisting
    } else if archive_present {
        CachePlan::ExtractOnly
    } else {
        CachePlan::DownloadAndExtract
    }
}

/// Why a download is refused before any byte is written.
#[derive(Debug, PartialEq, Eq, Structural)]
pub enum DownloadError {
    /// The response status was not 200.
    HttpStatus,
    /// The response carries no content length.
    NoContentLength,
}

/// Checks a response before anything is written: only a 200 status with a
/// content length proceeds, so a failed transfer never touches the
/// destination.
pub fn download_precheck(status: u16, content_length: Option<u64>) -> (r: Result<
    u64,
    DownloadError,
>)
    ensures
        status != 200 ==> r == Err::<u64, DownloadError>(DownloadError::HttpStatus),
        status == 200 && content_length is None ==> r == Err::<u64, DownloadError>(
            DownloadError::NoContentLength,
        ),
        status == 200 ==> (content_length matches Some(n) ==> r == Ok::<u64, DownloadError>(n)),
{
    if status != 200 {
        return Err(DownloadError::HttpStatus);
    }
    match content_length {
        None => Err(DownloadError::NoContentLength),
        Some(n) => Ok(n),
    }
}

/// The temporary sibling path a download is written to before the atomic
/// rename: never the destination itself, which stays absent or unchanged
/// until the whole body has been written.
pub fn temp_download_path(dest: &str, dest_exists: bool, mtime_secs: u64) -> (r: String)
    ensures
        !dest_exists ==> r@ == dest@ + ".new"@,
        dest_exists && mtime_secs > 0 ==> r@ == dest@ + ".upd."@ + radix_string(
            mtime_secs as nat,
            10,
        ),
        dest_exists && mtime_secs == 0 ==> r@ == dest@ + ".upd"@,
        r@ != dest@,
        dest@.is_prefix_of(r@),
{
    proof {
        reveal_strlit(".new");
        reveal_strlit(".upd");
        reveal_strlit(".");
        reveal_strlit(".upd.");
    }
    let mut r = String::from_str(dest);
    if !dest_exists {
        r.append(".new");
    } else {
        r.append(".upd");
        if mtime_secs > 0 {
            r.append(".");
            let digits = to_radix(mtime_secs as u128, 10);
            let rendered = chars_to_string(&digits);
            r.append(rendered.as_str());
            proof {
                assert(dest@ + ".upd"@ + "."@ + rendered@ =~= dest@ + ".upd."@ + rendered@);
            }
        }
    }
    proof {
        assert(r@.len() > dest@.len());
        assert(dest@.is_prefix_of(r@)) by {
            assert(r@.take(dest@.len() as int) =~= dest@);
        }
    }
    r
}

/// What the reuse-unless-stale policy decides for a metadata file.
#[derive(Debug, PartialEq, Eq, Structural)]
pub enum ReusePlan {
    /// The file is present and fresh: reuse it, no fetch.
    UseExisting,
    /// The file is present but stale or of unknown age: attempt one refresh,
    /// and keep the file on failure.
    RefreshThenFallback,
    /// The file is absent: the one download must succeed.
    MustDownload,
}

/// How many fetch attempts a plan performs.
pub open spec fn fetch_attempts(p: ReusePlan) -> nat {
    match p {
        ReusePlan::UseExisting => 0nat,
        ReusePlan::RefreshThenFallback => 1nat,
        ReusePlan::MustDownload => 1nat,
    }
}

/// Whether a refresh is due: an unknown age always refreshes, a known age
/// only once it exceeds the threshold.
pub open spec fn needs_refresh(age_secs: Option<u64>, max_age_secs: u64) -> bool {
    match age_secs {
        None => true,
        Some(a) => a > max_age_secs,
    }
}

/// Decides whether a metadata file is reused or refreshed. `age_secs` is
/// `None` when the file's age could not be determined.
pub fn reuse_plan(file_exists: bool, age_secs: Option<u64>, max_age_secs: u64) -> (r: ReusePlan)
    ensures
        !file_exists ==> r == ReusePlan::MustDownload,
        file_exists && !needs_refresh(age_secs, max_age_secs) ==> r == ReusePlan::UseExisting,
        file_exists && needs_refresh(age_secs, max_age_secs) ==> r
            == ReusePlan::RefreshThenFallback,
{
    if !file_exists {
        return ReusePlan::MustDownload;
    }
    match age_secs {
        None => ReusePlan::RefreshThenFallback,
        Some(a) => if a > max_age_secs {
            ReusePlan::RefreshThenFallback
        } else {
            ReusePlan::UseExisting
        },
    }
}

/// A file younger than the threshold triggers no fetch; one older triggers
/// exactly one fetch attempt.
pub proof fn lemma_reuse_fetch_count(
    plan: ReusePlan,
    age: u64,
    max_age: u64,
    file_exists: bool,
)
    requires
        file_exists,
        plan == (if needs_refresh(Some(age), max_age) {
            ReusePlan::RefreshThenFallback
        } else {
            ReusePlan::UseExisting
        }),
    ensures
        age <= max_age ==> fetch_attempts(plan) == 0,
        age > max_age ==> plan == ReusePlan::RefreshThenFallback && fetch_attempts(plan) == 1,
{
}

/// How the reuse policy ends.
#[derive(Debug, PartialEq, Eq, Structural)]
pub enum ReuseOutcome {
    /// The existing file stands, fresh or as the fallback after a failed
    /// refresh.
    KeptExisting,
    /// A fetched copy replaced the file.
    Refreshed,
}

/// The one fatal case of the reuse policy.
#[derive(Debug, PartialEq, Eq, Structural)]
pub enum ReuseError {
    /// The file was absent and the only download attempt failed: there is
    /// nothing to fall back on.
    InitialDownloadFailed,
}

/// Folds the fetch result back into the policy: a failed refresh of an
/// existing file keeps the file and is no error, while a failed first
/// download of an absent file is one.
pub fn reuse_outcome(plan: &ReusePlan, fetch_succeeded: bool) -> (r: Result<
    ReuseOutcome,
    ReuseError,
>)
    ensures
        plan == ReusePlan::UseExisting ==> r == Ok::<ReuseOutcome, ReuseError>(
            ReuseOutcome::KeptExisting,
        ),
        plan == ReusePlan::RefreshThenFallback && fetch_succeeded ==> r == Ok::<
            ReuseOutcome,
            ReuseError,
        >(ReuseOutcome::Refreshed),
        plan == ReusePlan::RefreshThenFallback && !fetch_succeeded ==> r == Ok::<
            ReuseOutcome,
            ReuseError,
        >(ReuseOutcome::KeptExisting),
        plan == ReusePlan::MustDownload && fetch_succeeded ==> r == Ok::<
            ReuseOutcome,
            ReuseError,
        >(ReuseOutcome::Refreshed),
        plan == ReusePlan::MustDownload && !fetch_succeeded ==> r == Err::<
            ReuseOutcome,
            ReuseError,
        >(ReuseError::InitialDownloadFailed),
{
    match plan {
        ReusePlan::UseExisting => Ok(ReuseOutcome::KeptExisting),
        ReusePlan::RefreshThenFallback => if fetch_succeeded {
            Ok(ReuseOutcome::Refreshed)
        } else {
            Ok(ReuseOutcome::KeptExisting)
        },
        ReusePlan::MustDownload => if fetch_succeeded {
            Ok(ReuseOutcome::Refreshed)
        } else {
            Err(ReuseError::InitialDownloadFailed)
        },
    }
}

} // verus!
