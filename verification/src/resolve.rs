//! Version resolution: the wrapper-declared distribution URL first, else the
//! network "latest version" feeds, and the URL template for Maven releases.
use vstd::prelude::*;

verus! {

use vstd::pervasive::unreached;
use vstd::string::{StrSliceExecFns, StringExecFns};
use crate::config::{JavaboxConfig, JavaConfig, MavenConfig};
use crate::props::{lookup, Properties};
use crate::text::{find_char_range, find_sub, first_index, first_match, lemma_first_match, range_to_string, starts_with, str_chars, subvec};

/// The official Maven distribution directory, one version per subdirectory.
pub fn apache_maven_dist_url_base() -> (s: &'static str)
    ensures
        s@ == "https://repo.maven.apache.org/maven2/org/apache/maven/apache-maven"@,
{
    "https://repo.maven.apache.org/maven2/org/apache/maven/apache-maven"
}

/// The Maven repository metadata document naming the latest release.
pub fn apache_maven_metadata_url() -> (s: &'static str)
    ensures
        s@
            == "https://repo.maven.apache.org/maven2/org/apache/maven/apache-maven/maven-metadata.xml"@,
{
    "https://repo.maven.apache.org/maven2/org/apache/maven/apache-maven/maven-metadata.xml"
}

/// The official Gradle distribution host prefix.
pub fn gradle_dist_url_base() -> (s: &'static str)
    ensures
        s@ == "https://services.gradle.org/distributions"@,
{
    "https://services.gradle.org/distributions"
}

/// The Gradle "current version" JSON feed.
pub fn gradle_current_version_url() -> (s: &'static str)
    ensures
        s@ == "https://services.gradle.org/versions/current"@,
{
    "https://services.gradle.org/versions/current"
}

/// The version segment of a wrapper-declared Maven distribution URL: what
/// stands between the official base prefix plus `/` and the next `/`.
/// A URL too short to hold the prefix yields nothing.
pub open spec fn wrapper_version_spec(entries: Seq<(Seq<char>, Seq<char>)>) -> Option<Seq<char>> {
    match lookup(entries, "distributionUrl"@) {
        None => None,
        Some(d) => {
            let k = "https://repo.maven.apache.org/maven2/org/apache/maven/apache-maven"@.len()
                + 1;
            if d.len() < k {
                None
            } else {
                Some(d.skip(k as int).take(first_index(d.skip(k as int), '/')))
            }
        },
    }
}

/// The Maven version a wrapper properties file declares, read from the
/// version segment of its `distributionUrl`.
pub fn maven_version_from_wrapper(props: &Properties) -> (r: Option<String>)
    ensures
        r matches Some(v) ==> wrapper_version_spec(props.entries()) == Some(v@),
        r is None ==> wrapper_version_spec(props.entries()) is None,
{
    let dist = match props.get("distributionUrl") {
        None => {
            return None;
        },
        Some(d) => d,
    };
    let chars = str_chars(dist.as_str());
    let n = chars.len();
    let base_len = apache_maven_dist_url_base().unicode_len();
    if n <= base_len {
        return None;
    }
    let start = base_len + 1;
    let e = find_char_range(&chars, '/', start, n);
    let v = range_to_string(&chars, start, e);
    proof {
        assert(chars@.subrange(start as int, n as int) =~= dist@.skip(start as int));
        assert(chars@.subrange(start as int, e as int) =~= dist@.skip(start as int).take(
            e - start,
        ));
    }
    Some(v)
}

/// Whether a wrapper-declared URL lies outside the official distribution
/// host: suspicious, reported with a warning, but never blocking.
pub fn url_is_suspicious(url: &str, base: &str) -> (r: bool)
    ensures
        r == !base@.is_prefix_of(url@),
{
    !starts_with(url, base)
}

/// The Maven distribution URL for a version, built from the official
/// base: `<base>/<v>/apache-maven-<v>-bin.zip`.
pub open spec fn maven_download_url_spec(v: Seq<char>) -> Seq<char> {
    "https://repo.maven.apache.org/maven2/org/apache/maven/apache-maven"@ + "/"@ + v
        + "/apache-maven-"@ + v + "-bin.zip"@
}

/// Builds the distribution URL for a Maven version.
pub fn maven_download_url(version: &str) -> (r: String)
    ensures
        r@ == maven_download_url_spec(version@),
{
    let mut r = String::from_str(apache_maven_dist_url_base());
    r.append("/");
    r.append(version);
    r.append("/apache-maven-");
    r.append(version);
    r.append("-bin.zip");
    r
}

/// The text between the first `open` and the next `close` after it, if both
/// are present.
pub open spec fn extract_between(s: Seq<char>, open: Seq<char>, close: Seq<char>) -> Option<
    Seq<char>,
> {
    match first_match(s, open) {
        None => None,
        Some(i) => {
            let rest = s.skip(i + open.len());
            match first_match(rest, close) {
                None => None,
                Some(j) => Some(rest.take(j)),
            }
        },
    }
}

/// The latest release named by a Maven repository metadata document: the
/// text of its first `<latest>` element.
pub fn find_latest_maven_version(metadata_xml: &str) -> (r: Option<String>)
    ensures
        r matches Some(v) ==> extract_between(metadata_xml@, "<latest>"@, "</latest>"@) == Some(
            v@,
        ),
        r is None ==> extract_between(metadata_xml@, "<latest>"@, "</latest>"@) is None,
{
    let chars = str_chars(metadata_xml);
    let n = chars.len();
    let open_pat = str_chars("<latest>");
    let close_pat = str_chars("</latest>");
    let i = match find_sub(&chars, &open_pat) {
        None => {
            return None;
        },
        Some(i) => i,
    };
    proof {
        lemma_first_match(metadata_xml@, "<latest>"@);
    }
    let start = i + open_pat.len();
    let rest = subvec(&chars, start, n);
    proof {
        assert(rest@ =~= metadata_xml@.skip(start as int));
    }
    let j = match find_sub(&rest, &close_pat) {
        None => {
            return None;
        },
        Some(j) => j,
    };
    proof {
        lemma_first_match(rest@, "</latest>"@);
    }
    let v = range_to_string(&rest, 0, j);
    proof {
        assert(rest@.subrange(0, j as int) =~= rest@.take(j as int));
    }
    Some(v)
}

/// The `downloadUrl` string of the Gradle "current version" JSON document:
/// the first quoted string after the colon that follows the first
/// `"downloadUrl"` key.
pub open spec fn json_download_url_spec(s: Seq<char>) -> Option<Seq<char>> {
    match first_match(s, "\"downloadUrl\""@) {
        None => None,
        Some(i) => {
            let rest = s.skip(i + "\"downloadUrl\""@.len());
            let c = first_index(rest, ':');
            if c == rest.len() {
                None
            } else {
                let after = rest.skip(c + 1);
                let q1 = first_index(after, '"');
                if q1 == after.len() {
                    None
                } else {
                    let val = after.skip(q1 + 1);
                    let q2 = first_index(val, '"');
                    if q2 == val.len() {
                        None
                    } else {
                        Some(val.take(q2))
                    }
                }
            }
        },
    }
}

/// Reads the `downloadUrl` value out of the Gradle "current version" feed.
pub fn gradle_download_url_from_json(json: &str) -> (r: Option<String>)
    ensures
        r matches Some(v) ==> json_download_url_spec(json@) == Some(v@),
        r is None ==> json_download_url_spec(json@) is None,
{
    let chars = str_chars(json);
    let n = chars.len();
    let key_pat = str_chars("\"downloadUrl\"");
    let i = match find_sub(&chars, &key_pat) {
        None => {
            return None;
        },
        Some(i) => i,
    };
    proof {
        lemma_first_match(json@, "\"downloadUrl\""@);
    }
    let after_key = i + key_pat.len();
    let ghost rest = json@.skip(after_key as int);
    proof {
        assert(chars@.subrange(after_key as int, n as int) =~= rest);
    }
    let c = find_char_range(&chars, ':', after_key, n);
    if c == n {
        return None;
    }
    let ghost after = rest.skip(c - after_key + 1);
    proof {
        assert(chars@.subrange(c + 1, n as int) =~= after);
    }
    let q1 = find_char_range(&chars, '"', c + 1, n);
    if q1 == n {
        return None;
    }
    let ghost val = after.skip(q1 - (c + 1) + 1);
    proof {
        assert(chars@.subrange(q1 + 1, n as int) =~= val);
    }
    let q2 = find_char_range(&chars, '"', q1 + 1, n);
    if q2 == n {
        return None;
    }
    let v = range_to_string(&chars, q1 + 1, q2);
    proof {
        assert(chars@.subrange(q1 + 1, q2 as int) =~= val.take(q2 - (q1 + 1)));
    }
    Some(v)
}

/// The wrapper-declared Gradle distribution URL, if the scan found a wrapper
/// and its properties name one. The URL is used verbatim.
pub fn gradle_url_from_wrapper(wrapper_found: bool, props: &Properties) -> (r: Option<String>)
    ensures
        !wrapper_found ==> r is None,
        wrapper_found ==> match lookup(props.entries(), "distributionUrl"@) {
            Some(u) => r matches Some(v) && v@ == u,
            None => r is None,
        },
{
    if !wrapper_found {
        return None;
    }
    match props.get("distributionUrl") {
        None => None,
        Some(u) => Some(String::from_str(u.as_str())),
    }
}

/// Why no Gradle distribution URL can be resolved.
#[derive(Debug, PartialEq, Eq, Structural)]
pub enum GradleResolveError {
    /// No wrapper-declared URL and no feed to fall back on.
    NoVersionSource,
    /// The version feed holds no download URL.
    BadFeed,
}

/// Resolves the Gradle distribution URL: a wrapper-declared URL wins
/// verbatim; otherwise the `downloadUrl` of the "current version" feed,
/// whose text `latest_feed` carries when it was fetched.
pub fn resolve_gradle_distribution(
    wrapper_found: bool,
    props: &Properties,
    latest_feed: Option<&String>,
) -> (r: Result<String, GradleResolveError>)
    ensures
        ({
            let declared = if wrapper_found {
                lookup(props.entries(), "distributionUrl"@)
            } else {
                None
            };
            match declared {
                Some(u) => (r matches Ok(v) && v@ == u),
                None => match latest_feed {
                    Some(feed) => match json_download_url_spec(feed@) {
                        Some(u) => (r matches Ok(v) && v@ == u),
                        None => r == Err::<String, GradleResolveError>(GradleResolveError::BadFeed),
                    },
                    None => r == Err::<String, GradleResolveError>(
                        GradleResolveError::NoVersionSource,
                    ),
                },
            }
        }),
{
    match gradle_url_from_wrapper(wrapper_found, props) {
        Some(u) => Ok(u),
        None => match latest_feed {
            Some(feed) => match gradle_download_url_from_json(feed.as_str()) {
                Some(u) => Ok(u),
                None => Err(GradleResolveError::BadFeed),
            },
            None => Err(GradleResolveError::NoVersionSource),
        },
    }
}

/// Why no configuration can be inferred for a directory.
#[derive(Debug, PartialEq, Eq, Structural)]
pub enum InferError {
    /// The directory holds no module descriptor.
    NoModuleDescriptor,
    /// Neither the wrapper properties nor the latest-version lookup yields a
    /// version.
    NoVersionSource,
}

/// Infers a project configuration for a Maven module: the wrapper-declared
/// distribution wins, else the latest release; the Java version defaults
/// to 1.8. `latest_version` carries the network lookup's answer, if any.
pub fn infer_config(has_pom: bool, props: &Properties, latest_version: Option<&String>) -> (r:
    Result<JavaboxConfig, InferError>)
    ensures
        !has_pom ==> r == Err::<JavaboxConfig, InferError>(InferError::NoModuleDescriptor),
        has_pom ==> match wrapper_version_spec(props.entries()) {
            Some(wv) => (r matches Ok(c) && c.gradle is None && (c.java matches Some(j)
                && j.version@ == "1.8"@) && (c.maven matches Some(m) && m.version@ == wv && Some(
                m.download_url@,
            ) == lookup(props.entries(), "distributionUrl"@))),
            None => match latest_version {
                Some(lv) => (r matches Ok(c) && c.gradle is None && (c.java matches Some(j)
                    && j.version@ == "1.8"@) && (c.maven matches Some(m) && m.version@ == lv@
                    && m.download_url@ == maven_download_url_spec(lv@))),
                None => r == Err::<JavaboxConfig, InferError>(InferError::NoVersionSource),
            },
        },
{
    if !has_pom {
        return Err(InferError::NoModuleDescriptor);
    }
    let maven = match maven_version_from_wrapper(props) {
        Some(version) => {
            let url = match props.get("distributionUrl") {
                Some(u) => String::from_str(u.as_str()),
                None => unreached(),
            };
            MavenConfig { version, download_url: url }
        },
        None => match latest_version {
            Some(lv) => MavenConfig {
                version: String::from_str(lv.as_str()),
                download_url: maven_download_url(lv.as_str()),
            },
            None => {
                return Err(InferError::NoVersionSource);
            },
        },
    };
    let java = JavaConfig { version: String::from_str("1.8") };
    Ok(JavaboxConfig { java: Some(java), maven: Some(maven), gradle: None })
}

} // verus!
