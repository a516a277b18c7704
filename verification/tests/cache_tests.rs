//! The cache manager's decisions: bucket naming, the hit/download/extract
//! plan, download atomicity, and the reuse-unless-stale policy.
use javabox::cache::{
    cache_plan, download_precheck, gradle_cache_layout, maven_cache_layout, reuse_outcome,
    reuse_plan, temp_download_path, CacheKeyError, CachePlan, DownloadError, ReuseError,
    ReuseOutcome, ReusePlan,
};
use javabox::uri::parse_url;

const MAVEN_URL: &str =
    "https://repo.maven.apache.org/maven2/org/apache/maven/apache-maven/3.8.6/apache-maven-3.8.6-bin.zip";
const GRADLE_URL: &str = "https://services.gradle.org/distributions/gradle-7.2-all.zip";

#[test]
fn maven_bucket_matches_official_wrapper_layout() {
    let u = parse_url(MAVEN_URL).unwrap();
    let l = maven_cache_layout(&u).unwrap();
    assert_eq!("apache-maven-3.8.6-bin.zip", l.archive_name);
    assert_eq!(".m2/wrapper/dists/apache-maven-3.8.6-bin/67568434", l.base_dir);
    assert_eq!(
        ".m2/wrapper/dists/apache-maven-3.8.6-bin/67568434/apache-maven-3.8.6",
        l.home_dir
    );
}

#[test]
fn gradle_bucket_matches_official_wrapper_layout() {
    let u = parse_url(GRADLE_URL).unwrap();
    let l = gradle_cache_layout(&u).unwrap();
    assert_eq!("gradle-7.2-all.zip", l.archive_name);
    assert_eq!(
        ".gradle/wrapper/dists/gradle-7.2-all/260hg96vuh6ex27h9vo47iv4d",
        l.base_dir
    );
    assert_eq!(
        ".gradle/wrapper/dists/gradle-7.2-all/260hg96vuh6ex27h9vo47iv4d/gradle-7.2-all",
        l.home_dir
    );
}

#[test]
fn bucket_needs_an_archive_name() {
    let mut u = parse_url(GRADLE_URL).unwrap();
    u.path = "nopath".to_string();
    assert_eq!(Err(CacheKeyError::NoArchiveName), gradle_cache_layout(&u).map(|_| ()));
}

#[test]
fn bucket_needs_a_supported_uri_hash() {
    let opaque = javabox::uri::UriParts {
        scheme: "mailto".to_string(),
        host: None,
        port: None,
        path: "a/b.zip".to_string(),
        query: None,
        fragment: None,
        full: "mailto:a/b.zip".to_string(),
    };
    assert_eq!(
        Err(CacheKeyError::UnsupportedUri(javabox::uri::UriHashError::OpaqueScheme)),
        maven_cache_layout(&opaque).map(|_| ())
    );
}

#[test]
fn cache_plan_cases() {
    assert_eq!(CachePlan::UseExisting, cache_plan(true, false));
    assert_eq!(CachePlan::UseExisting, cache_plan(true, true));
    assert_eq!(CachePlan::ExtractOnly, cache_plan(false, true));
    assert_eq!(CachePlan::DownloadAndExtract, cache_plan(false, false));
}

#[test]
fn temp_path_never_hits_the_destination() {
    let dest = "/home/u/.m2/wrapper/dists/a/1/a.zip";
    let fresh = temp_download_path(dest, false, 0);
    assert_eq!(format!("{dest}.new"), fresh);
    let update = temp_download_path(dest, true, 1700000000);
    assert_eq!(format!("{dest}.upd.1700000000"), update);
    let no_mtime = temp_download_path(dest, true, 0);
    assert_eq!(format!("{dest}.upd"), no_mtime);
    assert_ne!(dest, fresh);
    assert_ne!(dest, update);
    assert_ne!(dest, no_mtime);
}

#[test]
fn precheck_aborts_before_any_write() {
    assert_eq!(Err(DownloadError::HttpStatus), download_precheck(404, Some(10)));
    assert_eq!(Err(DownloadError::NoContentLength), download_precheck(200, None));
    assert_eq!(Ok(10), download_precheck(200, Some(10)));
}

#[test]
fn fresh_file_is_reused_without_any_fetch() {
    let day = 24 * 3600;
    assert_eq!(ReusePlan::UseExisting, reuse_plan(true, Some(100), day));
    assert_eq!(ReusePlan::UseExisting, reuse_plan(true, Some(day), day));
}

#[test]
fn stale_file_gets_one_attempt_and_survives_failure() {
    let day = 24 * 3600;
    let plan = reuse_plan(true, Some(day + 1), day);
    assert_eq!(ReusePlan::RefreshThenFallback, plan);
    assert_eq!(Ok(ReuseOutcome::KeptExisting), reuse_outcome(&plan, false));
    assert_eq!(Ok(ReuseOutcome::Refreshed), reuse_outcome(&plan, true));
    // an unreadable age counts as stale
    assert_eq!(ReusePlan::RefreshThenFallback, reuse_plan(true, None, day));
}

#[test]
fn absent_file_must_download() {
    let plan = reuse_plan(false, None, 60);
    assert_eq!(ReusePlan::MustDownload, plan);
    assert_eq!(Ok(ReuseOutcome::Refreshed), reuse_outcome(&plan, true));
    assert_eq!(Err(ReuseError::InitialDownloadFailed), reuse_outcome(&plan, false));
}
