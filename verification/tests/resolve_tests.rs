//! Version resolution: wrapper-declared URLs, the Maven URL template, the
//! latest-version feeds, and configuration inference.
use javabox::props::{parse_properties, Properties};
use javabox::resolve::{
    find_latest_maven_version, gradle_download_url_from_json, gradle_url_from_wrapper,
    infer_config, maven_download_url, maven_version_from_wrapper, resolve_gradle_distribution,
    url_is_suspicious, GradleResolveError, InferError,
};

const MAVEN_URL: &str =
    "https://repo.maven.apache.org/maven2/org/apache/maven/apache-maven/3.8.6/apache-maven-3.8.6-bin.zip";
const GRADLE_URL: &str = "https://services.gradle.org/distributions/gradle-7.2-all.zip";

fn wrapper_props(url: &str) -> Properties {
    parse_properties(&format!("distributionUrl={}\n", url.replace(":", "\\:")))
}

#[test]
fn wrapper_version_is_the_path_segment() {
    let p = wrapper_props(MAVEN_URL);
    assert_eq!(Some(MAVEN_URL.to_string()), p.get("distributionUrl").cloned());
    assert_eq!(Some("3.8.6".to_string()), maven_version_from_wrapper(&p));
}

#[test]
fn wrapper_version_absent_without_key_or_short_url() {
    assert_eq!(None, maven_version_from_wrapper(&parse_properties("other=x")));
    assert_eq!(
        None,
        maven_version_from_wrapper(&parse_properties("distributionUrl=short"))
    );
}

#[test]
fn maven_url_template() {
    assert_eq!(MAVEN_URL, maven_download_url("3.8.6"));
}

#[test]
fn latest_version_from_metadata_xml() {
    let xml = "<metadata><versioning><latest>3.9.6</latest><release>3.9.6</release></versioning></metadata>";
    assert_eq!(Some("3.9.6".to_string()), find_latest_maven_version(xml));
    assert_eq!(None, find_latest_maven_version("<metadata></metadata>"));
    assert_eq!(None, find_latest_maven_version("<latest>unclosed"));
}

#[test]
fn download_url_from_current_json() {
    let json = format!(
        "{{\"version\":\"7.2\",\"current\":true,\"downloadUrl\":\"{}\",\"checksumUrl\":\"c\"}}",
        GRADLE_URL
    );
    assert_eq!(Some(GRADLE_URL.to_string()), gradle_download_url_from_json(&json));
    assert_eq!(None, gradle_download_url_from_json("{\"version\":\"7.2\"}"));
}

#[test]
fn wrapper_url_is_verbatim_and_needs_a_wrapper() {
    let p = wrapper_props(GRADLE_URL);
    assert_eq!(Some(GRADLE_URL.to_string()), gradle_url_from_wrapper(true, &p));
    assert_eq!(None, gradle_url_from_wrapper(false, &p));
    assert_eq!(None, gradle_url_from_wrapper(true, &parse_properties("")));
}

#[test]
fn gradle_resolution_prefers_wrapper_then_feed() {
    let p = wrapper_props(GRADLE_URL);
    let feed = format!("{{\"downloadUrl\":\"{}\"}}", "https://services.gradle.org/distributions/gradle-8.0-bin.zip");
    assert_eq!(
        Ok(GRADLE_URL.to_string()),
        resolve_gradle_distribution(true, &p, Some(&feed))
    );
    assert_eq!(
        Ok("https://services.gradle.org/distributions/gradle-8.0-bin.zip".to_string()),
        resolve_gradle_distribution(false, &p, Some(&feed))
    );
    assert_eq!(
        Err(GradleResolveError::BadFeed),
        resolve_gradle_distribution(false, &p, Some(&"{}".to_string()))
    );
    assert_eq!(
        Err(GradleResolveError::NoVersionSource),
        resolve_gradle_distribution(false, &p, None)
    );
}

#[test]
fn suspicious_url_detection() {
    let base = "https://services.gradle.org/distributions";
    assert!(!url_is_suspicious(GRADLE_URL, base));
    assert!(url_is_suspicious("https://evil.example/gradle.zip", base));
}

#[test]
fn infer_prefers_wrapper_over_latest() {
    let p = wrapper_props(MAVEN_URL);
    let latest = "3.9.9".to_string();
    let c = infer_config(true, &p, Some(&latest)).unwrap();
    let maven = c.maven.unwrap();
    assert_eq!("3.8.6", maven.version);
    assert_eq!(MAVEN_URL, maven.download_url);
    assert_eq!("1.8", c.java.unwrap().version);
    assert!(c.gradle.is_none());
}

#[test]
fn infer_falls_back_to_latest() {
    let latest = "3.9.9".to_string();
    let c = infer_config(true, &parse_properties(""), Some(&latest)).unwrap();
    let maven = c.maven.unwrap();
    assert_eq!("3.9.9", maven.version);
    assert_eq!(maven_download_url("3.9.9"), maven.download_url);
}

#[test]
fn infer_error_cases() {
    assert_eq!(
        Err(InferError::NoModuleDescriptor),
        infer_config(false, &parse_properties(""), None).map(|_| ())
    );
    assert_eq!(
        Err(InferError::NoVersionSource),
        infer_config(true, &parse_properties(""), None).map(|_| ())
    );
}
