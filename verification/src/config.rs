//! The per-project configuration: which tool versions a project pins.
use vstd::prelude::*;

verus! {

/// The Java runtime a project asks for.
pub struct JavaConfig {
    /// The requested Java version.
    pub version: String,
}

/// The Maven distribution a project resolves to.
pub struct MavenConfig {
    /// The Maven version.
    pub version: String,
    /// The distribution archive URL.
    pub download_url: String,
}

/// The Gradle distribution a project resolves to.
pub struct GradleConfig {
    /// The Gradle version.
    pub version: String,
}

/// The whole per-project configuration, one optional section per tool.
pub struct JavaboxConfig {
    /// The Java section.
    pub java: Option<JavaConfig>,
    /// The Maven section.
    pub maven: Option<MavenConfig>,
    /// The Gradle section.
    pub gradle: Option<GradleConfig>,
}

impl Default for JavaboxConfig {
    /// An empty configuration: no tool section at all.
    fn default() -> (r: Self)
        ensures
            r.java is None,
            r.maven is None,
            r.gradle is None,
    {
        JavaboxConfig { java: None, maven: None, gradle: None }
    }
}

impl JavaboxConfig {
    /// The file name the configuration is kept under in a project directory.
    pub fn file_name() -> (s: &'static str)
        ensures
            s@ == "javabox.toml"@,
    {
        "javabox.toml"
    }

    /// Whether the configuration is worth persisting: without a Java section
    /// no build tool was detected and nothing is saved.
    pub fn wants_persisting(&self) -> (r: bool)
        ensures
            r == (self.java is Some),
    {
        match &self.java {
            Some(_) => true,
            None => false,
        }
    }
}

} // verus!
