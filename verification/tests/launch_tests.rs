//! Invocation identity, exit-code passthrough, the installer's per-alias
//! decisions, and the end-to-end resolution scenario.
use javabox::config::JavaboxConfig;
use javabox::launch::{
    aliases, base_name, exit_outcome, install_action, tool_for_alias, uninstall_action,
    DelegateError, InstallAction, ToolKind, UninstallAction,
};
use javabox::locator::{module_index, project_index, scan_ancestors, DirMarks};
use javabox::props::parse_properties;
use javabox::resolve::gradle_url_from_wrapper;

#[test]
fn alias_table() {
    assert_eq!(Some(ToolKind::Maven), tool_for_alias("mvn"));
    assert_eq!(Some(ToolKind::Maven), tool_for_alias("mvnw"));
    assert_eq!(Some(ToolKind::Gradle), tool_for_alias("gradle"));
    assert_eq!(Some(ToolKind::Gradle), tool_for_alias("gradlew"));
    assert_eq!(Some(ToolKind::Javabox), tool_for_alias("javabox"));
    assert_eq!(Some(ToolKind::Javabox), tool_for_alias("javabox.exe"));
    assert_eq!(None, tool_for_alias("ant"));
}

#[test]
fn base_name_strips_directories() {
    assert_eq!("mvn", base_name("/usr/local/bin/mvn"));
    assert_eq!("gradlew", base_name("gradlew"));
    assert_eq!("", base_name("/usr/bin/"));
    assert_eq!("javabox.exe", base_name("C:\\tools\\javabox.exe"));
    assert_eq!("mvn", base_name("C:\\tools/bin\\mvn"));
}

#[test]
fn managed_aliases() {
    let a = aliases();
    assert_eq!(vec!["mvn", "mvnw", "gradle", "gradlew", "javabox"], a);
}

#[test]
fn exit_code_passthrough() {
    assert_eq!(Ok(0), exit_outcome(Some(0)));
    assert_eq!(Ok(42), exit_outcome(Some(42)));
    assert_eq!(Err(DelegateError::Interrupted), exit_outcome(None));
}

#[test]
fn install_decisions() {
    assert_eq!(InstallAction::Create, install_action(false, false, false));
    assert_eq!(InstallAction::SkipSelf, install_action(true, true, false));
    assert_eq!(InstallAction::SkipExisting, install_action(true, false, false));
    assert_eq!(InstallAction::Replace, install_action(true, false, true));
}

#[test]
fn uninstall_decisions() {
    assert_eq!(UninstallAction::SkipMissing, uninstall_action(false, false, false, false));
    assert_eq!(UninstallAction::SkipSelf, uninstall_action(true, true, false, false));
    assert_eq!(UninstallAction::SkipNotSymlink, uninstall_action(true, false, false, false));
    assert_eq!(UninstallAction::SkipForeign, uninstall_action(true, false, true, false));
    assert_eq!(UninstallAction::Remove, uninstall_action(true, false, true, true));
}

#[test]
fn config_persistence_gate() {
    let empty = JavaboxConfig::default();
    assert!(!empty.wants_persisting());
    assert_eq!("javabox.toml", JavaboxConfig::file_name());
}

#[test]
fn end_to_end_resolution_scenario() {
    // a tree with a module descriptor in the working directory, a wrapper
    // with properties one level up, and the user home above that
    let module = DirMarks {
        has_module_descriptor: true,
        has_wrapper_marker: false,
        is_repo_root: false,
        is_user_home: false,
    };
    let wrapper = DirMarks {
        has_module_descriptor: false,
        has_wrapper_marker: true,
        is_repo_root: true,
        is_user_home: false,
    };
    let home = DirMarks {
        has_module_descriptor: false,
        has_wrapper_marker: false,
        is_repo_root: false,
        is_user_home: true,
    };
    let marks = vec![module, wrapper, home];
    let st = scan_ancestors(&marks);
    assert_eq!(0, module_index(&st));
    assert_eq!(1, project_index(&st));
    let url = "https://services.gradle.org/distributions/gradle-7.2-all.zip";
    let props = parse_properties(&format!("distributionUrl={}\n", url.replace(":", "\\:")));
    let resolved = gradle_url_from_wrapper(st.wrapper.is_some(), &props);
    assert_eq!(Some(url.to_string()), resolved);
}
