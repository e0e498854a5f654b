use syrette::dependency_history::DependencyHistory;

const BOLD_MODE: &str = "\x1b[1m";
const RESET_BOLD_MODE: &str = "\x1b[22m";

#[test]
fn can_push() {
    let mut dependency_history = DependencyHistory::new();

    dependency_history.push("dyn subjects::INumber");

    assert!(dependency_history.contains("dyn subjects::INumber"));
}

#[test]
fn contains_works() {
    let mut dependency_history = DependencyHistory::new();

    dependency_history.push("dyn subjects::IUserManager");

    assert!(dependency_history.contains("dyn subjects::IUserManager"));

    assert!(!dependency_history.contains("dyn subjects::INumber"));
}

#[test]
fn display_works() {
    let mut dependency_history = DependencyHistory::new();

    dependency_history.push("dyn Ninja");
    dependency_history.push("dyn Katana");
    dependency_history.push("dyn Blade");

    assert_eq!(
        dependency_history.format(),
        format!("{} -> {} -> {}", "dyn Ninja", "dyn Katana", "dyn Blade")
    );

    dependency_history.push("dyn Katana");

    assert_eq!(
        dependency_history.format(),
        format!(
            "{} -> {bold_mode}{}{reset_bold_mode} -> {} -> {bold_mode}{}{reset_bold_mode} -> ...",
            "dyn Ninja",
            "dyn Katana",
            "dyn Blade",
            "dyn Katana",
            bold_mode = BOLD_MODE,
            reset_bold_mode = RESET_BOLD_MODE
        )
    );
}

#[test]
fn format_of_empty_history_is_empty() {
    let dependency_history = DependencyHistory::new();

    assert_eq!(dependency_history.format(), "");
    assert_eq!(dependency_history.len(), 0);
}

#[test]
fn default_is_empty() {
    let dependency_history = DependencyHistory::default();

    assert_eq!(dependency_history.len(), 0);
    assert!(!dependency_history.contains("anything"));
}

#[test]
fn clone_keeps_entries() {
    let mut dependency_history = DependencyHistory::new();

    dependency_history.push("dyn IArmor");

    let copied = dependency_history.clone();

    assert!(copied.contains("dyn IArmor"));
    assert_eq!(copied.len(), 1);
}
