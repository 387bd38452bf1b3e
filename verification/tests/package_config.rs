use merlon::package_config::{author_string, Config, Package};

fn package(
    name: &str,
    version: &str,
    authors: Vec<String>,
    description: &str,
    license: &str,
    keywords: Vec<String>,
) -> Package {
    Package::new(
        name.to_string(),
        version.to_string(),
        authors,
        description.to_string(),
        license.to_string(),
        keywords,
    )
}

fn valid_package() -> Package {
    package(
        "my-mod",
        "0.1.0",
        vec!["Alice <alice@example.com>".to_string()],
        "A tidy mod",
        "CC-BY-SA-4.0",
        vec!["qol".to_string(), "bugfix".to_string()],
    )
}

#[test]
fn valid_package_has_no_violations() {
    let p = valid_package();
    assert_eq!(p.validate(), Vec::<String>::new());
    assert!(p.is_valid());
}

#[test]
fn name_getter_returns_name() {
    let p = valid_package();
    assert_eq!(p.name(), "my-mod");
    assert_eq!(p.version(), "0.1.0");
}

#[test]
fn camel_case_name_is_rejected_as_kebab() {
    let p = package(
        "HelloWorld",
        "0.1.0",
        vec!["a".to_string()],
        "d",
        "MIT",
        vec![],
    );
    let errors = p.validate();
    assert_eq!(errors, vec!["name must be kebab-case".to_string()]);
    assert!(!p.is_valid());
}

#[test]
fn kebab_name_passes_kebab_check() {
    let p = package(
        "hello-world",
        "0.1.0",
        vec!["a".to_string()],
        "d",
        "MIT",
        vec![],
    );
    assert!(p.is_valid());
}

#[test]
fn underscore_name_fails_kebab_and_alphanumeric() {
    let p = package(
        "Hello_World",
        "0.1.0",
        vec!["a".to_string()],
        "d",
        "MIT",
        vec![],
    );
    let errors = p.validate();
    assert_eq!(
        errors,
        vec![
            "name must be kebab-case".to_string(),
            "name must be alphanumeric".to_string(),
        ]
    );
}

#[test]
fn empty_fields_report_every_violation_in_order() {
    let p = package("", "", vec![], "", "", vec!["evil".to_string()]);
    let errors = p.validate();
    assert_eq!(
        errors,
        vec![
            "name cannot be empty".to_string(),
            "version cannot be empty".to_string(),
            "authors cannot be empty".to_string(),
            "description cannot be empty".to_string(),
            "license cannot be empty".to_string(),
            "invalid keyword: evil (valid keywords: [\"qol\", \"cheat\", \"bugfix\", \"cosmetic\", \"feature\"])"
                .to_string(),
        ]
    );
}

#[test]
fn oversized_description_is_rejected() {
    let long = "x".repeat(101);
    let p = package(
        "my-mod",
        "0.1.0",
        vec!["a".to_string()],
        &long,
        "MIT",
        vec![],
    );
    let errors = p.validate();
    assert_eq!(
        errors,
        vec!["description must be less than 100 characters".to_string()]
    );
}

#[test]
fn hundred_character_description_is_accepted() {
    let exact = "x".repeat(100);
    let p = package(
        "my-mod",
        "0.1.0",
        vec!["a".to_string()],
        &exact,
        "MIT",
        vec![],
    );
    assert!(p.is_valid());
}

#[test]
fn all_fixed_keywords_are_accepted() {
    let p = package(
        "my-mod",
        "0.1.0",
        vec!["a".to_string()],
        "d",
        "MIT",
        vec![
            "qol".to_string(),
            "cheat".to_string(),
            "bugfix".to_string(),
            "cosmetic".to_string(),
            "feature".to_string(),
        ],
    );
    assert!(p.is_valid());
}

#[test]
fn default_for_mod_is_named_after_directory() {
    let c = Config::default_for_mod(
        "/mods/my-mod",
        "Alice <alice@example.com>".to_string(),
        "abc123".to_string(),
    );
    assert_eq!(c.package.name(), "my-mod");
    assert_eq!(c.package.version(), "0.1.0");
    assert_eq!(c.base_commit, "abc123");
    assert!(c.dependencies.is_empty());
    assert!(c.package.is_valid());
}

#[test]
fn author_string_composes_name_and_email() {
    assert_eq!(
        author_string("Alice", "alice@example.com"),
        "Alice <alice@example.com>"
    );
}
