use sandbox_profile::{
    generate_profile, minify_profile, path_outcome, validate_paths, Permissions, ProfileError,
};
use std::path::PathBuf;

fn missing() -> PathBuf {
    PathBuf::from("/path/that/does/not/exist")
}

fn root() -> PathBuf {
    PathBuf::from("/")
}

fn texts(items: &[&str]) -> Vec<String> {
    items.iter().map(|item| item.to_string()).collect()
}

#[test]
fn new_set_is_empty() {
    let permissions = Permissions::new();
    assert!(permissions.allow_read.is_empty());
    assert!(permissions.deny_read.is_empty());
    assert!(permissions.allow_write.is_empty());
    assert!(permissions.deny_write.is_empty());
    assert!(!permissions.allow_net);
    assert!(permissions.allow_run.is_empty());
    assert!(permissions.deny_run.is_empty());
    let permissions = Permissions::default();
    assert!(permissions.allow_read.is_empty());
    assert!(!permissions.allow_net);
}

#[test]
fn validate_paths_gives_the_texts_in_order() {
    let texts = validate_paths(vec![root(), PathBuf::from("/."), root()]);
    assert_eq!(texts, Ok(vec!["/".to_string(), "/.".to_string(), "/".to_string()]));
}

#[test]
fn validate_paths_of_nothing_is_nothing() {
    assert_eq!(validate_paths(Vec::new()), Ok(Vec::new()));
}

#[test]
fn validate_paths_stops_at_the_first_missing_path() {
    let outcome = validate_paths(vec![
        root(),
        PathBuf::from("/missing/first"),
        PathBuf::from("/missing/second"),
    ]);
    assert_eq!(outcome, Err(ProfileError::PathNotFound("/missing/first".to_string())));
}

#[test]
fn path_outcome_follows_what_was_found() {
    assert_eq!(path_outcome(&PathBuf::from("/some/where"), true), Ok("/some/where".to_string()));
    assert_eq!(
        path_outcome(&PathBuf::from("/some/where"), false),
        Err(ProfileError::PathNotFound("/some/where".to_string()))
    );
    assert_eq!(
        path_outcome(&root(), false),
        Err(ProfileError::PathNotFound("/".to_string()))
    );
}

#[test]
fn error_names_the_path() {
    let error = Permissions::new().allow_read(vec![missing()]).unwrap_err();
    assert_eq!(error, ProfileError::PathNotFound("/path/that/does/not/exist".to_string()));
    assert_eq!(error.path(), "/path/that/does/not/exist");
    assert_eq!(error.message(), "Path does not exist: /path/that/does/not/exist");
}

#[test]
fn missing_path_leaves_the_set_as_it_was() {
    let mut permissions = Permissions::new();
    permissions.allow_read = texts(&["/r"]);
    permissions.deny_read = texts(&["/dr"]);
    permissions.allow_write = texts(&["/w"]);
    permissions.deny_write = texts(&["/dw"]);
    permissions.allow_net();
    permissions.allow_run(texts(&["python"]));

    assert!(permissions.allow_read(vec![root(), missing()]).is_err());
    assert!(permissions.deny_read(vec![missing()]).is_err());
    assert!(permissions.allow_write(vec![missing(), root()]).is_err());
    assert!(permissions.deny_write(vec![root(), root(), missing()]).is_err());

    assert_eq!(permissions.allow_read, texts(&["/r"]));
    assert_eq!(permissions.deny_read, texts(&["/dr"]));
    assert_eq!(permissions.allow_write, texts(&["/w"]));
    assert_eq!(permissions.deny_write, texts(&["/dw"]));
    assert!(permissions.allow_net);
    assert_eq!(permissions.allow_run, texts(&["python"]));
    assert!(permissions.deny_run.is_empty());
}

#[test]
fn setters_replace_the_list() {
    let mut permissions = Permissions::new();
    assert_eq!(permissions.allow_read(vec![root(), PathBuf::from("/.")]), Ok(()));
    assert_eq!(permissions.allow_read, texts(&["/", "/."]));
    assert_eq!(permissions.allow_read(vec![root()]), Ok(()));
    assert_eq!(permissions.allow_read, texts(&["/"]));
    assert_eq!(permissions.allow_read(Vec::new()), Ok(()));
    assert!(permissions.allow_read.is_empty());

    assert_eq!(permissions.deny_read(vec![root()]), Ok(()));
    assert_eq!(permissions.allow_write(vec![PathBuf::from("/.")]), Ok(()));
    assert_eq!(permissions.deny_write(vec![PathBuf::from("/..")]), Ok(()));
    assert_eq!(permissions.deny_read, texts(&["/"]));
    assert_eq!(permissions.allow_write, texts(&["/."]));
    assert_eq!(permissions.deny_write, texts(&["/.."]));
    assert!(permissions.allow_read.is_empty());

    permissions.allow_run(texts(&["a", "b"]));
    permissions.allow_run(texts(&["c"]));
    permissions.deny_run(texts(&["d"]));
    permissions.deny_run(texts(&["e", "f"]));
    assert_eq!(permissions.allow_run, texts(&["c"]));
    assert_eq!(permissions.deny_run, texts(&["e", "f"]));
    assert!(!permissions.allow_net);
    permissions.allow_net();
    assert!(permissions.allow_net);
}

#[test]
fn programs_are_not_looked_up() {
    let mut permissions = Permissions::new();
    permissions.allow_run(texts(&["/path/that/does/not/exist", "*"]));
    assert_eq!(permissions.allow_run, texts(&["/path/that/does/not/exist", "*"]));
}

#[test]
fn empty_set_gives_the_template() {
    let template = "(version 1)\n(deny default)\n";
    assert_eq!(generate_profile(template, &Permissions::new()), Ok(template.to_string()));
    assert_eq!(generate_profile("", &Permissions::new()), Ok(String::new()));
    assert_eq!(generate_profile("no line feed", &Permissions::new()), Ok("no line feed".to_string()));
}

#[test]
fn profile_holds_what_was_asked_for() {
    let mut permissions = Permissions::new();
    permissions.allow_read = texts(&["/tmp/a"]);
    permissions.deny_write = texts(&["/tmp/b"]);
    permissions.allow_net();
    permissions.allow_run(texts(&["python"]));

    let profile = generate_profile("(version 1)\n(deny default)\n", &permissions).unwrap();

    assert!(profile.contains("(allow file-read*)"));
    assert!(profile.contains("(subpath \"/tmp/a\")"));
    assert!(profile.contains("(deny file-write* (subpath \"/tmp/b\"))"));
    assert!(profile.contains("(allow network*)"));
    assert!(profile.contains("(allow process-exec"));
    assert!(profile.contains("(literal \"python\")"));
    assert!(!profile.contains("(allow file-write*"));
    assert!(!profile.contains("(deny file-read*"));
    assert_eq!(
        profile,
        "(version 1)\n(deny default)\n\
         (allow file-read*)\n    (subpath \"/tmp/a\")\n)\n\
         (deny file-write* (subpath \"/tmp/b\"))\n\
         (allow network*)\n\
         (allow process-exec\n    (literal \"python\")\n)\n"
    );
}

#[test]
fn profile_has_the_categories_in_order() {
    let mut permissions = Permissions::new();
    assert_eq!(permissions.allow_read(vec![root()]), Ok(()));
    assert_eq!(permissions.deny_read(vec![PathBuf::from("/.")]), Ok(()));
    assert_eq!(permissions.allow_write(vec![root()]), Ok(()));
    assert_eq!(permissions.deny_write(vec![PathBuf::from("/.")]), Ok(()));
    permissions.allow_net();
    permissions.allow_run(texts(&["jupyter"]));
    permissions.deny_run(texts(&["bash"]));

    let profile = generate_profile("(version 1)\n(deny default)\n", &permissions).unwrap();

    assert_eq!(
        profile,
        "(version 1)\n(deny default)\n\
         (deny file-read* (subpath \"/.\"))\n\
         (allow file-read*)\n    (subpath \"/\")\n)\n\
         (deny file-write* (subpath \"/.\"))\n\
         (allow file-write*)\n    (subpath \"/\")\n)\n\
         (allow network*)\n\
         (deny process-exec (literal \"bash\"))\n\
         (allow process-exec\n    (literal \"jupyter\")\n)\n"
    );
}

#[test]
fn profile_is_the_same_each_time() {
    let mut permissions = Permissions::new();
    permissions.allow_read = texts(&["/tmp/a", "/tmp/c"]);
    permissions.deny_run = texts(&["bash"]);
    let first = generate_profile("(version 1)\n", &permissions);
    let second = generate_profile("(version 1)\n", &permissions.clone());
    assert_eq!(first, second);
}

#[test]
fn template_is_taken_as_it_is() {
    let mut permissions = Permissions::new();
    permissions.allow_net();
    assert_eq!(
        generate_profile("(((", &permissions),
        Ok("((((allow network*)\n".to_string())
    );
}

#[test]
fn minified_profile_is_one_line() {
    let mut permissions = Permissions::new();
    permissions.allow_read = texts(&["/tmp/a"]);
    permissions.deny_read = texts(&["/tmp/b"]);
    permissions.allow_net();
    permissions.allow_run(texts(&["python"]));
    let profile = generate_profile("; baseline\n(version 1)\n(deny default)\n", &permissions).unwrap();
    assert_eq!(
        minify_profile(&profile),
        "(version 1) (deny default) (deny file-read* (subpath \"/tmp/b\")) (allow file-read*) \
         (subpath \"/tmp/a\") ) (allow network*) (allow process-exec (literal \"python\") )"
    );
}

#[test]
fn semicolon_in_a_name_is_cut_by_minify() {
    let mut permissions = Permissions::new();
    permissions.allow_run(texts(&["py;thon"]));
    let profile = generate_profile("(version 1)\n", &permissions).unwrap();
    assert_eq!(profile, "(version 1)\n(allow process-exec\n    (literal \"py;thon\")\n)\n");
    assert_eq!(minify_profile(&profile), "(version 1) (allow process-exec (literal \"py )");
}
