use pg_migration_lint::paths::without_curdir_components;

#[test]
fn strips_a_leading_dot_slash() {
    assert_eq!(without_curdir_components("./db/001.sql"), "db/001.sql");
}

#[test]
fn leaves_a_plain_relative_path_alone() {
    assert_eq!(without_curdir_components("db/001.sql"), "db/001.sql");
}

#[test]
fn leaves_an_absolute_path_absolute() {
    assert_eq!(without_curdir_components("/repo/db/001.sql"), "/repo/db/001.sql");
}

#[test]
fn of_a_bare_dot_stays_a_dot() {
    assert_eq!(without_curdir_components("."), ".");
}

#[test]
fn of_a_bare_filename_with_no_prefix_is_unchanged() {
    assert_eq!(without_curdir_components("foo.sql"), "foo.sql");
}

#[test]
fn keeps_parent_components() {
    assert_eq!(without_curdir_components("./../x/./y.sql"), "../x/y.sql");
}

#[test]
fn spellings_differing_by_dot_components_agree() {
    assert_eq!(without_curdir_components("./db/001.sql"), without_curdir_components("db/001.sql"));
    assert_eq!(without_curdir_components("./db/./001.sql"), without_curdir_components("db/001.sql"));
}
