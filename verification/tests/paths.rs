use liboj::paths::join;
use std::path::Path;

#[test]
fn join_puts_a_separator_where_needed() {
    assert_eq!(join("/sys/fs/cgroup/", "cpu"), "/sys/fs/cgroup/cpu");
    assert_eq!(join("/sys/fs/cgroup/cpu", "abc"), "/sys/fs/cgroup/cpu/abc");
    assert_eq!(join("a", "b"), "a/b");
    assert_eq!(join("a/", "b"), "a/b");
    assert_eq!(join("", "b"), "b");
    assert_eq!(join("a", ""), "a/");
    assert_eq!(join("", ""), "");
}

#[test]
fn join_with_a_path_from_the_root() {
    assert_eq!(join("/sys/fs/cgroup/cpu", "/tmp/x"), "/tmp/x");
    assert_eq!(join("", "/"), "/");
}

#[test]
fn join_agrees_with_std() {
    for base in ["", "/", "a", "a/", "/a/b", "/sys/fs/cgroup/"] {
        for component in ["", "/", "x", "x/y", "/x", "cpu.cfs_period_us"] {
            let expected = Path::new(base).join(component);
            assert_eq!(
                join(base, component),
                expected.to_str().unwrap(),
                "{:?} {:?}",
                base,
                component
            );
        }
    }
}
