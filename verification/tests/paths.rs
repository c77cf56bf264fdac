use http_server::paths::{confine_to_root, join_path, normalize_path, path_components, path_starts_with, Component};

fn names(path: &str) -> Vec<String> {
    path_components(path)
        .into_iter()
        .map(|c| match c {
            Component::RootDir => "/".to_string(),
            Component::CurDir => ".".to_string(),
            Component::ParentDir => "..".to_string(),
            Component::Normal(v) => v.into_iter().collect(),
        })
        .collect()
}

#[test]
fn components_follow_std() {
    for p in ["/a/b", "a//b/", "./a/b", "/./a", "a/./b/.", ".", "..", "../a", "/", "//a", "", "a/..", ".a/b.", "././x"] {
        let expected: Vec<String> = std::path::Path::new(p)
            .components()
            .map(|c| c.as_os_str().to_string_lossy().into_owned())
            .collect();
        assert_eq!(names(p), expected, "{p}");
    }
}

#[test]
fn normalization() {
    assert_eq!(normalize_path("/srv/www/../x/./y"), "/srv/x/y");
    assert_eq!(normalize_path("a/../../b"), "b");
    assert_eq!(normalize_path("/.."), "/");
    assert_eq!(normalize_path("/../../etc/passwd"), "/etc/passwd");
    assert_eq!(normalize_path("./a/"), "a");
    assert_eq!(normalize_path(""), "");
    assert_eq!(normalize_path("//a//b//"), "/a/b");
}

#[test]
fn normalization_is_idempotent_on_examples() {
    for p in ["/srv/www/../x/./y", "a/../../b", "./../x", "/a/b/c/../../d"] {
        let once = normalize_path(p);
        assert_eq!(normalize_path(&once), once);
    }
}

#[test]
fn component_prefixes() {
    assert!(path_starts_with("/srv/www/a", "/srv/www"));
    assert!(path_starts_with("/srv/www/", "/srv/www"));
    assert!(path_starts_with("/srv/www", "/srv/www/"));
    assert!(!path_starts_with("/srv/wwwx", "/srv/www"));
    assert!(!path_starts_with("/srv", "/srv/www"));
    assert!(path_starts_with("/anything", "/"));
    assert!(!path_starts_with("relative", "/"));
    assert!(path_starts_with("x", ""));
}

#[test]
fn joining() {
    assert_eq!(join_path("/srv", "a/b"), "/srv/a/b");
    assert_eq!(join_path("/srv/", "a"), "/srv/a");
    assert_eq!(join_path("", "a"), "a");
    assert_eq!(join_path("/srv", "/etc"), "/etc");
    assert_eq!(join_path("/srv", ""), "/srv/");
    for (b, r) in [("/srv", "a/b"), ("/srv/", "a"), ("", "a"), ("/srv", "/etc"), ("/srv", "")] {
        assert_eq!(join_path(b, r), std::path::Path::new(b).join(r).to_string_lossy());
    }
}

#[test]
fn confinement() {
    assert_eq!(confine_to_root("/srv/www/x".to_string(), "/srv/www"), Some("/srv/www/x".to_string()));
    assert_eq!(confine_to_root("/srv/www".to_string(), "/srv/www"), Some("/srv/www".to_string()));
    assert_eq!(confine_to_root("/etc/passwd".to_string(), "/srv/www"), None);
    assert_eq!(confine_to_root("/srv/www2/x".to_string(), "/srv/www"), None);
}

#[test]
fn plain_paths_normalize_to_themselves() {
    for p in ["/srv/www/a", "a/b/c", "/", "", "//a//b/", ".a/b.."] {
        let n = normalize_path(p);
        assert_eq!(names(&n), names(p), "{p}");
    }
}
