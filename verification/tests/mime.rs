use http_server::mime::{determine_mime_type, known_mime_type, mime_type, path_extension};

#[test]
fn extensions() {
    let ext = |p: &str| path_extension(p).map(|v| v.into_iter().collect::<String>());
    assert_eq!(ext("/a/b.txt"), Some("txt".to_string()));
    assert_eq!(ext("a.tar.gz"), Some("gz".to_string()));
    assert_eq!(ext(".bashrc"), None);
    assert_eq!(ext("dir/.hidden.md"), Some("md".to_string()));
    assert_eq!(ext("noext"), None);
    assert_eq!(ext("trailing."), Some(String::new()));
    assert_eq!(ext("/a/b.html/"), Some("html".to_string()));
    assert_eq!(ext("/a/.."), None);
    assert_eq!(ext("/"), None);
    for p in ["/a/b.txt", "a.tar.gz", ".bashrc", "dir/.hidden.md", "noext", "trailing.", "/a/b.html/", "/a/..", "/", "x/y.z/."] {
        let std_ext = std::path::Path::new(p).extension().map(|e| e.to_string_lossy().into_owned());
        assert_eq!(ext(p), std_ext, "{p}");
    }
}

#[test]
fn known_types() {
    assert_eq!(known_mime_type("/index.html"), Some("text/html"));
    assert_eq!(known_mime_type("/index.htm"), Some("text/html"));
    assert_eq!(known_mime_type("a.css"), Some("text/css"));
    assert_eq!(known_mime_type("a.mjs"), Some("application/javascript"));
    assert_eq!(known_mime_type("a.toml"), Some("text/plain"));
    assert_eq!(known_mime_type("a.jpeg"), Some("image/jpeg"));
    assert_eq!(known_mime_type("a.woff2"), Some("font/woff2"));
    assert_eq!(known_mime_type("a.7z"), Some("application/x-7z-compressed"));
    assert_eq!(
        known_mime_type("slides.pptx"),
        Some("application/vnd.openxmlformats-officedocument.presentationml.presentation")
    );
    assert_eq!(known_mime_type("a.xls"), Some("application/vnd.ms-excel"));
    assert_eq!(known_mime_type("a.HTML"), None);
    assert_eq!(known_mime_type("a.rs"), None);
    assert_eq!(known_mime_type("Makefile"), None);
}

#[test]
fn sniffing() {
    assert_eq!(determine_mime_type(None), "application/octet-stream");
    assert_eq!(determine_mime_type(Some(b"hello world")), "text/plain");
    assert_eq!(determine_mime_type(Some(b"")), "text/plain");
    assert_eq!(determine_mime_type(Some(&[0x41, 0xff])), "application/octet-stream");
    let mut late = vec![b'a'; 25];
    late.push(0xff);
    assert_eq!(determine_mime_type(Some(&late)), "text/plain");
    late[24] = 0x80;
    assert_eq!(determine_mime_type(Some(&late)), "application/octet-stream");
}

#[test]
fn mime_type_prefers_extension() {
    assert_eq!(mime_type("x.png", Some(b"text")), "image/png");
    assert_eq!(mime_type("x.png", None), "image/png");
    assert_eq!(mime_type("README", Some(b"text")), "text/plain");
    assert_eq!(mime_type("README", None), "application/octet-stream");
    assert_eq!(mime_type("blob.bin", Some(&[0xc3, 0x28])), "application/octet-stream");
}
