use http_server::listing::directory_listing;

fn page(url: &str, listing: &str) -> String {
    format!(
        r#"<!DOCTYPE html>
<html lang="en">
<head>
  <meta charset="utf-8">
  <title>Index of {url}</title>
  <style>
    body {{ font-family: monospace; padding: 2em; }}
    ul   {{ list-style: none; padding: 0; }}
    li   {{ padding: 0.2em 0; }}
    a    {{ text-decoration: none; color: #0066cc; }}
    a:hover {{ text-decoration: underline; }}
  </style>
</head>
<body>
  <h1>Index of {url}</h1>
  <ul>
        {listing}
  </ul>
</body>
</html>"#
    )
}

#[test]
fn listing_of_root() {
    let entries = vec![
        ("b.txt".to_string(), false),
        ("zdir".to_string(), true),
        ("a.txt".to_string(), false),
        ("adir".to_string(), true),
    ];
    let r = directory_listing("/", &entries, 0);
    assert_eq!(r.status, 200);
    assert_eq!(r.reason, "OK");
    assert_eq!(r.content_type, "text/html");
    assert_eq!(r.cache_max_age, 0);
    assert!(r.location.is_none());
    let rows = [
        r#"<li><a href="/adir/">adir/</a></li>"#,
        r#"<li><a href="/zdir/">zdir/</a></li>"#,
        r#"<li><a href="/a.txt">a.txt</a></li>"#,
        r#"<li><a href="/b.txt">b.txt</a></li>"#,
    ]
    .join("\n        ");
    assert_eq!(String::from_utf8(r.body).unwrap(), page("/", &rows));
}

#[test]
fn listing_of_subdirectory_links_upward() {
    let entries = vec![("B".to_string(), false), ("a".to_string(), false), ("\u{e9}".to_string(), false)];
    let r = directory_listing("/docs/sub/", &entries, 120);
    assert_eq!(r.cache_max_age, 120);
    let rows = [
        r#"<li><a href="/docs">../</a></li>"#,
        r#"<li><a href="/docs/sub/B">B</a></li>"#,
        r#"<li><a href="/docs/sub/a">a</a></li>"#,
        "<li><a href=\"/docs/sub/\u{e9}\">\u{e9}</a></li>",
    ]
    .join("\n        ");
    assert_eq!(String::from_utf8(r.body).unwrap(), page("/docs/sub/", &rows));
}

#[test]
fn empty_listing() {
    let r = directory_listing("/", &Vec::new(), 0);
    assert_eq!(String::from_utf8(r.body).unwrap(), page("/", ""));
    let r = directory_listing("/x", &Vec::new(), 0);
    assert_eq!(String::from_utf8(r.body).unwrap(), page("/x", r#"<li><a href="/">../</a></li>"#));
}

#[test]
fn listing_order_matches_std_sort() {
    let mut entries = vec![
        ("b".to_string(), true),
        ("a".to_string(), false),
        ("ab".to_string(), false),
        ("A".to_string(), true),
        ("\u{1f600}".to_string(), false),
        ("\u{ff}".to_string(), false),
        ("a".to_string(), true),
    ];
    let r = directory_listing("/", &entries, 0);
    entries.sort_by(|a, b| b.1.cmp(&a.1).then(a.0.cmp(&b.0)));
    let rows: Vec<String> = entries
        .iter()
        .map(|(name, is_dir)| {
            let display = if *is_dir { format!("{name}/") } else { name.clone() };
            let href = format!("/{name}");
            let href = if *is_dir { format!("{href}/") } else { href };
            format!(r#"<li><a href="{href}">{display}</a></li>"#)
        })
        .collect();
    assert_eq!(String::from_utf8(r.body).unwrap(), page("/", &rows.join("\n        ")));
}
