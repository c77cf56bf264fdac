use http_server::args::Args;
use http_server::server::bind_address;

fn args(quiet: bool, silent: bool) -> Args {
    Args {
        root: ".".to_string(),
        port: 8080,
        address: "::".to_string(),
        no_dir_listing: false,
        no_index: false,
        cache: 0,
        silent,
        quiet,
        tls: false,
        key: None,
        cert: None,
        https: false,
    }
}

#[test]
fn bind_addresses() {
    assert_eq!(bind_address("::", 8080), ":::8080");
    assert_eq!(bind_address("127.0.0.1", 0), "127.0.0.1:0");
    assert_eq!(bind_address("localhost", 65535), "localhost:65535");
}

#[test]
fn request_logging() {
    assert!(args(false, false).logs_requests());
    assert!(!args(true, false).logs_requests());
    assert!(!args(false, true).logs_requests());
    assert!(!args(true, true).logs_requests());
}
