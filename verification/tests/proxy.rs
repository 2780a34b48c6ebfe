use fuse::model::proxy::{check_enabled, forward_url, parse_method, should_retry, HttpMethod};
use fuse::model::remote::RemoteEndpoint;

#[test]
fn proxy_decisions() {
    assert_eq!(parse_method("get").unwrap(), HttpMethod::Get);
    assert_eq!(parse_method("Patch").unwrap(), HttpMethod::Patch);
    assert_eq!(parse_method("trace").unwrap_err().message(), "Unsupported HTTP method: TRACE");
    assert_eq!(forward_url("https://api.example.com//", "/v1/chat"), "https://api.example.com/v1/chat");
    let ep = RemoteEndpoint::new("e", "https://x.com").with_enabled(false);
    assert_eq!(check_enabled(&ep).unwrap_err().message(), "Remote endpoint 'e' is disabled");
    assert!(check_enabled(&RemoteEndpoint::new("e", "https://x.com")).is_ok());
    assert!(should_retry(true, 1, 3));
    assert!(!should_retry(true, 3, 3));
    assert!(!should_retry(false, 1, 3));
}
