use fuse::model::remote::{RemoteEndpoint, RemoteEndpointRepository};
use fuse::model::source::Auth;

fn create_test_repo() -> RemoteEndpointRepository {
    RemoteEndpointRepository::new()
}

#[test]
fn test_remote_endpoint_creation() {
    let endpoint = RemoteEndpoint::new("test", "https://example.com");
    assert_eq!(endpoint.name, "test");
    assert_eq!(endpoint.url, "https://example.com");
    assert!(endpoint.enabled);
    assert!(endpoint.auth.is_none());
    assert!(endpoint.description.is_none());
}

#[test]
fn test_remote_endpoint_with_auth() {
    let endpoint =
        RemoteEndpoint::new("test", "https://example.com").with_auth(Auth::ApiKey("key123".to_string()));
    assert!(endpoint.auth.is_some());
    assert!(matches!(endpoint.auth.unwrap(), Auth::ApiKey(_)));
}

#[test]
fn test_remote_endpoint_with_description() {
    let endpoint = RemoteEndpoint::new("test", "https://example.com").with_description("Test endpoint");
    assert_eq!(endpoint.description, Some("Test endpoint".to_string()));
}

#[test]
fn test_remote_endpoint_validation() {
    let endpoint = RemoteEndpoint::new("test", "https://example.com");
    assert!(endpoint.validate().is_ok());
    let endpoint = RemoteEndpoint::new("", "https://example.com");
    assert!(endpoint.validate().is_err());
    let endpoint = RemoteEndpoint::new("test", "");
    assert!(endpoint.validate().is_err());
    let endpoint = RemoteEndpoint::new("test", "example.com");
    assert!(endpoint.validate().is_err());
    let endpoint = RemoteEndpoint::new("test", "http://example.com");
    assert!(endpoint.validate().is_ok());
}

#[test]
fn test_add_remote_endpoint() {
    let mut repo = create_test_repo();
    let endpoint = RemoteEndpoint::new("test", "https://example.com");
    assert!(repo.add(endpoint).is_ok());
    let retrieved = repo.get("test").unwrap();
    assert!(retrieved.is_some());
    assert_eq!(retrieved.unwrap().name, "test");
}

#[test]
fn test_add_duplicate_endpoint() {
    let mut repo = create_test_repo();
    let endpoint = RemoteEndpoint::new("test", "https://example.com");
    assert!(repo.add(endpoint.clone()).is_ok());
    let result = repo.add(endpoint);
    assert!(result.is_err());
    assert!(result.unwrap_err().message().contains("already exists"));
}

#[test]
fn test_remove_remote_endpoint() {
    let mut repo = create_test_repo();
    repo.add(RemoteEndpoint::new("test", "https://example.com")).unwrap();
    assert!(repo.remove("test").is_ok());
    let retrieved = repo.get("test").unwrap();
    assert!(retrieved.is_none());
}

#[test]
fn test_remove_nonexistent_endpoint() {
    let mut repo = create_test_repo();
    let result = repo.remove("nonexistent");
    assert!(result.is_err());
    assert!(result.unwrap_err().message().contains("not found"));
}

#[test]
fn test_list_remote_endpoints() {
    let mut repo = create_test_repo();
    repo.add(RemoteEndpoint::new("endpoint1", "https://example1.com")).unwrap();
    repo.add(RemoteEndpoint::new("endpoint2", "https://example2.com")).unwrap();
    repo.add(RemoteEndpoint::new("endpoint3", "https://example3.com")).unwrap();
    let endpoints = repo.list().unwrap();
    assert_eq!(endpoints.len(), 3);
    assert_eq!(endpoints[0].name, "endpoint1");
    assert_eq!(endpoints[1].name, "endpoint2");
    assert_eq!(endpoints[2].name, "endpoint3");
}

#[test]
fn list_is_sorted_whatever_the_insertion_order() {
    let mut repo = create_test_repo();
    repo.add(RemoteEndpoint::new("zeta", "https://z.com")).unwrap();
    repo.add(RemoteEndpoint::new("alpha", "https://a.com")).unwrap();
    repo.add(RemoteEndpoint::new("mid", "https://m.com")).unwrap();
    let names: Vec<String> = repo.list().unwrap().into_iter().map(|e| e.name).collect();
    assert_eq!(names, vec!["alpha", "mid", "zeta"]);
}

#[test]
fn test_update_remote_endpoint() {
    let mut repo = create_test_repo();
    repo.add(RemoteEndpoint::new("test", "https://example.com")).unwrap();
    let updated = RemoteEndpoint::new("test", "https://updated.com").with_description("Updated endpoint");
    repo.update(updated).unwrap();
    let retrieved = repo.get("test").unwrap().unwrap();
    assert_eq!(retrieved.url, "https://updated.com");
    assert_eq!(retrieved.description, Some("Updated endpoint".to_string()));
}

#[test]
fn test_update_nonexistent_endpoint() {
    let mut repo = create_test_repo();
    let endpoint = RemoteEndpoint::new("nonexistent", "https://example.com");
    let result = repo.update(endpoint);
    assert!(result.is_err());
    assert!(result.unwrap_err().message().contains("not found"));
}

#[test]
fn test_set_enabled() {
    let mut repo = create_test_repo();
    repo.add(RemoteEndpoint::new("test", "https://example.com")).unwrap();
    repo.set_enabled("test", false).unwrap();
    let retrieved = repo.get("test").unwrap().unwrap();
    assert!(!retrieved.enabled);
    repo.set_enabled("test", true).unwrap();
    let retrieved = repo.get("test").unwrap().unwrap();
    assert!(retrieved.enabled);
}

#[test]
fn test_list_enabled() {
    let mut repo = create_test_repo();
    repo.add(RemoteEndpoint::new("endpoint1", "https://example1.com")).unwrap();
    repo.add(RemoteEndpoint::new("endpoint2", "https://example2.com")).unwrap();
    repo.add(RemoteEndpoint::new("endpoint3", "https://example3.com")).unwrap();
    repo.set_enabled("endpoint2", false).unwrap();
    let enabled = repo.list_enabled().unwrap();
    assert_eq!(enabled.len(), 2);
    assert!(enabled.iter().any(|e| e.name == "endpoint1"));
    assert!(enabled.iter().any(|e| e.name == "endpoint3"));
    assert!(!enabled.iter().any(|e| e.name == "endpoint2"));
}

#[test]
fn test_multiple_endpoints_management() {
    let mut repo = create_test_repo();
    let endpoint1 = RemoteEndpoint::new("aws-prod", "https://aws.example.com")
        .with_auth(Auth::ApiKey("aws-key".to_string()))
        .with_description("AWS production endpoint");
    let endpoint2 = RemoteEndpoint::new("gcp-staging", "https://gcp.example.com")
        .with_auth(Auth::BearerToken("gcp-token".to_string()))
        .with_description("GCP staging endpoint");
    let endpoint3 = RemoteEndpoint::new("on-prem", "http://internal.example.com")
        .with_auth(Auth::Basic { username: "admin".to_string(), password: "secret".to_string() })
        .with_description("On-premises endpoint");
    repo.add(endpoint1).unwrap();
    repo.add(endpoint2).unwrap();
    repo.add(endpoint3).unwrap();
    let endpoints = repo.list().unwrap();
    assert_eq!(endpoints.len(), 3);
    let aws = repo.get("aws-prod").unwrap().unwrap();
    assert_eq!(aws.url, "https://aws.example.com");
    assert!(matches!(aws.auth, Some(Auth::ApiKey(_))));
    let gcp = repo.get("gcp-staging").unwrap().unwrap();
    assert_eq!(gcp.url, "https://gcp.example.com");
    assert!(matches!(gcp.auth, Some(Auth::BearerToken(_))));
    let on_prem = repo.get("on-prem").unwrap().unwrap();
    assert_eq!(on_prem.url, "http://internal.example.com");
    assert!(matches!(on_prem.auth, Some(Auth::Basic { .. })));
}

#[test]
fn test_endpoint_lifecycle() {
    let mut repo = create_test_repo();
    let endpoint =
        RemoteEndpoint::new("lifecycle-test", "https://example.com").with_description("Testing lifecycle");
    repo.add(endpoint).unwrap();
    assert!(repo.get("lifecycle-test").unwrap().is_some());
    let updated = RemoteEndpoint::new("lifecycle-test", "https://updated.example.com")
        .with_description("Updated description")
        .with_auth(Auth::ApiKey("new-key".to_string()));
    repo.update(updated).unwrap();
    let retrieved = repo.get("lifecycle-test").unwrap().unwrap();
    assert_eq!(retrieved.url, "https://updated.example.com");
    assert_eq!(retrieved.description, Some("Updated description".to_string()));
    assert!(retrieved.auth.is_some());
    repo.set_enabled("lifecycle-test", false).unwrap();
    let retrieved = repo.get("lifecycle-test").unwrap().unwrap();
    assert!(!retrieved.enabled);
    repo.set_enabled("lifecycle-test", true).unwrap();
    let retrieved = repo.get("lifecycle-test").unwrap().unwrap();
    assert!(retrieved.enabled);
    repo.remove("lifecycle-test").unwrap();
    assert!(repo.get("lifecycle-test").unwrap().is_none());
}

#[test]
fn test_endpoint_filtering_by_status() {
    let mut repo = create_test_repo();
    repo.add(RemoteEndpoint::new("enabled1", "https://e1.example.com")).unwrap();
    repo.add(RemoteEndpoint::new("enabled2", "https://e2.example.com")).unwrap();
    repo.add(RemoteEndpoint::new("disabled1", "https://d1.example.com")).unwrap();
    repo.add(RemoteEndpoint::new("disabled2", "https://d2.example.com")).unwrap();
    repo.set_enabled("disabled1", false).unwrap();
    repo.set_enabled("disabled2", false).unwrap();
    let all = repo.list().unwrap();
    assert_eq!(all.len(), 4);
    let enabled = repo.list_enabled().unwrap();
    assert_eq!(enabled.len(), 2);
    assert!(enabled.iter().all(|e| e.enabled));
    assert!(enabled.iter().any(|e| e.name == "enabled1"));
    assert!(enabled.iter().any(|e| e.name == "enabled2"));
    assert!(!enabled.iter().any(|e| e.name == "disabled1"));
    assert!(!enabled.iter().any(|e| e.name == "disabled2"));
}

#[test]
fn test_endpoint_validation_edge_cases() {
    assert!(RemoteEndpoint::new("test", "https://example.com").validate().is_ok());
    assert!(RemoteEndpoint::new("test", "http://example.com").validate().is_ok());
    assert!(RemoteEndpoint::new("test", "https://example.com:8080").validate().is_ok());
    assert!(RemoteEndpoint::new("test", "https://example.com/api/v1").validate().is_ok());
    assert!(RemoteEndpoint::new("test", "http://localhost:3000").validate().is_ok());
    assert!(RemoteEndpoint::new("test", "http://192.168.1.1").validate().is_ok());
    assert!(RemoteEndpoint::new("test", "example.com").validate().is_err());
    assert!(RemoteEndpoint::new("test", "ftp://example.com").validate().is_err());
    assert!(RemoteEndpoint::new("", "https://example.com").validate().is_err());
    assert!(RemoteEndpoint::new("test", "").validate().is_err());
}

#[test]
fn test_endpoint_persistence_across_operations() {
    let mut repo = create_test_repo();
    let original = RemoteEndpoint::new("persistent", "https://example.com")
        .with_auth(Auth::ApiKey("key123".to_string()))
        .with_description("Test persistence")
        .with_enabled(true);
    repo.add(original.clone()).unwrap();
    let retrieved = repo.get("persistent").unwrap().unwrap();
    assert_eq!(retrieved.name, original.name);
    assert_eq!(retrieved.url, original.url);
    assert_eq!(retrieved.enabled, original.enabled);
    assert_eq!(retrieved.description, original.description);
    assert_eq!(retrieved.auth, original.auth);
    repo.set_enabled("persistent", false).unwrap();
    let retrieved = repo.get("persistent").unwrap().unwrap();
    assert_eq!(retrieved.url, original.url);
    assert_eq!(retrieved.description, original.description);
    assert_eq!(retrieved.auth, original.auth);
    assert!(!retrieved.enabled);
}

#[test]
fn test_endpoint_auth_types_persistence() {
    let mut repo = create_test_repo();
    repo.add(RemoteEndpoint::new("api-key", "https://example.com").with_auth(Auth::ApiKey("test-key".to_string())))
        .unwrap();
    let retrieved = repo.get("api-key").unwrap().unwrap();
    assert!(matches!(retrieved.auth, Some(Auth::ApiKey(_))));
    repo.add(
        RemoteEndpoint::new("bearer", "https://example.com").with_auth(Auth::BearerToken("test-token".to_string())),
    )
    .unwrap();
    let retrieved = repo.get("bearer").unwrap().unwrap();
    assert!(matches!(retrieved.auth, Some(Auth::BearerToken(_))));
    repo.add(RemoteEndpoint::new("basic", "https://example.com").with_auth(Auth::Basic {
        username: "user".to_string(),
        password: "pass".to_string(),
    }))
    .unwrap();
    let retrieved = repo.get("basic").unwrap().unwrap();
    assert!(matches!(retrieved.auth, Some(Auth::Basic { .. })));
    repo.add(RemoteEndpoint::new("no-auth", "https://example.com")).unwrap();
    let retrieved = repo.get("no-auth").unwrap().unwrap();
    assert!(retrieved.auth.is_none());
}

#[test]
fn test_concurrent_endpoint_operations() {
    let mut repo = create_test_repo();
    for i in 0..10 {
        repo.add(RemoteEndpoint::new(&format!("endpoint-{}", i), &format!("https://example{}.com", i)))
            .unwrap();
    }
    assert_eq!(repo.list().unwrap().len(), 10);
    for i in 0..5 {
        repo.update(RemoteEndpoint::new(&format!("endpoint-{}", i), &format!("https://updated{}.com", i)))
            .unwrap();
    }
    for i in 5..8 {
        repo.set_enabled(&format!("endpoint-{}", i), false).unwrap();
    }
    for i in 8..10 {
        repo.remove(&format!("endpoint-{}", i)).unwrap();
    }
    assert_eq!(repo.list().unwrap().len(), 8);
    assert_eq!(repo.list_enabled().unwrap().len(), 5);
    assert_eq!(repo.get("endpoint-0").unwrap().unwrap().url, "https://updated0.com");
}

#[test]
fn add_rejects_invalid_endpoint() {
    let mut repo = create_test_repo();
    assert!(repo.add(RemoteEndpoint::new("bad", "example.com")).is_err());
    assert!(repo.list().unwrap().is_empty());
}

#[test]
fn missing_endpoint_is_named() {
    let mut repo = create_test_repo();
    match repo.remove("ghost") {
        Err(e) => assert_eq!(e.message(), "Remote endpoint 'ghost' not found"),
        Ok(_) => panic!("expected an error"),
    }
}
