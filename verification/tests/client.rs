use duckity::DuckityClient;

#[test]
fn new_points_at_public_service() {
    let c = DuckityClient::new();
    assert_eq!(c.domain, "quack.duckity.dev");
}

#[test]
fn with_domain_points_at_custom_domain() {
    let c = DuckityClient::with_domain("duckling.example.org".to_string());
    assert_eq!(c.domain, "duckling.example.org");
}

#[test]
fn default_is_public_service() {
    let c = DuckityClient::default();
    assert_eq!(c.domain, "quack.duckity.dev");
}
