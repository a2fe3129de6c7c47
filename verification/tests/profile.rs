use bookmark_hub::chrome::{version_endpoint_url, ChromeClient, ChromeConnection, ChromeParams};
use bookmark_hub::profile::{
    index_needs_rebuild, profile_action, same_profile, text_contains, EmbeddingProfile,
    ProfileAction,
};

fn profile(model: &str, dimensions: usize) -> EmbeddingProfile {
    EmbeddingProfile { provider: "ollama".into(), model: model.into(), dimensions }
}

#[test]
fn matching_profile_is_kept() {
    let p = profile("nomic", 768);
    assert!(same_profile(&p, &profile("nomic", 768)));
    assert_eq!(profile_action(Some(&profile("nomic", 768)), &p, 10), ProfileAction::Keep);
}

#[test]
fn changed_profile_clears_chunks() {
    let p = profile("nomic", 768);
    assert_eq!(
        profile_action(Some(&profile("nomic", 1024)), &p, 0),
        ProfileAction::ClearAndStore
    );
    assert_eq!(
        profile_action(Some(&profile("other", 768)), &p, 0),
        ProfileAction::ClearAndStore
    );
}

#[test]
fn missing_profile_clears_only_existing_chunks() {
    let p = profile("nomic", 768);
    assert_eq!(profile_action(None, &p, 3), ProfileAction::ClearAndStore);
    assert_eq!(profile_action(None, &p, 0), ProfileAction::Store);
}

#[test]
fn index_is_rebuilt_for_other_dimensions() {
    let def = "CREATE INDEX idx ON bookmark_chunk USING hnsw (((embedding)::vector(768)) vector_cosine_ops)";
    assert!(!index_needs_rebuild(Some(def), 768));
    assert!(index_needs_rebuild(Some(def), 76));
    assert!(index_needs_rebuild(Some(def), 1024));
    assert!(index_needs_rebuild(None, 768));
}

#[test]
fn substring_search() {
    assert!(text_contains("hello world", "lo w"));
    assert!(text_contains("abc", ""));
    assert!(!text_contains("abc", "abcd"));
    assert!(!text_contains("ab", "ba"));
}

#[test]
fn chrome_client_keeps_its_connection() {
    let client = ChromeClient::new(ChromeConnection::Local);
    assert!(matches!(client.browser(), ChromeConnection::Local));
    let params = ChromeParams { chrome_host: "chrome".into(), chrome_port: 9222 };
    let client = ChromeClient::new(params.connection());
    match client.browser() {
        ChromeConnection::Remote { host, port } => {
            assert_eq!(host, "chrome");
            assert_eq!(*port, 9222);
        }
        ChromeConnection::Local => panic!("expected a remote browser"),
    }
}

#[test]
fn version_endpoint_of_remote_browser() {
    assert_eq!(
        version_endpoint_url("chrome", 9222),
        "http://chrome:9222/json/version"
    );
}

#[test]
fn index_rebuild_statement_names_dimensions() {
    let st = bookmark_hub::profile::index_rebuild_statement(768);
    assert_eq!(
        st,
        "DROP INDEX IF EXISTS idx_bookmark_chunk_embedding;\n             CREATE INDEX idx_bookmark_chunk_embedding ON bookmark_chunk\n             USING hnsw (((embedding)::vector(768)) vector_cosine_ops)\n             WITH (m = 16, ef_construction = 64);"
    );
}
