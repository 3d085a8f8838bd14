use mcp_supervisor::config::CustomConfig;
use mcp_supervisor::config::ModelConfig;
use mcp_supervisor::config::listing_shows;
use mcp_supervisor::config::listing_shows_all;
use mcp_supervisor::tools::Tool;

fn sample(endpoint: Option<String>, method: Option<String>) -> ModelConfig {
    ModelConfig {
        provider: String::from("acme"),
        api_url: String::from("https://example.invalid/api"),
        model: String::from("m-1"),
        session_key: String::from("s1"),
        endpoint,
        method,
    }
}

#[test]
fn stored_endpoint_defaults_to_empty() {
    assert_eq!(sample(None, None).stored_endpoint(), "");
    assert_eq!(
        sample(Some(String::from("/v2/answers")), None).stored_endpoint(),
        "/v2/answers"
    );
}

#[test]
fn stored_method_defaults_to_chat_completions() {
    assert_eq!(sample(None, None).stored_method(), "/v1/chat/completions");
    assert_eq!(
        sample(None, Some(String::from("/v1/embeddings"))).stored_method(),
        "/v1/embeddings"
    );
}

#[test]
fn listing_filter_shows_all_only_for_the_all_word() {
    assert!(listing_shows_all(&Some(String::from("ALL"))));
    assert!(!listing_shows_all(&Some(String::from("all"))));
    assert!(!listing_shows_all(&Some(String::from("custom"))));
    assert!(!listing_shows_all(&None));
}

#[test]
fn restricted_listing_hides_built_in_providers() {
    assert!(!listing_shows(false, &String::from("openai")));
    assert!(!listing_shows(false, &String::from("ollama")));
    assert!(listing_shows(false, &String::from("acme")));
    assert!(listing_shows(true, &String::from("openai")));
    assert!(listing_shows(true, &String::from("ollama")));
}

#[test]
fn custom_config_round_trips_its_fields() {
    let c = CustomConfig {
        name: String::from("mine"),
        api_key: String::from("k1"),
        model: String::from("m-2"),
        session_key: String::from("s2"),
    };
    let copy = c.clone();
    assert_eq!(copy.name, "mine");
    assert_eq!(copy.model, "m-2");
}

#[test]
fn tool_names() {
    assert_eq!(Tool::Uv.name(), "uv");
    assert_eq!(Tool::Bun.name(), "bun");
    assert_eq!(Tool::Git.name(), "git");
}

#[test]
fn tool_from_name_round_trip() {
    assert_eq!(Tool::from_name(&String::from("uv")), Some(Tool::Uv));
    assert_eq!(Tool::from_name(&String::from("bun")), Some(Tool::Bun));
    assert_eq!(Tool::from_name(&String::from("git")), Some(Tool::Git));
    assert_eq!(Tool::from_name(&String::from("node")), None);
    assert_eq!(Tool::from_name(&String::from("")), None);
}
