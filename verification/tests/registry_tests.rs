use ai_gateway::claude::ClaudeConfig;
use ai_gateway::client::{
    ensure_model_capabilities, list_models, resolve_provider, ClientConfig,
};
use ai_gateway::config::AIGatewayConfig;
use ai_gateway::error::Error;
use ai_gateway::input::Input;
use ai_gateway::model::{Model, ModelCapabilities, ModelConfig};
use ai_gateway::openai::OpenAIConfig;

fn s(text: &str) -> String {
    String::from(text)
}

fn openai_cfg(name: Option<&str>) -> ClientConfig {
    ClientConfig::OpenAIConfig(OpenAIConfig {
        name: name.map(s),
        api_key: None,
        api_base: None,
        organization_id: None,
        extra: None,
    })
}

fn claude_cfg(models: Vec<ModelConfig>) -> ClientConfig {
    ClientConfig::ClaudeConfig(ClaudeConfig {
        name: None,
        api_key: None,
        models,
        extra: None,
    })
}

fn declared(name: &str, vision: bool) -> ModelConfig {
    ModelConfig {
        name: s(name),
        max_input_tokens: Some(100000),
        capabilities: ModelCapabilities { text: true, vision },
    }
}

#[test]
fn models_flatten_in_declaration_order() {
    let clients = vec![
        claude_cfg(vec![declared("opus", true), declared("haiku", false)]),
        openai_cfg(None),
        ClientConfig::QianwenConfig(ai_gateway::qianwen::QianwenConfig {
            name: None,
            api_key: None,
            extra: None,
        }),
        ClientConfig::OllamaConfig(ai_gateway::ollama::OllamaConfig {
            name: Some(s("local")),
            api_base: s("http://localhost:11434"),
            api_key: None,
            chat_endpoint: None,
            models: vec![declared("llama3", false)],
            extra: None,
        }),
        ClientConfig::Unknown,
    ];
    let models = list_models(&clients);
    assert_eq!(models.len(), 12);
    assert_eq!(models[0].id(), "anthropic:opus");
    assert_eq!(models[1].id(), "anthropic:haiku");
    assert_eq!(models[2].id(), "openai:gpt-4-turbo-preview");
    assert_eq!(models[6].id(), "openai:gpt-3.5-turbo-1106");
    assert_eq!(models[7].id(), "qianwen:qwen-max");
    assert_eq!(models[10].id(), "qianwen:qwen-turbo");
    assert_eq!(models[11].id(), "local:llama3");
}

#[test]
fn find_matches_full_id_then_bare_name() {
    let clients = vec![openai_cfg(None)];
    let models = list_models(&clients);
    let by_id = Model::find(&models, "openai:gpt-3.5-turbo").unwrap();
    assert_eq!(by_id.name, "gpt-3.5-turbo");
    let by_name = Model::find(&models, "gpt-4-vision-preview").unwrap();
    assert!(by_name.capabilities.vision);
    assert!(Model::find(&models, "no-such-model").is_none());
}

#[test]
fn capability_fallback_stays_in_the_list() {
    let clients = vec![claude_cfg(vec![
        declared("text-only", false),
        declared("sees-images", true),
    ])];
    let models = list_models(&clients);
    let current = models[0].clone();
    let vision = ModelCapabilities { text: true, vision: true };
    let switched = ensure_model_capabilities(&current, &models, vision).unwrap();
    assert_eq!(switched.name, "sees-images");
    let kept = ensure_model_capabilities(
        &switched,
        &models,
        ModelCapabilities { text: true, vision: false },
    )
    .unwrap();
    assert_eq!(kept.name, "sees-images");
    let none = vec![models[0].clone()];
    match ensure_model_capabilities(&none[0], &none, vision) {
        Err(Error::CapabilityUnavailable) => {},
        other => panic!("expected CapabilityUnavailable, got {:?}", other),
    }
}

#[test]
fn providers_resolve_by_name() {
    let clients = vec![openai_cfg(Some("mine")), claude_cfg(vec![])];
    assert!(matches!(
        resolve_provider(&clients, "mine"),
        Ok(ClientConfig::OpenAIConfig(_))
    ));
    assert!(matches!(
        resolve_provider(&clients, "anthropic"),
        Ok(ClientConfig::ClaudeConfig(_))
    ));
    match resolve_provider(&clients, "openai") {
        Err(Error::UnknownProvider { name }) => assert_eq!(name, "openai"),
        other => panic!("expected UnknownProvider, got {:?}", other),
    }
}

#[test]
fn set_model_updates_or_reports_the_unknown_id() {
    let mut config = AIGatewayConfig::default();
    config.set_model("gpt-4-turbo-preview").unwrap();
    assert_eq!(config.model.id(), "openai:gpt-4-turbo-preview");
    match config.set_model("missing") {
        Err(Error::UnknownModel { id }) => assert_eq!(id, "missing"),
        other => panic!("expected UnknownModel, got {:?}", other),
    }
    assert_eq!(config.model.id(), "openai:gpt-4-turbo-preview");
}

#[test]
fn setup_model_takes_the_first_model_without_an_id() {
    let mut config = AIGatewayConfig::default();
    config.setup_model().unwrap();
    assert_eq!(config.model.id(), "openai:gpt-4-turbo-preview");
}

#[test]
fn empty_input_builds_no_messages() {
    let config = AIGatewayConfig::default();
    let input = Input::new(None, None, None);
    match config.build_messages(&input) {
        Err(Error::MalformedInput { urls }) => assert!(urls.is_empty()),
        other => panic!("expected MalformedInput, got {:?}", other),
    }
}

#[test]
fn prepare_send_data_carries_text_and_history() {
    let mut config = AIGatewayConfig::default();
    config.setup_model().unwrap();
    let history = vec![ai_gateway::message::Message::assistant("earlier")];
    let input = Input::new(Some(s("Hi")), None, Some(history));
    let data = config.prepare_send_data(&input, true).unwrap();
    assert!(data.stream);
    assert_eq!(data.messages.len(), 2);
    assert_eq!(data.messages[0], ai_gateway::message::Message::user("Hi"));
    assert_eq!(data.messages[1], ai_gateway::message::Message::assistant("earlier"));
}

#[test]
fn a_tiny_token_ceiling_rejects_the_input() {
    let mut config = AIGatewayConfig::default();
    config.setup_model().unwrap();
    config.model = config.model.clone().set_max_input_tokens(Some(1)).set_tokens_count_factors((
        5,
        2,
    ));
    let input = Input::new(Some(s("This is more than one token.")), None, None);
    match config.prepare_send_data(&input, false) {
        Err(Error::InputTooLong { limit }) => assert_eq!(limit, 1),
        other => panic!("expected InputTooLong, got {:?}", other),
    }
}
