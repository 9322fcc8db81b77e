use localcode::routing::{generate_routing_config, is_autocomplete_model, select_provider_models};
use localcode::selection::ModelSelection;

#[test]
fn test_is_autocomplete_model() {
    assert!(is_autocomplete_model("phi3-mini"));
    assert!(is_autocomplete_model("qwen2.5-coder-1.5b-instruct"));
    assert!(is_autocomplete_model("gemma-2b-it"));
    assert!(is_autocomplete_model("some-0.5b-model"));
    assert!(!is_autocomplete_model("llama3-8b-instruct"));
    assert!(!is_autocomplete_model("mixtral-8x7b-instruct"));
    assert!(!is_autocomplete_model("llama3-70b-instruct"));
}

#[test]
fn test_is_autocomplete_model_ignores_case() {
    assert!(is_autocomplete_model("Phi3-MINI"));
    assert!(is_autocomplete_model("Qwen-CODER"));
}

fn sel(name: &str, quant: Option<&str>) -> ModelSelection {
    ModelSelection {
        name: name.to_string(),
        quant: quant.map(|q| q.to_string()),
    }
}

#[test]
fn test_generate_routing_config_exact() {
    let models = vec![
        sel("llama3-8b-instruct", None),
        sel("qwen2.5-coder-1.5b-instruct", Some("Q4_K_M")),
    ];
    let yaml = generate_routing_config(&models);
    let mut expected = String::new();
    expected.push_str("models:\n");
    expected.push_str("  llama3-8b-instruct:\n");
    expected.push_str("    cmd: llama-server --port ${PORT}  ");
    expected.push_str("--hf-file https://huggingface.co/lmstudio-community/Meta-Llama-3-8B-Instruct-GGUF/resolve/main/Meta-Llama-3-8B-Instruct-Q4_K_M.gguf");
    expected.push_str(" --host 0.0.0.0 --ctx-size 8192\n");
    expected.push_str("  qwen2.5-coder-1.5b-instruct:\n");
    expected.push_str("    cmd: llama-server --port ${PORT} ");
    expected.push_str("--hf-repo bartowski/qwen2.5-coder-1.5b-instruct-GGUF ");
    expected.push_str("--hf-file qwen2.5-coder-1.5b-instruct-Q4_K_M.gguf");
    expected.push_str(" --host 0.0.0.0 --ctx-size 8192\n");
    expected.push_str("\ngroups:\n");
    expected.push_str("  autocomplete:\n");
    expected.push_str("    persistent: true\n");
    expected.push_str("    swap: false\n");
    expected.push_str("    exclusive: false\n");
    expected.push_str("    members:\n");
    expected.push_str("      - qwen2.5-coder-1.5b-instruct\n");
    assert_eq!(yaml, expected);
}

#[test]
fn test_generate_routing_config_idempotent_and_ordered() {
    let models = vec![
        sel("zeta-model", Some("Q5")),
        sel("alpha-model", Some("Q5")),
        sel("phi3-mini", None),
    ];
    let first = generate_routing_config(&models);
    let second = generate_routing_config(&models);
    assert_eq!(first, second);
    let zeta = first.find("  zeta-model:\n").unwrap();
    let alpha = first.find("  alpha-model:\n").unwrap();
    let phi = first.find("  phi3-mini:\n").unwrap();
    assert!(zeta < alpha && alpha < phi);
}

#[test]
fn test_generate_routing_config_without_group_section() {
    let models = vec![sel("llama3-8b-instruct", None)];
    let yaml = generate_routing_config(&models);
    assert!(!yaml.contains("groups:"));
    assert!(yaml.starts_with("models:\n"));
}

#[test]
fn test_select_provider_models_prefers_first_of_each_class() {
    let models = vec![
        sel("phi3-mini", None),
        sel("llama3-8b-instruct", None),
        sel("mixtral-8x7b-instruct", None),
        sel("gemma-2b-it", None),
    ];
    let (standard, auto) = select_provider_models(&models);
    assert_eq!(standard, "llama3-8b-instruct");
    assert_eq!(auto, Some("phi3-mini".to_string()));
}

#[test]
fn test_select_provider_models_defaults_when_empty() {
    let models: Vec<ModelSelection> = Vec::new();
    let (standard, auto) = select_provider_models(&models);
    assert_eq!(standard, "default");
    assert_eq!(auto, None);
}
