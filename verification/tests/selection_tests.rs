use localcode::selection::{
    recommended_model_for_vram, selections_from_names, strip_label_suffix, ModelSelection,
    SetupConfig,
};

#[test]
fn test_recommended_model_by_vram_tier() {
    assert_eq!(recommended_model_for_vram(32), "llama3-70b-instruct");
    assert_eq!(recommended_model_for_vram(24), "llama3-70b-instruct");
    assert_eq!(recommended_model_for_vram(23), "mixtral-8x7b-instruct");
    assert_eq!(recommended_model_for_vram(16), "mixtral-8x7b-instruct");
    assert_eq!(recommended_model_for_vram(8), "llama3-8b-instruct");
    assert_eq!(recommended_model_for_vram(7), "phi3-mini");
    assert_eq!(recommended_model_for_vram(0), "phi3-mini");
}

#[test]
fn test_strip_label_suffix() {
    assert_eq!(
        strip_label_suffix("llama3-8b-instruct (Score: 0.95, Quant: Q4_K_M)"),
        "llama3-8b-instruct"
    );
    assert_eq!(strip_label_suffix("phi3-mini"), "phi3-mini");
}

#[test]
fn test_selections_from_names_keep_order_without_quant() {
    let names = vec!["a-model".to_string(), "b-model".to_string()];
    let sels = selections_from_names(&names);
    assert_eq!(sels.len(), 2);
    assert_eq!(sels[0].name, "a-model");
    assert_eq!(sels[0].quant, None);
    assert_eq!(sels[1].name, "b-model");
    assert_eq!(sels[1].quant, None);
}

#[test]
fn test_setup_config_holds_resolved_values() {
    let config = SetupConfig {
        models: vec![ModelSelection {
            name: "test".to_string(),
            quant: None,
        }],
        run_in_docker: true,
        selected_skills: vec!["context7".to_string()],
        models_dir: "/tmp/models".to_string(),
        port: 8080,
    };
    assert!(config.run_in_docker);
    assert_eq!(config.port, 8080);
    assert_eq!(config.models[0].name, "test");
    assert_eq!(config.selected_skills, vec!["context7"]);
    assert_eq!(config.models_dir, "/tmp/models");
}
