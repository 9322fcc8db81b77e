use localcode::download::{download_models, DownloadError};
use localcode::selection::ModelSelection;

#[test]
fn test_catalog_only_batch_skips_all_fetches() {
    // Catalog entries resolve to a bare URL (empty repository reference),
    // which the batch path skips, so no network is touched.
    let models = vec![
        ModelSelection {
            name: "phi3-mini".to_string(),
            quant: None,
        },
        ModelSelection {
            name: "llama3-8b-instruct".to_string(),
            quant: None,
        },
    ];
    let dir = "/tmp/localcode-test-cache".to_string();
    assert_eq!(download_models(&models, &dir), Ok(()));
}

#[test]
fn test_fetch_failure_names_the_model() {
    // A quantized selection is fetched through the download client; with no
    // reachable endpoint the failure must be attributed to that model.
    let models = vec![ModelSelection {
        name: "no-such-model".to_string(),
        quant: Some("Q4_K_M".to_string()),
    }];
    let dir = "/tmp/localcode-test-cache".to_string();
    match download_models(&models, &dir) {
        Err(DownloadError::Fetch { model, detail: _ }) => assert_eq!(model, "no-such-model"),
        other => panic!("expected a fetch failure, got {:?}", other),
    }
}
