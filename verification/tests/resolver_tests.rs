use localcode::resolver::extract_hf_repo_and_file;

#[test]
fn test_extract_hf_repo_and_file_static() {
    let (repo, file) = extract_hf_repo_and_file("phi3-mini", &None);
    assert_eq!(repo, "");
    assert_eq!(
        file,
        Some(
            "https://huggingface.co/microsoft/Phi-3-mini-4k-instruct-gguf/resolve/main/Phi-3-mini-4k-instruct-q4.gguf"
                .to_string()
        )
    );
}

#[test]
fn test_extract_hf_repo_and_file_dynamic() {
    let quant = Some("Q4_K_M".to_string());
    let (repo, file) = extract_hf_repo_and_file("author/llama3-8b-instruct", &quant);
    assert_eq!(repo, "bartowski/llama3-8b-instruct-GGUF");
    assert_eq!(file, Some("llama3-8b-instruct-Q4_K_M.gguf".to_string()));

    let (repo2, file2) = extract_hf_repo_and_file("some-custom-model", &quant);
    assert_eq!(repo2, "bartowski/some-custom-model-GGUF");
    assert_eq!(file2, Some("some-custom-model-Q4_K_M.gguf".to_string()));
}

#[test]
fn test_static_catalog_urls() {
    let cases = [
        (
            "llama3-70b-instruct",
            "https://huggingface.co/lmstudio-community/Meta-Llama-3-70B-Instruct-GGUF/resolve/main/Meta-Llama-3-70B-Instruct-Q4_K_M.gguf",
        ),
        (
            "mixtral-8x7b-instruct",
            "https://huggingface.co/TheBloke/Mixtral-8x7B-Instruct-v0.1-GGUF/resolve/main/mixtral-8x7b-instruct-v0.1.Q4_K_M.gguf",
        ),
        (
            "llama3-8b-instruct",
            "https://huggingface.co/lmstudio-community/Meta-Llama-3-8B-Instruct-GGUF/resolve/main/Meta-Llama-3-8B-Instruct-Q4_K_M.gguf",
        ),
        (
            "gemma-2b-it",
            "https://huggingface.co/google/gemma-2b-it-GGUF/resolve/main/2b-it-v1.1-q4_k_m.gguf",
        ),
        (
            "qwen2-7b-instruct",
            "https://huggingface.co/Qwen/Qwen2-7B-Instruct-GGUF/resolve/main/qwen2-7b-instruct-q4_k_m.gguf",
        ),
        (
            "mistral-7b-instruct",
            "https://huggingface.co/TheBloke/Mistral-7B-Instruct-v0.2-GGUF/resolve/main/mistral-7b-instruct-v0.2.Q4_K_M.gguf",
        ),
    ];
    for (name, url) in cases {
        let (repo, file) = extract_hf_repo_and_file(name, &None);
        assert_eq!(repo, "");
        assert_eq!(file, Some(url.to_string()));
        assert!(!file.unwrap().is_empty());
    }
}

#[test]
fn test_unknown_name_falls_back_to_default_entry() {
    let (repo, file) = extract_hf_repo_and_file("never-heard-of-it", &None);
    assert_eq!(repo, "");
    assert_eq!(
        file,
        Some(
            "https://huggingface.co/lmstudio-community/Meta-Llama-3-8B-Instruct-GGUF/resolve/main/Meta-Llama-3-8B-Instruct-Q4_K_M.gguf"
                .to_string()
        )
    );
}

#[test]
fn test_basename_uses_second_segment_of_many() {
    let quant = Some("Q8_0".to_string());
    let (repo, file) = extract_hf_repo_and_file("a/b/c", &quant);
    assert_eq!(repo, "bartowski/b-GGUF");
    assert_eq!(file, Some("b-Q8_0.gguf".to_string()));
}
