//! Model source resolution: maps a model identifier plus optional
//! quantization tag to a download source descriptor.
//!
//! With a quantization tag the source follows the dynamic naming convention
//! `bartowski/<basename>-GGUF` / `<basename>-<quant>.gguf`.  Without one the
//! source comes from a fixed catalog of known model identifiers, stored as
//! full resolved URLs (with an empty repository reference), falling back to
//! one default entry for unknown names.

use vstd::prelude::*;

verus! {

use vstd::string::*;
use crate::text::{first_index_of, find_char, str_eq};

/// The second `/`-delimited segment of `name` if one exists, else the whole
/// string.  This determines the external artifact's file name and therefore
/// the cache key.
pub open spec fn basename_of(name: Seq<char>) -> Seq<char> {
    let i = first_index_of(name, '/');
    if i == -1 {
        name
    } else {
        let rest = name.subrange(i + 1, name.len() as int);
        let j = first_index_of(rest, '/');
        if j == -1 {
            rest
        } else {
            rest.subrange(0, j)
        }
    }
}

/// Repository reference for a quantized selection.
pub open spec fn quant_repo(name: Seq<char>) -> Seq<char> {
    "bartowski/"@ + basename_of(name) + "-GGUF"@
}

/// File reference for a quantized selection.
pub open spec fn quant_file(name: Seq<char>, q: Seq<char>) -> Seq<char> {
    basename_of(name) + "-"@ + q + ".gguf"@
}

/// Catalog URL for a selection without a quantization tag; unknown names
/// fall back to the default entry.
pub open spec fn static_url(name: Seq<char>) -> Seq<char> {
    if name == "llama3-70b-instruct"@ {
        "https://huggingface.co/lmstudio-community/Meta-Llama-3-70B-Instruct-GGUF/resolve/main/Meta-Llama-3-70B-Instruct-Q4_K_M.gguf"@
    } else if name == "mixtral-8x7b-instruct"@ {
        "https://huggingface.co/TheBloke/Mixtral-8x7B-Instruct-v0.1-GGUF/resolve/main/mixtral-8x7b-instruct-v0.1.Q4_K_M.gguf"@
    } else if name == "llama3-8b-instruct"@ {
        "https://huggingface.co/lmstudio-community/Meta-Llama-3-8B-Instruct-GGUF/resolve/main/Meta-Llama-3-8B-Instruct-Q4_K_M.gguf"@
    } else if name == "phi3-mini"@ {
        "https://huggingface.co/microsoft/Phi-3-mini-4k-instruct-gguf/resolve/main/Phi-3-mini-4k-instruct-q4.gguf"@
    } else if name == "gemma-2b-it"@ {
        "https://huggingface.co/google/gemma-2b-it-GGUF/resolve/main/2b-it-v1.1-q4_k_m.gguf"@
    } else if name == "qwen2-7b-instruct"@ {
        "https://huggingface.co/Qwen/Qwen2-7B-Instruct-GGUF/resolve/main/qwen2-7b-instruct-q4_k_m.gguf"@
    } else if name == "mistral-7b-instruct"@ {
        "https://huggingface.co/TheBloke/Mistral-7B-Instruct-v0.2-GGUF/resolve/main/mistral-7b-instruct-v0.2.Q4_K_M.gguf"@
    } else {
        "https://huggingface.co/lmstudio-community/Meta-Llama-3-8B-Instruct-GGUF/resolve/main/Meta-Llama-3-8B-Instruct-Q4_K_M.gguf"@
    }
}

/// View of an optional quantization tag.
pub open spec fn opt_str_view(q: Option<String>) -> Option<Seq<char>> {
    match q {
        Some(s) => Some(s@),
        None => None,
    }
}

/// Repository reference of the resolved download target: the dynamic naming
/// convention when a quantization tag is present, empty otherwise (the
/// catalog stores full URLs).
pub open spec fn resolved_repo(name: Seq<char>, quant: Option<Seq<char>>) -> Seq<char> {
    match quant {
        Some(_) => quant_repo(name),
        None => Seq::<char>::empty(),
    }
}

/// File reference of the resolved download target: the quantized file name
/// when a quantization tag is present, else the catalog URL.
pub open spec fn resolved_file(name: Seq<char>, quant: Option<Seq<char>>) -> Seq<char> {
    match quant {
        Some(q) => quant_file(name, q),
        None => static_url(name),
    }
}

/// The repository reference is empty exactly when no quantization tag was
/// given: catalog entries carry a full URL in the file reference instead.
pub proof fn lemma_resolved_repo_empty(name: Seq<char>, quant: Option<Seq<char>>)
    ensures
        (resolved_repo(name, quant).len() == 0) <==> (quant is None),
{
    reveal_strlit("bartowski/");
    reveal_strlit("-GGUF");
}

/// Without a quantization tag every name — catalog identifiers and unknown
/// names alike, the latter through the default entry — resolves to an empty
/// repository reference and a fixed, non-empty file reference holding the
/// full artifact URL.
pub proof fn lemma_static_catalog_resolution(name: Seq<char>)
    ensures
        resolved_repo(name, None).len() == 0,
        resolved_file(name, None) == static_url(name),
        static_url(name).len() > 0,
{
    reveal_strlit(
        "https://huggingface.co/lmstudio-community/Meta-Llama-3-70B-Instruct-GGUF/resolve/main/Meta-Llama-3-70B-Instruct-Q4_K_M.gguf",
    );
    reveal_strlit(
        "https://huggingface.co/TheBloke/Mixtral-8x7B-Instruct-v0.1-GGUF/resolve/main/mixtral-8x7b-instruct-v0.1.Q4_K_M.gguf",
    );
    reveal_strlit(
        "https://huggingface.co/lmstudio-community/Meta-Llama-3-8B-Instruct-GGUF/resolve/main/Meta-Llama-3-8B-Instruct-Q4_K_M.gguf",
    );
    reveal_strlit(
        "https://huggingface.co/microsoft/Phi-3-mini-4k-instruct-gguf/resolve/main/Phi-3-mini-4k-instruct-q4.gguf",
    );
    reveal_strlit("https://huggingface.co/google/gemma-2b-it-GGUF/resolve/main/2b-it-v1.1-q4_k_m.gguf");
    reveal_strlit(
        "https://huggingface.co/Qwen/Qwen2-7B-Instruct-GGUF/resolve/main/qwen2-7b-instruct-q4_k_m.gguf",
    );
    reveal_strlit(
        "https://huggingface.co/TheBloke/Mistral-7B-Instruct-v0.2-GGUF/resolve/main/mistral-7b-instruct-v0.2.Q4_K_M.gguf",
    );
}

/// Returns the bare model basename of `name`: the part between the first
/// `/` and the next one (or the end), or all of `name` when it has no `/`.
fn basename<'a>(name: &'a str) -> (r: &'a str)
    ensures
        r@ == basename_of(name@),
{
    let n = name.unicode_len();
    match find_char(name, '/') {
        None => name,
        Some(i) => {
            proof {
                crate::text::lemma_first_index_of(name@, '/');
            }
            let rest = name.substring_char(i + 1, n);
            match find_char(rest, '/') {
                None => rest,
                Some(j) => {
                    proof {
                        crate::text::lemma_first_index_of(rest@, '/');
                    }
                    rest.substring_char(0, j)
                },
            }
        },
    }
}

/// Resolves one model selection to `(repoId, fileRef)`.
///
/// A present quantization tag always wins and takes the dynamic-naming path,
/// whether or not the name is in the catalog.  The file reference is always
/// present; the repository reference is empty exactly for catalog entries,
/// whose file reference holds a full URL to be treated as an opaque resource
/// handle.
pub fn extract_hf_repo_and_file(model_name: &str, quant: &Option<String>) -> (r: (
    String,
    Option<String>,
))
    ensures
        r.0@ == resolved_repo(model_name@, opt_str_view(*quant)),
        r.1 matches Some(f) && f@ == resolved_file(model_name@, opt_str_view(*quant)),
{
    match quant {
        Some(q) => {
            let base = basename(model_name);
            let mut repo = String::from_str("bartowski/");
            repo.append(base);
            repo.append("-GGUF");
            let mut file = String::from_str(base);
            file.append("-");
            file.append(q.as_str());
            file.append(".gguf");
            (repo, Some(file))
        },
        None => {
            let url: &str = if str_eq(model_name, "llama3-70b-instruct") {
                "https://huggingface.co/lmstudio-community/Meta-Llama-3-70B-Instruct-GGUF/resolve/main/Meta-Llama-3-70B-Instruct-Q4_K_M.gguf"
            } else if str_eq(model_name, "mixtral-8x7b-instruct") {
                "https://huggingface.co/TheBloke/Mixtral-8x7B-Instruct-v0.1-GGUF/resolve/main/mixtral-8x7b-instruct-v0.1.Q4_K_M.gguf"
            } else if str_eq(model_name, "llama3-8b-instruct") {
                "https://huggingface.co/lmstudio-community/Meta-Llama-3-8B-Instruct-GGUF/resolve/main/Meta-Llama-3-8B-Instruct-Q4_K_M.gguf"
            } else if str_eq(model_name, "phi3-mini") {
                "https://huggingface.co/microsoft/Phi-3-mini-4k-instruct-gguf/resolve/main/Phi-3-mini-4k-instruct-q4.gguf"
            } else if str_eq(model_name, "gemma-2b-it") {
                "https://huggingface.co/google/gemma-2b-it-GGUF/resolve/main/2b-it-v1.1-q4_k_m.gguf"
            } else if str_eq(model_name, "qwen2-7b-instruct") {
                "https://huggingface.co/Qwen/Qwen2-7B-Instruct-GGUF/resolve/main/qwen2-7b-instruct-q4_k_m.gguf"
            } else if str_eq(model_name, "mistral-7b-instruct") {
                "https://huggingface.co/TheBloke/Mistral-7B-Instruct-v0.2-GGUF/resolve/main/mistral-7b-instruct-v0.2.Q4_K_M.gguf"
            } else {
                "https://huggingface.co/lmstudio-community/Meta-Llama-3-8B-Instruct-GGUF/resolve/main/Meta-Llama-3-8B-Instruct-Q4_K_M.gguf"
            };
            (String::new(), Some(String::from_str(url)))
        },
    }
}

} // verus!
