//! Download coordination: guarantees that each selection's weight artifact
//! is present in the local content cache before the server starts.
//!
//! The cache lookups and transfers themselves are the download client's
//! work, reached through the trusted declarations below; this module's
//! verified logic decides which selections the batch covers and how a
//! failure is attributed.

use vstd::prelude::*;

verus! {

use vstd::string::*;
use hf_hub::api::sync::{Api, ApiBuilder, ApiRepo};
use crate::selection::ModelSelection;
use crate::resolver::{extract_hf_repo_and_file, lemma_resolved_repo_empty};

/// Declares hf_hub's ApiBuilder so it can appear in signatures; opaque here.
#[verifier::external_type_specification]
#[verifier::external_body]
pub struct ExApiBuilder(ApiBuilder);

/// Declares hf_hub's Api so it can appear in signatures; opaque here.
#[verifier::external_type_specification]
#[verifier::external_body]
pub struct ExApi(Api);

/// Declares hf_hub's ApiRepo so it can appear in signatures; opaque here.
#[verifier::external_type_specification]
#[verifier::external_body]
pub struct ExApiRepo(ApiRepo);

/// Relies on hf_hub's ApiBuilder::new: a fresh client builder.
#[verifier::external_body]
fn api_builder_new() -> ApiBuilder {
    ApiBuilder::new()
}

/// Relies on hf_hub's ApiBuilder::with_cache_dir: scopes the client to the
/// given content cache directory.
#[verifier::external_body]
fn api_builder_with_cache_dir(b: ApiBuilder, dir: &String) -> ApiBuilder {
    b.with_cache_dir(std::path::PathBuf::from(dir.clone()))
}

/// Relies on hf_hub's ApiBuilder::build: the configured client, or the
/// error text when it cannot be created.
#[verifier::external_body]
fn api_build(b: ApiBuilder) -> Result<Api, String> {
    match b.build() {
        Ok(a) => Ok(a),
        Err(e) => Err(format!("{}", e)),
    }
}

/// Relies on hf_hub's Api::model: the handle for one model repository.
#[verifier::external_body]
fn api_model(api: &Api, repo_id: String) -> ApiRepo {
    api.model(repo_id)
}

/// Relies on hf_hub's ApiRepo::get: returns the already-cached file at
/// once, else downloads and verifies it.  Whether it succeeds depends on
/// the cache and the network; on failure the client's error text comes
/// back.
#[verifier::external_body]
fn repo_get(repo: &ApiRepo, filename: &String) -> Result<(), String> {
    match repo.get(filename.as_str()) {
        Ok(_) => Ok(()),
        Err(e) => Err(format!("{}", e)),
    }
}

/// Why the batch download failed.
#[derive(Debug, PartialEq, Eq)]
pub enum DownloadError {
    /// The cache-scoped download client could not be created.
    CacheInit(String),
    /// Fetching one model's weights failed: the model's name and the
    /// client's diagnostic.
    Fetch { model: String, detail: String },
}

/// How one model's fetch outcome is reported: success passes through, a
/// failure is attributed to the model that caused it.
pub open spec fn fetch_outcome(model: String, outcome: Result<(), String>) -> Result<
    (),
    DownloadError,
> {
    match outcome {
        Ok(_) => Ok(()),
        Err(d) => Err(DownloadError::Fetch { model: model, detail: d }),
    }
}

/// Tags a fetch failure with the model it belongs to.
pub fn record_fetch_outcome(model: &String, outcome: Result<(), String>) -> (r: Result<
    (),
    DownloadError,
>)
    ensures
        r == fetch_outcome(*model, outcome),
{
    match outcome {
        Ok(_) => Ok(()),
        Err(d) => Err(DownloadError::Fetch { model: model.clone(), detail: d }),
    }
}

/// Verifies-or-fetches the weight artifact of every selection that resolves
/// to a structured repository reference, in input order, into the content
/// cache under `models_dir`.  The first failure aborts the batch.
///
/// A selection whose resolved repository reference is empty — a catalog
/// entry storing a full URL — is skipped by this batch path and left for
/// the serving engine to fetch itself.
///
/// A fetch failure always names one of the given selections, and only a
/// quantized selection (the kind this batch covers) can be named.
pub fn download_models(models: &Vec<ModelSelection>, models_dir: &String) -> (r: Result<
    (),
    DownloadError,
>)
    ensures
        r matches Err(DownloadError::Fetch { model, detail }) ==> exists|i: int|
            0 <= i < models@.len() && (#[trigger] models@[i])@.name == model@ && models@[i]@.quant
                is Some,
{
    let b = api_builder_new();
    let b = api_builder_with_cache_dir(b, models_dir);
    let api = match api_build(b) {
        Ok(a) => a,
        Err(d) => {
            return Err(DownloadError::CacheInit(d));
        },
    };
    let n = models.len();
    for k in 0..n
        invariant
            n == models@.len(),
    {
        let m = &models[k];
        let (repo, file) = extract_hf_repo_and_file(m.name.as_str(), &m.quant);
        if !repo.as_str().is_empty() {
            proof {
                lemma_resolved_repo_empty(m@.name, m@.quant);
            }
            if let Some(file_name) = file {
                let repo_api = api_model(&api, repo);
                match record_fetch_outcome(&m.name, repo_get(&repo_api, &file_name)) {
                    Ok(_) => {},
                    Err(e) => {
                        proof {
                            assert(models@[k as int]@.name == m@.name);
                        }
                        return Err(e);
                    },
                }
            }
        }
    }
    Ok(())
}

} // verus!
