//! The configuration the pipeline runs under. Reading it from the
//! environment and the command line happens outside the library; the
//! values themselves live here.

use vstd::prelude::*;

verus! {

/// The four values a run needs: the source locator, the API credential,
/// the model name, and the completion API's base URL.
#[derive(Debug, Clone)]
pub struct Config {
    pub url: String,
    pub api_key: String,
    pub model: String,
    pub base_url: String,
}

impl Config {
    /// A configuration holding exactly the given values.
    pub fn new(url: String, api_key: String, model: String, base_url: String) -> (r: Config)
        ensures
            r.url == url,
            r.api_key == api_key,
            r.model == model,
            r.base_url == base_url,
    {
        Config { url, api_key, model, base_url }
    }
}

} // verus!
