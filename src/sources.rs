//! Where a run's model and tokenizer come from: given paths, URLs to fetch, or defaults.
//! The fetching itself happens elsewhere; these are the decisions.

use vstd::prelude::*;
use crate::text::str_equal;

verus! {

/// The last path segment of `s` read as a URL; `None` when `s` is no URL or has no path
/// segments.
pub uninterp spec fn url_last_segment(s: Seq<char>) -> Option<Seq<char>>;

/// Relies on `url::Url::parse` to read `s`, and on `Url::path_segments` (its last item)
/// for the final path segment; the result depends on `s` alone.
#[verifier::external_body]
fn last_url_segment(s: &str) -> (r: Option<String>)
    ensures
        match r {
            Some(seg) => url_last_segment(s@) == Some(seg@),
            None => url_last_segment(s@) is None,
        },
{
    url::Url::parse(s).ok().and_then(|u| u.path_segments().and_then(|p| p.last()).map(|x| x.to_string()))
}

/// The file name a download is stored under: the URL's last path segment when it is not
/// empty, else `model.onnx`.
pub open spec fn filename_for(segment: Option<Seq<char>>) -> Seq<char> {
    match segment {
        Some(name) => if name.len() > 0 { name } else { "model.onnx"@ },
        None => "model.onnx"@,
    }
}

/// Picks the file name from a URL's last path segment; see `filename_for`.
pub fn filename_from_segment(segment: Option<String>) -> (r: String)
    ensures
        r@ == filename_for(match segment { Some(s) => Some(s@), None => None }),
{
    match segment {
        Some(name) => if name.as_str().is_empty() { "model.onnx".to_owned() } else { name },
        None => "model.onnx".to_owned(),
    }
}

/// The file name a download from `model_url` is stored under.
pub fn model_filename_from_url(model_url: &str) -> (r: String)
    ensures
        r@ == filename_for(url_last_segment(model_url@)),
{
    let seg = last_url_segment(model_url);
    filename_from_segment(seg)
}

/// Where the model comes from.
#[derive(Debug, PartialEq, Eq)]
pub enum ModelSource {
    /// The path given on the command line.
    Given,
    /// A download from this URL.
    Download(String),
    /// The default model, downloaded once.
    DefaultModel,
}

/// Where the tokenizer comes from.
#[derive(Debug, PartialEq, Eq)]
pub enum TokenizerSource {
    Given,
    Download(String),
    /// No tokenizer; the token ids were supplied.
    NotNeeded,
}

/// Why no source could be chosen.
#[derive(Clone, Copy, Debug, PartialEq, Eq, Structural)]
pub enum SourceError {
    /// The `cpu` or `ryzen-ai` backend needs a model path or a model URL.
    ModelRequired,
    /// A tokenizer is needed (no token ids were supplied), and none is given.
    TokenizerRequired,
}

/// Backends that have no default model and need one named.
pub open spec fn needs_model_url(backend: Seq<char>) -> bool {
    backend == "ryzen-ai"@ || backend == "cpu"@
}

/// The environment variable that may name a model URL for a backend.
pub fn model_url_variable(backend: &str) -> (r: Option<&'static str>)
    ensures
        needs_model_url(backend@) <==> r is Some,
{
    if str_equal(backend, "ryzen-ai") {
        Some("RYZEN_AI_MODEL_URL")
    } else if str_equal(backend, "cpu") {
        Some("CPU_MODEL_URL")
    } else {
        None
    }
}

/// Chooses the model source: the given path; else, for `cpu` and `ryzen-ai`, the URL
/// given or else the one from the environment (`env_url`), failing without either; else
/// the default model.
pub fn model_source(
    model_given: bool,
    model_url: Option<String>,
    env_url: Option<String>,
    backend: &str,
) -> (r: Result<ModelSource, SourceError>)
    ensures
        model_given ==> r == Ok::<ModelSource, SourceError>(ModelSource::Given),
        !model_given && !needs_model_url(backend@) ==> r == Ok::<ModelSource, SourceError>(ModelSource::DefaultModel),
        !model_given && needs_model_url(backend@) ==> match (model_url, env_url) {
            (Some(u), _) => r matches Ok(ModelSource::Download(d)) && d@ == u@,
            (None, Some(u)) => r matches Ok(ModelSource::Download(d)) && d@ == u@,
            (None, None) => r == Err::<ModelSource, SourceError>(SourceError::ModelRequired),
        },
{
    if model_given {
        return Ok(ModelSource::Given);
    }
    if str_equal(backend, "ryzen-ai") || str_equal(backend, "cpu") {
        match model_url {
            Some(u) => Ok(ModelSource::Download(u)),
            None => match env_url {
                Some(u) => Ok(ModelSource::Download(u)),
                None => Err(SourceError::ModelRequired),
            },
        }
    } else {
        Ok(ModelSource::DefaultModel)
    }
}

/// Chooses the tokenizer source: the given path; else the URL given, or for `cpu` the one
/// from the environment (`env_url`); else none, which fails when a tokenizer is needed.
pub fn tokenizer_source(
    tokenizer_given: bool,
    tokenizer_url: Option<String>,
    env_url: Option<String>,
    backend: &str,
    needs_tokenizer: bool,
) -> (r: Result<TokenizerSource, SourceError>)
    ensures
        tokenizer_given ==> r == Ok::<TokenizerSource, SourceError>(TokenizerSource::Given),
        !tokenizer_given ==> match tokenizer_url {
            Some(u) => r matches Ok(TokenizerSource::Download(d)) && d@ == u@,
            None => if backend@ == "cpu"@ && env_url is Some {
                r matches Ok(TokenizerSource::Download(d)) && d@ == env_url->0@
            } else if needs_tokenizer {
                r == Err::<TokenizerSource, SourceError>(SourceError::TokenizerRequired)
            } else {
                r == Ok::<TokenizerSource, SourceError>(TokenizerSource::NotNeeded)
            },
        },
{
    if tokenizer_given {
        return Ok(TokenizerSource::Given);
    }
    let url = match tokenizer_url {
        Some(u) => Some(u),
        None => if str_equal(backend, "cpu") { env_url } else { None },
    };
    match url {
        Some(u) => Ok(TokenizerSource::Download(u)),
        None => if needs_tokenizer {
            Err(SourceError::TokenizerRequired)
        } else {
            Ok(TokenizerSource::NotNeeded)
        },
    }
}

} // verus!
