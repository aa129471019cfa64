//! Backends a model can be run on, and the plain records passed to and from them.

use vstd::prelude::*;
use vstd::string::StringExecFns;
use crate::text::str_equal;

verus! {

/// Which model to run, from where, on which backend.
#[derive(Debug, Clone)]
pub struct ModelConfig {
    pub name: String,
    pub path: String,
    pub npu_backend: String,
}

/// The text a backend produced for a request.
#[derive(Debug, Clone)]
pub struct InferenceResponse {
    pub text: String,
}

/// The backend families a backend name selects.
#[derive(Clone, Copy, Debug, PartialEq, Eq, Structural)]
pub enum BackendKind {
    Cpu,
    RyzenAi,
    AmdXdna,
    Placeholder,
}

pub open spec fn backend_kind_of(name: Seq<char>) -> BackendKind {
    if name == "cpu"@ {
        BackendKind::Cpu
    } else if name == "ryzen-ai"@ {
        BackendKind::RyzenAi
    } else if name == "amd-xdna"@ {
        BackendKind::AmdXdna
    } else {
        BackendKind::Placeholder
    }
}

/// The backend family a name selects; an unknown name gets a placeholder backend.
pub fn backend_kind(name: &str) -> (r: BackendKind)
    ensures
        r == backend_kind_of(name@),
{
    if str_equal(name, "cpu") {
        BackendKind::Cpu
    } else if str_equal(name, "ryzen-ai") {
        BackendKind::RyzenAi
    } else if str_equal(name, "amd-xdna") {
        BackendKind::AmdXdna
    } else {
        BackendKind::Placeholder
    }
}

/// A backend that runs nothing and echoes the prompt under its name.
pub struct PlaceholderNpuBackend {
    backend_name: String,
}

impl PlaceholderNpuBackend {
    pub closed spec fn spec_name(&self) -> Seq<char> {
        self.backend_name@
    }

    pub fn new(name: String) -> (r: PlaceholderNpuBackend)
        ensures
            r.spec_name() == name@,
    {
        PlaceholderNpuBackend { backend_name: name }
    }

    pub fn name(&self) -> (r: &str)
        ensures
            r@ == self.spec_name(),
    {
        self.backend_name.as_str()
    }

    pub fn is_available(&self) -> (r: bool)
        ensures
            r,
    {
        true
    }

    /// `[placeholder:<name>] <prompt>`.
    pub fn run(&self, prompt: &str) -> (r: InferenceResponse)
        ensures
            r.text@ == "[placeholder:"@ + self.spec_name() + "] "@ + prompt@,
    {
        let mut text = "[placeholder:".to_owned();
        text.append(self.backend_name.as_str());
        text.append("] ");
        text.append(prompt);
        InferenceResponse { text }
    }
}

/// The AMD XDNA backend, which so far echoes the prompt.
pub struct AmdXdnaBackend {
    backend_name: String,
}

impl AmdXdnaBackend {
    pub closed spec fn spec_name(&self) -> Seq<char> {
        self.backend_name@
    }

    pub fn new() -> (r: AmdXdnaBackend)
        ensures
            r.spec_name() == "amd-xdna"@,
    {
        AmdXdnaBackend { backend_name: "amd-xdna".to_owned() }
    }

    pub fn name(&self) -> (r: &str)
        ensures
            r@ == self.spec_name(),
    {
        self.backend_name.as_str()
    }

    pub fn is_available(&self) -> (r: bool)
        ensures
            r,
    {
        true
    }

    /// `[amd-xdna:placeholder] <prompt>`.
    pub fn run(&self, prompt: &str) -> (r: InferenceResponse)
        ensures
            r.text@ == "[amd-xdna:placeholder] "@ + prompt@,
    {
        let mut text = "[amd-xdna:placeholder] ".to_owned();
        text.append(prompt);
        InferenceResponse { text }
    }
}

} // verus!
