//! The closed set of language-model backends, and the per-model name,
//! endpoint and credential rules.

use vstd::prelude::*;

use crate::shell::{spec_system_prompt, Shell};

verus! {

/// The model the generated command is requested from: one of the two fixed
/// OpenAI models, or a locally served model named by the user.
#[derive(Clone, Debug)]
pub enum Model {
    OpenAiGpt4o,
    OpenAiGpt4oMini,
    Ollama(String),
}

/// The mathematical shape of a model selection: the served-model name is a
/// character sequence.
pub enum ModelView {
    Gpt4o,
    Gpt4oMini,
    Ollama(Seq<char>),
}

impl View for Model {
    type V = ModelView;

    open spec fn view(&self) -> ModelView {
        match self {
            Model::OpenAiGpt4o => ModelView::Gpt4o,
            Model::OpenAiGpt4oMini => ModelView::Gpt4oMini,
            Model::Ollama(name) => ModelView::Ollama(name@),
        }
    }
}

/// The model name sent in the chat-completion request body.
pub open spec fn spec_model_name(m: Model) -> Seq<char> {
    match m {
        Model::OpenAiGpt4o => "gpt-4o"@,
        Model::OpenAiGpt4oMini => "gpt-4o-mini"@,
        Model::Ollama(name) => name@,
    }
}

/// The base URL of the chat-completion endpoint for a model.
pub open spec fn spec_endpoint(m: Model) -> Seq<char> {
    match m {
        Model::Ollama(_) => "http://localhost:11434/v1/"@,
        _ => "https://api.openai.com/v1/"@,
    }
}

impl Model {
    /// The model name placed in the request body.
    pub fn get_model_name(&self) -> (r: String)
        ensures
            r@ == spec_model_name(*self),
    {
        match self {
            Model::OpenAiGpt4o => "gpt-4o".to_owned(),
            Model::OpenAiGpt4oMini => "gpt-4o-mini".to_owned(),
            Model::Ollama(name) => name.clone(),
        }
    }

    /// The base URL the request is sent to: the fixed OpenAI endpoint, or the
    /// local endpoint for a user-served model.
    pub fn get_openai_endpoint(&self) -> (r: String)
        ensures
            r@ == spec_endpoint(*self),
    {
        match self {
            Model::Ollama(_) => "http://localhost:11434/v1/".to_owned(),
            _ => "https://api.openai.com/v1/".to_owned(),
        }
    }

    /// Whether a real credential must be read from the environment. A locally
    /// served model takes a fixed placeholder instead.
    pub fn requires_api_key(&self) -> (r: bool)
        ensures
            r == !(*self is Ollama),
    {
        match self {
            Model::Ollama(_) => false,
            _ => true,
        }
    }

    /// The system prompt sent together with the user's request.
    pub fn get_system_prompt(&self, shell: &Shell, os: &str) -> (r: String)
        ensures
            r@ == spec_system_prompt(*shell, os@),
    {
        shell.to_system_prompt(os)
    }
}

impl PartialEq for Model {
    fn eq(&self, other: &Model) -> (r: bool) {
        match (self, other) {
            (Model::OpenAiGpt4o, Model::OpenAiGpt4o) => true,
            (Model::OpenAiGpt4oMini, Model::OpenAiGpt4oMini) => true,
            (Model::Ollama(x), Model::Ollama(y)) => x.eq(y),
            _ => false,
        }
    }
}

impl vstd::std_specs::cmp::PartialEqSpecImpl for Model {
    open spec fn obeys_eq_spec() -> bool {
        true
    }

    open spec fn eq_spec(&self, other: &Model) -> bool {
        self@ == other@
    }
}

} // verus!
