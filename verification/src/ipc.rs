//! The broker's wire-level data model: the closed set of request and result
//! variants exchanged over the local endpoint, with ghost views for contracts.

use vstd::prelude::*;

verus! {

// ---------------------------------------------------------------------------
// Ghost views
// ---------------------------------------------------------------------------

/// Mathematical content of a chat completion request.
pub struct ChatRequestView {
    pub model_name: Seq<char>,
    pub system: Seq<char>,
    pub prompt: Seq<char>,
    pub completion_token_limit: u16,
}

/// Mathematical content of a text completion request.
pub struct TextRequestView {
    pub prompt: Seq<char>,
    pub completion_token_limit: u16,
}

/// Mathematical content of an embedding request.
pub struct EmbeddingRequestView {
    pub texts: Seq<Seq<char>>,
}

/// Mathematical content of a request.
pub enum RequestView {
    ChatCompletion(ChatRequestView),
    TextCompletion(TextRequestView),
    Embedding(EmbeddingRequestView),
}

/// Mathematical content of a chat completion result.
pub struct ChatResultView {
    pub result: Seq<char>,
    pub request: ChatRequestView,
}

/// Mathematical content of a text completion result.
pub struct TextResultView {
    pub result: Seq<char>,
    pub request: TextRequestView,
}

/// Mathematical content of an embedding result. Each vector component is the
/// bit pattern of an IEEE 754 single-precision number.
pub struct EmbeddingResultView {
    pub result: Seq<Seq<u32>>,
    pub request: EmbeddingRequestView,
}

/// Mathematical content of a result.
pub enum ResultView {
    ChatCompletion(ChatResultView),
    TextCompletion(TextResultView),
    Embedding(EmbeddingResultView),
}

// ---------------------------------------------------------------------------
// Requests
// ---------------------------------------------------------------------------

#[derive(Debug, Clone, PartialEq)]
pub struct OpenAIGPTChatCompletionRequest {
    pub model_name: String,
    pub system: String,
    pub prompt: String,
    pub completion_token_limit: u16,
}

impl View for OpenAIGPTChatCompletionRequest {
    type V = ChatRequestView;

    open spec fn view(&self) -> ChatRequestView {
        ChatRequestView {
            model_name: self.model_name@,
            system: self.system@,
            prompt: self.prompt@,
            completion_token_limit: self.completion_token_limit,
        }
    }
}

#[derive(Debug, Clone, PartialEq)]
pub struct OpenAIGPTTextCompletionRequest {
    pub prompt: String,
    pub completion_token_limit: u16,
}

impl View for OpenAIGPTTextCompletionRequest {
    type V = TextRequestView;

    open spec fn view(&self) -> TextRequestView {
        TextRequestView {
            prompt: self.prompt@,
            completion_token_limit: self.completion_token_limit,
        }
    }
}

#[derive(Debug, Clone, PartialEq)]
pub struct OpenAIGPTEmbeddingRequest {
    pub texts: Vec<String>,
}

impl View for OpenAIGPTEmbeddingRequest {
    type V = EmbeddingRequestView;

    open spec fn view(&self) -> EmbeddingRequestView {
        EmbeddingRequestView { texts: self.texts.deep_view() }
    }
}

/// A generation request: one of the closed set of variants the broker serves.
#[derive(Debug, Clone, PartialEq)]
pub enum OpenAIGPTRequest {
    ChatCompletionRequest(OpenAIGPTChatCompletionRequest),
    TextCompletionRequest(OpenAIGPTTextCompletionRequest),
    EmbeddingRequest(OpenAIGPTEmbeddingRequest),
}

impl View for OpenAIGPTRequest {
    type V = RequestView;

    open spec fn view(&self) -> RequestView {
        match self {
            OpenAIGPTRequest::ChatCompletionRequest(r) => RequestView::ChatCompletion(r@),
            OpenAIGPTRequest::TextCompletionRequest(r) => RequestView::TextCompletion(r@),
            OpenAIGPTRequest::EmbeddingRequest(r) => RequestView::Embedding(r@),
        }
    }
}

impl OpenAIGPTRequest {
    /// The deterministic structural fingerprint used as the cache key: a
    /// pinned 64-bit hash of the request's canonical encoding, the same in
    /// every process for field-for-field equal requests.
    pub fn get_hash(&self) -> (r: u64)
        ensures
            r == crate::fingerprint::spec_fingerprint(self@),
    {
        let bytes = crate::codec::encode_request(self);
        crate::fingerprint::fnv1a(bytes.as_slice())
    }
}

// ---------------------------------------------------------------------------
// Results
// ---------------------------------------------------------------------------

#[derive(Debug, Clone, PartialEq)]
pub struct OpenAIGPTChatCompletionResult {
    pub result: String,
    pub request: OpenAIGPTChatCompletionRequest,
}

impl View for OpenAIGPTChatCompletionResult {
    type V = ChatResultView;

    open spec fn view(&self) -> ChatResultView {
        ChatResultView { result: self.result@, request: self.request@ }
    }
}

#[derive(Debug, Clone, PartialEq)]
pub struct OpenAIGPTTextCompletionResult {
    pub result: String,
    pub request: OpenAIGPTTextCompletionRequest,
}

impl View for OpenAIGPTTextCompletionResult {
    type V = TextResultView;

    open spec fn view(&self) -> TextResultView {
        TextResultView { result: self.result@, request: self.request@ }
    }
}

/// An embedding result. Each component of a vector is carried as the bit
/// pattern of an IEEE 754 single-precision number, so the value round-trips
/// through the codec and the cache exactly.
#[derive(Debug, Clone, PartialEq)]
pub struct OpenAIGPTEmbeddingResult {
    pub result: Vec<Vec<u32>>,
    pub request: OpenAIGPTEmbeddingRequest,
}

impl View for OpenAIGPTEmbeddingResult {
    type V = EmbeddingResultView;

    open spec fn view(&self) -> EmbeddingResultView {
        EmbeddingResultView { result: self.result.deep_view(), request: self.request@ }
    }
}

/// A completed result: mirrors the request variants and retains the
/// originating request for audit.
#[derive(Debug, Clone, PartialEq)]
pub enum OpenAIGPTResult {
    ChatCompletionResult(OpenAIGPTChatCompletionResult),
    TextCompletionResult(OpenAIGPTTextCompletionResult),
    EmbeddingResult(OpenAIGPTEmbeddingResult),
}

impl View for OpenAIGPTResult {
    type V = ResultView;

    open spec fn view(&self) -> ResultView {
        match self {
            OpenAIGPTResult::ChatCompletionResult(r) => ResultView::ChatCompletion(r@),
            OpenAIGPTResult::TextCompletionResult(r) => ResultView::TextCompletion(r@),
            OpenAIGPTResult::EmbeddingResult(r) => ResultView::Embedding(r@),
        }
    }
}

} // verus!
