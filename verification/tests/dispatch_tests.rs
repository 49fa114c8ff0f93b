use openai_gpt_broker::cache::load_store;
use openai_gpt_broker::chat_completion::{ChatCompletion, Choice as ChatChoice, Message};
use openai_gpt_broker::codec::{decode_result, encode_request};
use openai_gpt_broker::embedding::{Embedding, EmbeddingData, Usage};
use openai_gpt_broker::ipc::{
    OpenAIGPTChatCompletionRequest, OpenAIGPTEmbeddingRequest, OpenAIGPTRequest,
    OpenAIGPTResult, OpenAIGPTTextCompletionRequest,
};
use openai_gpt_broker::service::{
    chat_provider_outcome, embedding_provider_outcome, finalize, output_screened,
    process_request, prompt_screened, text_provider_outcome, BrokerError, DispatchStep,
    OutcomeStep, OutputStep, PromptStep, RateLimiter,
};
use openai_gpt_broker::text_completion::{Choice as TextChoice, TextCompletion};

fn unique(tag: &str) -> String {
    let nanos = std::time::SystemTime::now()
        .duration_since(std::time::UNIX_EPOCH)
        .unwrap()
        .as_nanos();
    format!("{} {}", tag, nanos)
}

/// The stubbed screening collaborator: flags any input containing "UNSAFE".
fn screen_stub(text: &str) -> bool {
    text.contains("UNSAFE")
}

fn usage(prompt: i64, completion: i64, total: i64) -> Usage {
    Usage { prompt_tokens: prompt, completion_tokens: Some(completion), total_tokens: total }
}

fn text_completion_stub(text: &str, total_tokens: i64) -> TextCompletion {
    TextCompletion {
        id: "cmpl-1".to_string(),
        object: "text_completion".to_string(),
        created: 0,
        model: "stub".to_string(),
        choices: vec![TextChoice {
            text: text.to_string(),
            index: 0,
            logprobs: None,
            finish_reason: "stop".to_string(),
        }],
        usage: usage(2, total_tokens - 2, total_tokens),
    }
}

fn text_request(prompt: &str, limit: u16) -> OpenAIGPTRequest {
    OpenAIGPTRequest::TextCompletionRequest(OpenAIGPTTextCompletionRequest {
        prompt: prompt.to_string(),
        completion_token_limit: limit,
    })
}

#[test]
fn end_to_end_text_completion_then_cache_hit() {
    let mut store = load_store("/tmp/openai_gpt_broker_test_e2e").unwrap();
    let mut limiter = RateLimiter::new(25_000_000_000, 3_600_000, 0);
    let mut provider_calls = 0u32;

    // scenario: submit a text completion request against a provider stub
    // returning {text:"world", usage:5}
    let prompt = unique("hello");
    let request = text_request(&prompt, 10);
    let bytes = encode_request(&request);

    let step = process_request(&store, &mut limiter, 1, &bytes);
    let pending = match step {
        DispatchStep::ScreenPrompt(p) => p,
        other => panic!("expected a prompt screen, got {:?}", other),
    };
    assert_eq!(provider_calls, 0);

    assert!(!screen_stub(&prompt));
    let call = match prompt_screened(pending, false) {
        PromptStep::CallProvider(c) => c,
        other => panic!("expected a provider call, got {:?}", other),
    };

    provider_calls += 1;
    let outcome = Ok(text_completion_stub("world", 5));
    let pending_output = match text_provider_outcome(call, outcome) {
        OutcomeStep::ScreenOutput(po) => po,
        other => panic!("expected an output screen, got {:?}", other),
    };
    assert_eq!(pending_output.output, "world");

    let completed = match output_screened(pending_output, false) {
        OutputStep::Finalize(c) => c,
        other => panic!("expected a finalize, got {:?}", other),
    };
    let reply = finalize(&mut store, &mut limiter, completed);

    // expect Result{text:"world"} and the budget decreased by 5 tokens at the
    // text completion rate: 5 * 20_000 nano-dollars
    match decode_result(&reply) {
        Some(OpenAIGPTResult::TextCompletionResult(r)) => {
            assert_eq!(r.result, "world");
            assert_eq!(r.request.prompt, prompt);
        },
        other => panic!("expected a text completion result, got {:?}", other),
    }
    assert_eq!(limiter.remaining_budget, 25_000_000_000 - 100_000);
    assert_eq!(provider_calls, 1);

    // scenario: submit the same request a second time; expect the identical
    // reply from the cache, no second provider call, no second debit
    let step2 = process_request(&store, &mut limiter, 2, &bytes);
    match step2 {
        DispatchStep::Reply(reply2) => assert_eq!(reply2, reply),
        other => panic!("expected a cached reply, got {:?}", other),
    }
    assert_eq!(provider_calls, 1);
    assert_eq!(limiter.remaining_budget, 25_000_000_000 - 100_000);
}

#[test]
fn zero_ceiling_rejects_every_cache_miss() {
    let store = load_store("/tmp/openai_gpt_broker_test_zero_ceiling").unwrap();
    let mut limiter = RateLimiter::new(0, 3_600_000, 0);
    let provider_calls = 0u32;

    let request = text_request(&unique("anything"), 10);
    let bytes = encode_request(&request);
    let step = process_request(&store, &mut limiter, 1, &bytes);
    assert_eq!(step, DispatchStep::Reject(BrokerError::RateExceededError));
    assert_eq!(provider_calls, 0);
}

#[test]
fn unsafe_prompt_never_reaches_the_provider() {
    let store = load_store("/tmp/openai_gpt_broker_test_unsafe_prompt").unwrap();
    let mut limiter = RateLimiter::new(25_000_000_000, 3_600_000, 0);
    let provider_calls = 0u32;

    let prompt = unique("UNSAFE request");
    let request = text_request(&prompt, 10);
    let bytes = encode_request(&request);
    let pending = match process_request(&store, &mut limiter, 1, &bytes) {
        DispatchStep::ScreenPrompt(p) => p,
        other => panic!("expected a prompt screen, got {:?}", other),
    };
    assert!(screen_stub(&prompt));
    let step = prompt_screened(pending, true);
    assert_eq!(step, PromptStep::Reject(BrokerError::UnsafePromptError));
    assert_eq!(provider_calls, 0);
}

#[test]
fn unsafe_output_fails_after_one_provider_call() {
    let store = load_store("/tmp/openai_gpt_broker_test_unsafe_output").unwrap();
    let mut limiter = RateLimiter::new(25_000_000_000, 3_600_000, 0);
    let mut provider_calls = 0u32;

    let prompt = unique("clean prompt");
    let request = text_request(&prompt, 10);
    let bytes = encode_request(&request);
    let pending = match process_request(&store, &mut limiter, 1, &bytes) {
        DispatchStep::ScreenPrompt(p) => p,
        other => panic!("expected a prompt screen, got {:?}", other),
    };
    assert!(!screen_stub(&prompt));
    let call = match prompt_screened(pending, false) {
        PromptStep::CallProvider(c) => c,
        other => panic!("expected a provider call, got {:?}", other),
    };

    provider_calls += 1;
    let outcome = Ok(text_completion_stub("UNSAFE output", 5));
    let pending_output = match text_provider_outcome(call, outcome) {
        OutcomeStep::ScreenOutput(po) => po,
        other => panic!("expected an output screen, got {:?}", other),
    };
    assert!(screen_stub(&pending_output.output));
    let step = output_screened(pending_output, true);
    assert_eq!(step, OutputStep::Reject(BrokerError::UnsafeResultError));
    assert_eq!(provider_calls, 1);

    // the flagged result was not cached and the budget was not debited
    assert_eq!(limiter.remaining_budget, 25_000_000_000);
    match process_request(&store, &mut limiter, 2, &bytes) {
        DispatchStep::ScreenPrompt(_) => (),
        other => panic!("expected a fresh miss, got {:?}", other),
    }
}

#[test]
fn chat_flow_debits_prompt_and_completion_separately() {
    let mut store = load_store("/tmp/openai_gpt_broker_test_chat").unwrap();
    let mut limiter = RateLimiter::new(25_000_000_000, 3_600_000, 0);

    let prompt = unique("describe the proposal");
    let request = OpenAIGPTRequest::ChatCompletionRequest(OpenAIGPTChatCompletionRequest {
        model_name: "gpt-4".to_string(),
        system: "You are a helpful assistant.".to_string(),
        prompt: prompt.clone(),
        completion_token_limit: 100,
    });
    let bytes = encode_request(&request);
    let pending = match process_request(&store, &mut limiter, 1, &bytes) {
        DispatchStep::ScreenPrompt(p) => p,
        other => panic!("expected a prompt screen, got {:?}", other),
    };
    let call = match prompt_screened(pending, false) {
        PromptStep::CallProvider(c) => c,
        other => panic!("expected a provider call, got {:?}", other),
    };
    let completion = ChatCompletion {
        id: "chat-1".to_string(),
        object: "chat.completion".to_string(),
        created: 0,
        choices: vec![ChatChoice {
            index: 0,
            message: Message { role: "assistant".to_string(), content: "An answer.".to_string() },
            finish_reason: "stop".to_string(),
        }],
        usage: usage(10, 20, 30),
    };
    let pending_output = match chat_provider_outcome(call, Ok(completion)) {
        OutcomeStep::ScreenOutput(po) => po,
        other => panic!("expected an output screen, got {:?}", other),
    };
    let completed = match output_screened(pending_output, false) {
        OutputStep::Finalize(c) => c,
        other => panic!("expected a finalize, got {:?}", other),
    };
    let reply = finalize(&mut store, &mut limiter, completed);
    match decode_result(&reply) {
        Some(OpenAIGPTResult::ChatCompletionResult(r)) => {
            assert_eq!(r.result, "An answer.");
            assert_eq!(r.request.model_name, "gpt-4");
        },
        other => panic!("expected a chat completion result, got {:?}", other),
    }
    // gpt-4: 10 prompt tokens at 30_000 plus 20 completion tokens at 60_000
    assert_eq!(limiter.remaining_budget, 25_000_000_000 - 300_000 - 1_200_000);
}

#[test]
fn unknown_chat_model_is_a_configuration_error() {
    let store = load_store("/tmp/openai_gpt_broker_test_unknown_model").unwrap();
    let mut limiter = RateLimiter::new(25_000_000_000, 3_600_000, 0);
    let request = OpenAIGPTRequest::ChatCompletionRequest(OpenAIGPTChatCompletionRequest {
        model_name: "gpt-2".to_string(),
        system: "sys".to_string(),
        prompt: unique("prompt"),
        completion_token_limit: 5,
    });
    let bytes = encode_request(&request);
    let step = process_request(&store, &mut limiter, 1, &bytes);
    assert_eq!(step, DispatchStep::Reject(BrokerError::UnknownModelError));
}

#[test]
fn malformed_bytes_are_a_decode_error() {
    let store = load_store("/tmp/openai_gpt_broker_test_malformed").unwrap();
    let mut limiter = RateLimiter::new(25_000_000_000, 3_600_000, 0);
    let step = process_request(&store, &mut limiter, 1, &[1, 2, 3]);
    assert_eq!(step, DispatchStep::Reject(BrokerError::DecodeError));
    assert_eq!(limiter.remaining_budget, 25_000_000_000);
}

#[test]
fn empty_completion_is_an_empty_result_error() {
    let store = load_store("/tmp/openai_gpt_broker_test_empty").unwrap();
    let mut limiter = RateLimiter::new(25_000_000_000, 3_600_000, 0);
    let request = text_request(&unique("prompt"), 10);
    let bytes = encode_request(&request);
    let pending = match process_request(&store, &mut limiter, 1, &bytes) {
        DispatchStep::ScreenPrompt(p) => p,
        other => panic!("expected a prompt screen, got {:?}", other),
    };
    let call = match prompt_screened(pending, false) {
        PromptStep::CallProvider(c) => c,
        other => panic!("expected a provider call, got {:?}", other),
    };
    let mut empty = text_completion_stub("ignored", 5);
    empty.choices.clear();
    let step = text_provider_outcome(call, Ok(empty));
    assert_eq!(step, OutcomeStep::Reject(BrokerError::EmptyResultError));
    // a failed call is not debited
    assert_eq!(limiter.remaining_budget, 25_000_000_000);
}

#[test]
fn provider_failure_is_propagated_verbatim() {
    let store = load_store("/tmp/openai_gpt_broker_test_provider_err").unwrap();
    let mut limiter = RateLimiter::new(25_000_000_000, 3_600_000, 0);
    let request = text_request(&unique("prompt"), 10);
    let bytes = encode_request(&request);
    let pending = match process_request(&store, &mut limiter, 1, &bytes) {
        DispatchStep::ScreenPrompt(p) => p,
        other => panic!("expected a prompt screen, got {:?}", other),
    };
    let call = match prompt_screened(pending, false) {
        PromptStep::CallProvider(c) => c,
        other => panic!("expected a provider call, got {:?}", other),
    };
    let step = text_provider_outcome(call, Err("connection refused".to_string()));
    match step {
        OutcomeStep::Reject(BrokerError::ProviderError(m)) => {
            assert_eq!(m, "connection refused");
        },
        other => panic!("expected a provider error, got {:?}", other),
    }
}

#[test]
fn embedding_flow_skips_screening_and_keeps_vectors() {
    let mut store = load_store("/tmp/openai_gpt_broker_test_embedding").unwrap();
    let mut limiter = RateLimiter::new(25_000_000_000, 3_600_000, 0);
    let request = OpenAIGPTRequest::EmbeddingRequest(OpenAIGPTEmbeddingRequest {
        texts: vec![unique("this is a test")],
    });
    let bytes = encode_request(&request);
    let call = match process_request(&store, &mut limiter, 1, &bytes) {
        DispatchStep::CallProvider(c) => c,
        other => panic!("expected a provider call, got {:?}", other),
    };
    let data = EmbeddingData {
        object: "list".to_string(),
        data: vec![Embedding {
            object: "embedding".to_string(),
            index: 0,
            embedding: vec![0.25f32.to_bits(), (-1.5f32).to_bits()],
        }],
        model: "text-embedding-ada-002".to_string(),
        usage: Usage { prompt_tokens: 7, completion_tokens: None, total_tokens: 7 },
    };
    let completed = match embedding_provider_outcome(call, Ok(data)) {
        OutcomeStep::Finalize(c) => c,
        other => panic!("expected a finalize, got {:?}", other),
    };
    let reply = finalize(&mut store, &mut limiter, completed);
    match decode_result(&reply) {
        Some(OpenAIGPTResult::EmbeddingResult(e)) => {
            assert_eq!(e.result.len(), 1);
            assert_eq!(f32::from_bits(e.result[0][0]), 0.25f32);
            assert_eq!(f32::from_bits(e.result[0][1]), -1.5f32);
        },
        other => panic!("expected an embedding result, got {:?}", other),
    }
    // 7 tokens at the embedding rate: 7 * 400 nano-dollars
    assert_eq!(limiter.remaining_budget, 25_000_000_000 - 2_800);
}

#[test]
fn error_descriptions_match_their_variants() {
    assert_eq!(BrokerError::RateExceededError.describe(), "Error: Rate Exceeded!");
    assert_eq!(BrokerError::UnsafePromptError.describe(), "Error: prompt unsafe!");
    assert_eq!(BrokerError::UnsafeResultError.describe(), "Error: result unsafe!");
    assert_eq!(BrokerError::EmptyResultError.describe(), "Error: completion empty!");
    assert_eq!(BrokerError::ProviderError("boom".to_string()).describe(), "boom");
}

#[test]
fn turbo_chat_is_debited_flat_over_total_tokens() {
    let mut store = load_store("/tmp/openai_gpt_broker_test_turbo").unwrap();
    let mut limiter = RateLimiter::new(25_000_000_000, 3_600_000, 0);
    let request = OpenAIGPTRequest::ChatCompletionRequest(OpenAIGPTChatCompletionRequest {
        model_name: "gpt-3.5-turbo".to_string(),
        system: "sys".to_string(),
        prompt: unique("cheap question"),
        completion_token_limit: 50,
    });
    let bytes = encode_request(&request);
    let pending = match process_request(&store, &mut limiter, 1, &bytes) {
        DispatchStep::ScreenPrompt(p) => p,
        other => panic!("expected a prompt screen, got {:?}", other),
    };
    let call = match prompt_screened(pending, false) {
        PromptStep::CallProvider(c) => c,
        other => panic!("expected a provider call, got {:?}", other),
    };
    let completion = ChatCompletion {
        id: "chat-2".to_string(),
        object: "chat.completion".to_string(),
        created: 0,
        choices: vec![ChatChoice {
            index: 0,
            message: Message { role: "assistant".to_string(), content: "ok".to_string() },
            finish_reason: "stop".to_string(),
        }],
        usage: usage(4, 6, 10),
    };
    let pending_output = match chat_provider_outcome(call, Ok(completion)) {
        OutcomeStep::ScreenOutput(po) => po,
        other => panic!("expected an output screen, got {:?}", other),
    };
    let completed = match output_screened(pending_output, false) {
        OutputStep::Finalize(c) => c,
        other => panic!("expected a finalize, got {:?}", other),
    };
    finalize(&mut store, &mut limiter, completed);
    // gpt-3.5-turbo: 10 total tokens at 2_000 nano-dollars each
    assert_eq!(limiter.remaining_budget, 25_000_000_000 - 20_000);
}

#[test]
fn large_context_chat_uses_its_own_rates() {
    let mut store = load_store("/tmp/openai_gpt_broker_test_32k").unwrap();
    let mut limiter = RateLimiter::new(25_000_000_000, 3_600_000, 0);
    let request = OpenAIGPTRequest::ChatCompletionRequest(OpenAIGPTChatCompletionRequest {
        model_name: "gpt-4-32k".to_string(),
        system: "sys".to_string(),
        prompt: unique("long question"),
        completion_token_limit: 200,
    });
    let bytes = encode_request(&request);
    let pending = match process_request(&store, &mut limiter, 1, &bytes) {
        DispatchStep::ScreenPrompt(p) => p,
        other => panic!("expected a prompt screen, got {:?}", other),
    };
    let call = match prompt_screened(pending, false) {
        PromptStep::CallProvider(c) => c,
        other => panic!("expected a provider call, got {:?}", other),
    };
    let completion = ChatCompletion {
        id: "chat-3".to_string(),
        object: "chat.completion".to_string(),
        created: 0,
        choices: vec![ChatChoice {
            index: 0,
            message: Message { role: "assistant".to_string(), content: "long".to_string() },
            finish_reason: "stop".to_string(),
        }],
        usage: usage(100, 50, 150),
    };
    let pending_output = match chat_provider_outcome(call, Ok(completion)) {
        OutcomeStep::ScreenOutput(po) => po,
        other => panic!("expected an output screen, got {:?}", other),
    };
    let completed = match output_screened(pending_output, false) {
        OutputStep::Finalize(c) => c,
        other => panic!("expected a finalize, got {:?}", other),
    };
    finalize(&mut store, &mut limiter, completed);
    // gpt-4-32k: 100 prompt tokens at 60_000 plus 50 completion tokens at 120_000
    assert_eq!(limiter.remaining_budget, 25_000_000_000 - 6_000_000 - 6_000_000);
}

#[test]
fn exhausted_budget_recovers_through_the_dispatcher() {
    let store = load_store("/tmp/openai_gpt_broker_test_recover").unwrap();
    // ceiling 1000 nano-dollars, window 1000 ms
    let mut limiter = RateLimiter::new(1000, 1000, 0);
    limiter.update_rate_limit(1, 1000);
    assert_eq!(limiter.remaining_budget, 0);

    let request = text_request(&unique("after the window"), 10);
    let bytes = encode_request(&request);
    // refused within the window
    let step = process_request(&store, &mut limiter, 500, &bytes);
    assert_eq!(step, DispatchStep::Reject(BrokerError::RateExceededError));
    // granted once the window has elapsed, with the budget back at the ceiling
    match process_request(&store, &mut limiter, 1001, &bytes) {
        DispatchStep::ScreenPrompt(_) => (),
        other => panic!("expected a prompt screen, got {:?}", other),
    }
    assert_eq!(limiter.remaining_budget, 1000);
}
