use openai_gpt_broker::codec::{decode_request, decode_result, encode_request, encode_result};
use openai_gpt_broker::ipc::{
    OpenAIGPTChatCompletionRequest, OpenAIGPTChatCompletionResult, OpenAIGPTEmbeddingRequest,
    OpenAIGPTEmbeddingResult, OpenAIGPTRequest, OpenAIGPTResult, OpenAIGPTTextCompletionRequest,
    OpenAIGPTTextCompletionResult,
};

fn chat_request() -> OpenAIGPTRequest {
    OpenAIGPTRequest::ChatCompletionRequest(OpenAIGPTChatCompletionRequest {
        model_name: "gpt-4".to_string(),
        system: "You are a helpful assistant.".to_string(),
        prompt: "Summarize the proposal.".to_string(),
        completion_token_limit: 100,
    })
}

#[test]
fn chat_request_round_trip() {
    let req = chat_request();
    let bytes = encode_request(&req);
    let back = decode_request(&bytes).expect("encoding must decode");
    assert_eq!(back, req);
}

#[test]
fn text_request_round_trip() {
    let req = OpenAIGPTRequest::TextCompletionRequest(OpenAIGPTTextCompletionRequest {
        prompt: "hello".to_string(),
        completion_token_limit: 10,
    });
    let bytes = encode_request(&req);
    assert_eq!(decode_request(&bytes), Some(req));
}

#[test]
fn embedding_request_round_trip() {
    let req = OpenAIGPTRequest::EmbeddingRequest(OpenAIGPTEmbeddingRequest {
        texts: vec![
            "the fish has its journey to the moon.".to_string(),
            String::new(),
            "second text".to_string(),
        ],
    });
    let bytes = encode_request(&req);
    assert_eq!(decode_request(&bytes), Some(req));
}

#[test]
fn multibyte_text_round_trips() {
    let req = OpenAIGPTRequest::TextCompletionRequest(OpenAIGPTTextCompletionRequest {
        prompt: "caf\u{e9} \u{1f30d} na\u{ef}ve \u{4e2d}\u{6587}".to_string(),
        completion_token_limit: 7,
    });
    let bytes = encode_request(&req);
    assert_eq!(decode_request(&bytes), Some(req));
}

#[test]
fn empty_fields_round_trip() {
    let req = OpenAIGPTRequest::ChatCompletionRequest(OpenAIGPTChatCompletionRequest {
        model_name: String::new(),
        system: String::new(),
        prompt: String::new(),
        completion_token_limit: 1,
    });
    let bytes = encode_request(&req);
    assert_eq!(decode_request(&bytes), Some(req));
    let req2 = OpenAIGPTRequest::EmbeddingRequest(OpenAIGPTEmbeddingRequest { texts: vec![] });
    let bytes2 = encode_request(&req2);
    assert_eq!(decode_request(&bytes2), Some(req2));
}

#[test]
fn chat_result_round_trip() {
    let res = OpenAIGPTResult::ChatCompletionResult(OpenAIGPTChatCompletionResult {
        result: "All clear.".to_string(),
        request: OpenAIGPTChatCompletionRequest {
            model_name: "gpt-3.5-turbo".to_string(),
            system: "sys".to_string(),
            prompt: "ask".to_string(),
            completion_token_limit: 42,
        },
    });
    let bytes = encode_result(&res);
    assert_eq!(decode_result(&bytes), Some(res));
}

#[test]
fn text_result_round_trip() {
    let res = OpenAIGPTResult::TextCompletionResult(OpenAIGPTTextCompletionResult {
        result: "world".to_string(),
        request: OpenAIGPTTextCompletionRequest {
            prompt: "hello".to_string(),
            completion_token_limit: 10,
        },
    });
    let bytes = encode_result(&res);
    assert_eq!(decode_result(&bytes), Some(res));
}

#[test]
fn embedding_result_round_trip() {
    let res = OpenAIGPTResult::EmbeddingResult(OpenAIGPTEmbeddingResult {
        result: vec![
            vec![1.0f32.to_bits(), (-0.5f32).to_bits(), 3.25f32.to_bits()],
            vec![],
            vec![f32::INFINITY.to_bits()],
        ],
        request: OpenAIGPTEmbeddingRequest { texts: vec!["a".to_string(), "b".to_string()] },
    });
    let bytes = encode_result(&res);
    let back = decode_result(&bytes).expect("encoding must decode");
    assert_eq!(back, res);
    if let OpenAIGPTResult::EmbeddingResult(e) = back {
        assert_eq!(f32::from_bits(e.result[0][0]), 1.0f32);
        assert_eq!(f32::from_bits(e.result[0][1]), -0.5f32);
    } else {
        panic!("wrong variant");
    }
}

#[test]
fn empty_bytes_fail_to_decode() {
    assert_eq!(decode_request(&[]), None);
    assert_eq!(decode_result(&[]), None);
}

#[test]
fn unknown_tag_fails_to_decode() {
    // tag 7 names no variant
    let bytes = vec![7u8, 0, 0, 0];
    assert_eq!(decode_request(&bytes), None);
}

#[test]
fn truncated_bytes_fail_to_decode() {
    let req = chat_request();
    let bytes = encode_request(&req);
    for cut in [1, 4, 5, bytes.len() - 1] {
        assert_eq!(decode_request(&bytes[..cut]), None, "cut at {}", cut);
    }
}

#[test]
fn trailing_bytes_fail_to_decode() {
    let req = chat_request();
    let mut bytes = encode_request(&req);
    bytes.push(0);
    assert_eq!(decode_request(&bytes), None);
}

#[test]
fn invalid_utf8_fails_to_decode() {
    let req = OpenAIGPTRequest::TextCompletionRequest(OpenAIGPTTextCompletionRequest {
        prompt: "abcd".to_string(),
        completion_token_limit: 1,
    });
    let mut bytes = encode_request(&req);
    // the prompt bytes start after the tag and the length prefix
    bytes[12] = 0xff;
    assert_eq!(decode_request(&bytes), None);
}

#[test]
fn encoding_has_the_documented_layout() {
    // u32 tag, then per field: u64 UTF-8 byte length + bytes, u16 limit,
    // all little-endian
    let req = OpenAIGPTRequest::TextCompletionRequest(OpenAIGPTTextCompletionRequest {
        prompt: "hi".to_string(),
        completion_token_limit: 1,
    });
    let bytes = encode_request(&req);
    assert_eq!(bytes, vec![1, 0, 0, 0, 2, 0, 0, 0, 0, 0, 0, 0, 104, 105, 1, 0]);
}

#[test]
fn encoding_is_deterministic() {
    let a = encode_request(&chat_request());
    let b = encode_request(&chat_request());
    assert_eq!(a, b);
}
