//! The broker's cost accounting: per-model prices and the rolling-window
//! rate limiter that gates every non-cached provider call.
//!
//! Money is carried in nano-dollars (10^-9 dollars) so that all accounting is
//! exact integer arithmetic. A price is stored in nano-dollars per token,
//! which is the same number as micro-dollars per 1000 tokens.

use vstd::prelude::*;
use crate::cache::{HashValueStore, store_contents};
use crate::chat_completion::ChatCompletion;
use crate::codec::{spec_dec_request, spec_dec_result, spec_enc_result};
use crate::embedding::{EmbeddingData, Usage, spec_embedding_vectors};
use crate::fingerprint::spec_fingerprint;
use crate::ipc::{OpenAIGPTRequest, OpenAIGPTResult, OpenAIGPTChatCompletionResult,
    OpenAIGPTTextCompletionResult, OpenAIGPTEmbeddingResult, RequestView, ResultView,
    ChatResultView, TextResultView, EmbeddingResultView};
use crate::text_completion::TextCompletion;

verus! {

/// Price of a gpt-4 completion token: 0.06 dollars per 1000 tokens.
pub const GPT_4_8K_PRICE_PER_1K_TOKEN_COMPLETION: u32 = 60_000;

/// Price of a gpt-4 prompt token: 0.03 dollars per 1000 tokens.
pub const GPT_4_8K_PRICE_PER_1K_TOKEN_PROMPT: u32 = 30_000;

/// Price of a gpt-4-32k completion token: 0.12 dollars per 1000 tokens.
pub const GPT_4_32K_PRICE_PER_1K_TOKEN_COMPLETION: u32 = 120_000;

/// Price of a gpt-4-32k prompt token: 0.06 dollars per 1000 tokens.
pub const GPT_4_32K_PRICE_PER_1K_TOKEN_PROMPT: u32 = 60_000;

/// Price of a text completion token: 0.02 dollars per 1000 tokens.
pub const DAVINCI_PRICE_PER_1K_TOKEN: u32 = 20_000;

/// Price of a gpt-3.5-turbo token: 0.002 dollars per 1000 tokens.
pub const GPT_3_5_TURBO_PRICE_PER_1K_TOKEN: u32 = 2_000;

/// Price of an embedding token: 0.0004 dollars per 1000 tokens.
pub const ADA_EMBEDDING_PRICE_PER_1K_TOKEN: u32 = 400;

/// Default budget ceiling: 25 dollars per window, in nano-dollars.
pub const DEFAULT_MAX_COSTS: i128 = 25_000_000_000;

/// Default rolling window: 30 days, in milliseconds.
pub const DEFAULT_WINDOW_MS: u64 = 2_592_000_000;

/// Process-wide rate limiter state: remaining spend within a rolling window.
/// All monetary fields are nano-dollars; times are caller-supplied
/// milliseconds on a monotonic clock.
#[derive(Debug, Clone, PartialEq)]
pub struct RateLimiter {
    /// Budget ceiling per window.
    pub max_costs: i128,
    /// Length of the rolling window.
    pub duration_ms: u64,
    /// Remaining spend; may go negative, which keeps every call refused
    /// until the window rolls over.
    pub remaining_budget: i128,
    /// When the current window started.
    pub last_check: u64,
}

/// The rolling window has elapsed at `now_ms`.
pub open spec fn spec_window_elapsed(s: RateLimiter, now_ms: u64) -> bool {
    now_ms > s.last_check + s.duration_ms
}

/// The limiter state after a gate check at `now_ms`: the budget resets to the
/// ceiling exactly when the window has elapsed; otherwise nothing changes.
pub open spec fn spec_after_rate_limit(s: RateLimiter, now_ms: u64) -> RateLimiter {
    if spec_window_elapsed(s, now_ms) {
        RateLimiter { remaining_budget: s.max_costs, last_check: now_ms, ..s }
    } else {
        s
    }
}

/// Whether a gate check at `now_ms` grants the call.
pub open spec fn spec_allows(s: RateLimiter, now_ms: u64) -> bool {
    spec_after_rate_limit(s, now_ms).remaining_budget > 0
}

/// Cost of a debit in nano-dollars.
pub open spec fn spec_debit_cost(tokens_used: u64, price_per_1k_token: u32) -> int {
    tokens_used * price_per_1k_token
}

/// The limiter state after a debit: the cost is deducted without clamping at
/// zero (saturating only at the far bottom of the machine range).
pub open spec fn spec_after_debit(s: RateLimiter, tokens_used: u64, price_per_1k_token: u32) -> RateLimiter {
    let cost = spec_debit_cost(tokens_used, price_per_1k_token);
    if s.remaining_budget - cost >= i128::MIN {
        RateLimiter { remaining_budget: (s.remaining_budget - cost) as i128, ..s }
    } else {
        RateLimiter { remaining_budget: i128::MIN, ..s }
    }
}

impl RateLimiter {
    /// A fresh limiter: full budget, window starting now.
    pub fn new(max_costs: i128, duration_ms: u64, now_ms: u64) -> (r: RateLimiter)
        ensures
            r == (RateLimiter {
                max_costs,
                duration_ms,
                remaining_budget: max_costs,
                last_check: now_ms,
            }),
    {
        RateLimiter { max_costs, duration_ms, remaining_budget: max_costs, last_check: now_ms }
    }

    /// Gate check: reset the budget if the window has elapsed, then grant
    /// exactly when the remaining budget is positive.
    pub fn rate_limit(&mut self, now_ms: u64) -> (allowed: bool)
        ensures
            *final(self) == spec_after_rate_limit(*old(self), now_ms),
            allowed == spec_allows(*old(self), now_ms),
    {
        if now_ms > self.last_check && now_ms - self.last_check > self.duration_ms {
            self.remaining_budget = self.max_costs;
            self.last_check = now_ms;
        }
        self.remaining_budget > 0
    }

    /// Debit the true cost of a completed call from the remaining budget.
    /// The budget only ever decreases here; it may go negative.
    pub fn update_rate_limit(&mut self, tokens_used: u64, price_per_1k_token: u32)
        ensures
            *final(self) == spec_after_debit(*old(self), tokens_used, price_per_1k_token),
            final(self).remaining_budget <= old(self).remaining_budget,
    {
        proof {
            vstd::arithmetic::mul::lemma_mul_upper_bound(
                tokens_used as int,
                0xffff_ffff_ffff_ffffu64 as int,
                price_per_1k_token as int,
                0xffff_ffffu32 as int,
            );
            vstd::arithmetic::mul::lemma_mul_nonnegative(
                tokens_used as int,
                price_per_1k_token as int,
            );
        }
        let cost: i128 = (tokens_used as i128) * (price_per_1k_token as i128);
        if self.remaining_budget >= i128::MIN + cost {
            self.remaining_budget = self.remaining_budget - cost;
        } else {
            self.remaining_budget = i128::MIN;
        }
    }
}

/// The limiter the service starts with: a 25 dollar ceiling over a 30 day
/// rolling window.
pub fn load_rate_limiter(now_ms: u64) -> (r: RateLimiter)
    ensures
        r == (RateLimiter {
            max_costs: DEFAULT_MAX_COSTS,
            duration_ms: DEFAULT_WINDOW_MS,
            remaining_budget: DEFAULT_MAX_COSTS,
            last_check: now_ms,
        }),
{
    RateLimiter::new(DEFAULT_MAX_COSTS, DEFAULT_WINDOW_MS, now_ms)
}

// ---------------------------------------------------------------------------
// Rate limiting law
// ---------------------------------------------------------------------------

/// The limiter state after a sequence of debits.
pub open spec fn spec_apply_debits(s: RateLimiter, debits: Seq<(u64, u32)>) -> RateLimiter
    decreases debits.len(),
{
    if debits.len() == 0 {
        s
    } else {
        spec_apply_debits(spec_after_debit(s, debits[0].0, debits[0].1), debits.drop_first())
    }
}

/// Total cost of a sequence of debits in nano-dollars.
pub open spec fn spec_total_cost(debits: Seq<(u64, u32)>) -> int
    decreases debits.len(),
{
    if debits.len() == 0 {
        0int
    } else {
        spec_debit_cost(debits[0].0, debits[0].1) + spec_total_cost(debits.drop_first())
    }
}

proof fn lemma_apply_debits_props(s: RateLimiter, debits: Seq<(u64, u32)>)
    ensures
        spec_apply_debits(s, debits).max_costs == s.max_costs,
        spec_apply_debits(s, debits).duration_ms == s.duration_ms,
        spec_apply_debits(s, debits).last_check == s.last_check,
        spec_total_cost(debits) >= 0,
        spec_apply_debits(s, debits).remaining_budget <= s.remaining_budget - spec_total_cost(
            debits,
        ) || spec_apply_debits(s, debits).remaining_budget <= 0,
    decreases debits.len(),
{
    if debits.len() == 0 {
    } else {
        let c0 = spec_debit_cost(debits[0].0, debits[0].1);
        vstd::arithmetic::mul::lemma_mul_nonnegative(debits[0].0 as int, debits[0].1 as int);
        let s1 = spec_after_debit(s, debits[0].0, debits[0].1);
        lemma_apply_debits_props(s1, debits.drop_first());
        assert(i128::MIN < 0);
    }
}

/// Rate limiting law: once debits totaling at least the remaining budget have
/// been applied, every check made within the window is refused; the
/// first check past the window's end grants again (given a positive ceiling)
/// and restores the remaining budget to the ceiling.
pub proof fn lemma_budget_window(
    s: RateLimiter,
    debits: Seq<(u64, u32)>,
    now_refuse: u64,
    now_reset: u64,
)
    requires
        spec_total_cost(debits) >= s.remaining_budget,
        now_refuse <= s.last_check + s.duration_ms,
        now_reset > s.last_check + s.duration_ms,
        s.max_costs > 0,
    ensures
        !spec_allows(spec_apply_debits(s, debits), now_refuse),
        spec_allows(spec_apply_debits(s, debits), now_reset),
        spec_after_rate_limit(spec_apply_debits(s, debits), now_reset).remaining_budget
            == s.max_costs,
{
    lemma_apply_debits_props(s, debits);
}

// ---------------------------------------------------------------------------
// Dispatcher
// ---------------------------------------------------------------------------

/// Everything a request can fail with above the transport layer.
#[derive(Debug, Clone, PartialEq)]
pub enum BrokerError {
    /// The wire bytes, or a stale cache entry, did not decode.
    DecodeError,
    /// The rolling budget is exhausted; no provider call was made.
    RateExceededError,
    /// Screening flagged the prompt; no provider call was made.
    UnsafePromptError,
    /// Screening flagged the provider's output.
    UnsafeResultError,
    /// The provider returned no choices.
    EmptyResultError,
    /// The provider call failed; the collaborator's message verbatim.
    ProviderError(String),
    /// No price is on file for the requested model.
    UnknownModelError,
    /// The durable cache could not be read.
    CacheError,
}

impl BrokerError {
    /// A human-readable line for logs.
    pub fn describe(&self) -> (r: String)
        ensures
            self is DecodeError ==> r@ == "Error: could not decode!"@,
            self is RateExceededError ==> r@ == "Error: Rate Exceeded!"@,
            self is UnsafePromptError ==> r@ == "Error: prompt unsafe!"@,
            self is UnsafeResultError ==> r@ == "Error: result unsafe!"@,
            self is EmptyResultError ==> r@ == "Error: completion empty!"@,
            self matches BrokerError::ProviderError(m) ==> r@ == m@,
            self is UnknownModelError ==> r@ == "Error: unknown model!"@,
            self is CacheError ==> r@ == "Error: cache unavailable!"@,
    {
        match self {
            BrokerError::DecodeError => "Error: could not decode!".to_owned(),
            BrokerError::RateExceededError => "Error: Rate Exceeded!".to_owned(),
            BrokerError::UnsafePromptError => "Error: prompt unsafe!".to_owned(),
            BrokerError::UnsafeResultError => "Error: result unsafe!".to_owned(),
            BrokerError::EmptyResultError => "Error: completion empty!".to_owned(),
            BrokerError::ProviderError(m) => m.clone(),
            BrokerError::UnknownModelError => "Error: unknown model!".to_owned(),
            BrokerError::CacheError => "Error: cache unavailable!".to_owned(),
        }
    }
}

/// How a completed call is debited: one flat rate over total tokens, or
/// prompt and completion tokens at their own rates.
#[derive(Debug, Clone, Copy, PartialEq)]
pub enum DebitPlan {
    Flat { price_per_1k_token: u32 },
    Split { prompt_price: u32, completion_price: u32 },
}

/// The debit plan for a chat model; nothing for an unrecognized model, which
/// is a configuration error for that request path.
pub open spec fn spec_chat_plan(model: Seq<char>) -> Option<DebitPlan> {
    if model == "gpt-4"@ {
        Some(
            DebitPlan::Split {
                prompt_price: GPT_4_8K_PRICE_PER_1K_TOKEN_PROMPT,
                completion_price: GPT_4_8K_PRICE_PER_1K_TOKEN_COMPLETION,
            },
        )
    } else if model == "gpt-4-32k"@ {
        Some(
            DebitPlan::Split {
                prompt_price: GPT_4_32K_PRICE_PER_1K_TOKEN_PROMPT,
                completion_price: GPT_4_32K_PRICE_PER_1K_TOKEN_COMPLETION,
            },
        )
    } else if model == "gpt-3.5-turbo"@ {
        Some(DebitPlan::Flat { price_per_1k_token: GPT_3_5_TURBO_PRICE_PER_1K_TOKEN })
    } else {
        None
    }
}

/// The debit plan of a request.
pub open spec fn spec_plan_for(v: RequestView) -> Option<DebitPlan> {
    match v {
        RequestView::ChatCompletion(c) => spec_chat_plan(c.model_name),
        RequestView::TextCompletion(_) => Some(
            DebitPlan::Flat { price_per_1k_token: DAVINCI_PRICE_PER_1K_TOKEN },
        ),
        RequestView::Embedding(_) => Some(
            DebitPlan::Flat { price_per_1k_token: ADA_EMBEDDING_PRICE_PER_1K_TOKEN },
        ),
    }
}

/// A decoded cache-miss request whose prompt still has to be screened.
#[derive(Debug, Clone, PartialEq)]
pub struct PendingPrompt {
    pub request: OpenAIGPTRequest,
    pub hash: u64,
    pub plan: DebitPlan,
}

/// A cleared request waiting on its provider call.
#[derive(Debug, Clone, PartialEq)]
pub struct PendingCall {
    pub request: OpenAIGPTRequest,
    pub hash: u64,
    pub plan: DebitPlan,
}

/// A successful result, its debits computed, waiting to be persisted and
/// returned.
#[derive(Debug, Clone, PartialEq)]
pub struct Completed {
    pub result: OpenAIGPTResult,
    pub hash: u64,
    pub debits: Vec<(u64, u32)>,
}

/// A provider output whose text still has to be screened.
#[derive(Debug, Clone, PartialEq)]
pub struct PendingOutput {
    pub output: String,
    pub completed: Completed,
}

/// What the dispatcher decides from the raw request bytes alone.
#[derive(Debug, Clone, PartialEq)]
pub enum DispatchStep {
    /// The encoded result to send back (a cache hit).
    Reply(Vec<u8>),
    /// The exchange fails with this error.
    Reject(BrokerError),
    /// Screen this request's prompt, then continue.
    ScreenPrompt(PendingPrompt),
    /// Call the provider for this request (no prompt to screen).
    CallProvider(PendingCall),
}

/// What the dispatcher decides once the prompt screening verdict is in.
#[derive(Debug, Clone, PartialEq)]
pub enum PromptStep {
    Reject(BrokerError),
    CallProvider(PendingCall),
}

/// What the dispatcher decides once the provider call has returned.
#[derive(Debug, Clone, PartialEq)]
pub enum OutcomeStep {
    Reject(BrokerError),
    /// Screen the output text, then continue.
    ScreenOutput(PendingOutput),
    /// Nothing left to screen: debit, persist, reply.
    Finalize(Completed),
}

/// What the dispatcher decides once the output screening verdict is in.
#[derive(Debug, Clone, PartialEq)]
pub enum OutputStep {
    Reject(BrokerError),
    Finalize(Completed),
}

/// Tokens as reported by the provider, read as a count: a negative report
/// counts as zero.
pub open spec fn spec_tokens(x: i64) -> u64 {
    if x >= 0 {
        x as u64
    } else {
        0
    }
}

fn tokens_of(x: i64) -> (r: u64)
    ensures
        r == spec_tokens(x),
{
    if x >= 0 {
        x as u64
    } else {
        0
    }
}

/// The debits owed for a completed call under a plan, given its usage.
pub open spec fn spec_completion_debits(plan: DebitPlan, usage: Usage) -> Seq<(u64, u32)> {
    match plan {
        DebitPlan::Flat { price_per_1k_token } => seq![
            (spec_tokens(usage.total_tokens), price_per_1k_token),
        ],
        DebitPlan::Split { prompt_price, completion_price } => seq![
            (spec_tokens(usage.prompt_tokens), prompt_price),
            (
                spec_tokens(
                    match usage.completion_tokens {
                        Some(t) => t,
                        None => 0,
                    },
                ),
                completion_price,
            ),
        ],
    }
}

fn completion_debits(plan: DebitPlan, usage: Usage) -> (r: Vec<(u64, u32)>)
    ensures
        r@ == spec_completion_debits(plan, usage),
{
    match plan {
        DebitPlan::Flat { price_per_1k_token } => {
            let out = vec![(tokens_of(usage.total_tokens), price_per_1k_token)];
            proof {
                assert(out@ =~= spec_completion_debits(plan, usage));
            }
            out
        },
        DebitPlan::Split { prompt_price, completion_price } => {
            let completion = match usage.completion_tokens {
                Some(t) => t,
                None => 0,
            };
            let out = vec![
                (tokens_of(usage.prompt_tokens), prompt_price),
                (tokens_of(completion), completion_price),
            ];
            proof {
                assert(out@ =~= spec_completion_debits(plan, usage));
            }
            out
        },
    }
}

/// Idempotence law: the bytes that the last dispatch stage persists under a
/// fingerprint decode back to the very result they encode, and re-encode to
/// the same bytes. So a later identical request, answered from the cache,
/// replies with bytes identical to the first reply; and on a cache hit the
/// first dispatch stage leaves the limiter untouched and asks for no
/// provider call (see the contract of `process_request`).
pub proof fn lemma_cached_reply_identical(res: ResultView)
    requires
        crate::codec::result_wf(res),
    ensures
        spec_dec_result(spec_enc_result(res)) == Some(res),
        spec_enc_result(spec_dec_result(spec_enc_result(res))->Some_0) == spec_enc_result(res),
{
    crate::codec::lemma_result_round_trip(res);
}

/// First dispatch stage. Decode the bytes, look the fingerprint up in the
/// durable cache, and on a miss ask the rate limiter; a granted miss hands
/// back what the caller must do next (screen a prompt, or call the provider
/// directly for an embedding request).
pub fn process_request(
    store: &HashValueStore,
    limiter: &mut RateLimiter,
    now_ms: u64,
    bytes: &[u8],
) -> (step: DispatchStep)
    ensures
        spec_dec_request(bytes@) is None ==> step == DispatchStep::Reject(
            BrokerError::DecodeError,
        ),
        step matches DispatchStep::Reject(e) ==> (e is DecodeError || e is RateExceededError
            || e is UnknownModelError || e is CacheError),
        step matches DispatchStep::Reply(reply) ==> (spec_dec_request(bytes@) matches Some(v)
            && store_contents(store).contains_key(spec_fingerprint(v)) && (spec_dec_result(
            store_contents(store)[spec_fingerprint(v)],
        ) matches Some(res) && reply@ == spec_enc_result(res))),
        (step matches DispatchStep::Reply(_) || step == DispatchStep::Reject(
            BrokerError::DecodeError,
        ) || step == DispatchStep::Reject(BrokerError::CacheError)) ==> *final(limiter) == *old(
            limiter,
        ),
        step == DispatchStep::Reject(BrokerError::RateExceededError) ==> (spec_dec_request(
            bytes@,
        ) matches Some(v) && !store_contents(store).contains_key(spec_fingerprint(v))
            && !spec_allows(*old(limiter), now_ms) && *final(limiter) == spec_after_rate_limit(
            *old(limiter),
            now_ms,
        )),
        step matches DispatchStep::ScreenPrompt(p) ==> (spec_dec_request(bytes@) matches Some(v)
            && p.request@ == v && p.hash == spec_fingerprint(v) && spec_plan_for(v) == Some(
            p.plan,
        ) && (v is ChatCompletion || v is TextCompletion) && !store_contents(
            store,
        ).contains_key(p.hash) && spec_allows(*old(limiter), now_ms) && *final(limiter)
            == spec_after_rate_limit(*old(limiter), now_ms)),
        step matches DispatchStep::CallProvider(p) ==> (spec_dec_request(bytes@) matches Some(v)
            && p.request@ == v && p.hash == spec_fingerprint(v) && spec_plan_for(v) == Some(
            p.plan,
        ) && v is Embedding && !store_contents(store).contains_key(p.hash) && spec_allows(
            *old(limiter),
            now_ms,
        ) && *final(limiter) == spec_after_rate_limit(*old(limiter), now_ms)),
        step == DispatchStep::Reject(BrokerError::UnknownModelError) ==> (spec_dec_request(
            bytes@,
        ) matches Some(v) && spec_plan_for(v) is None && !store_contents(store).contains_key(
            spec_fingerprint(v),
        ) && spec_allows(*old(limiter), now_ms) && *final(limiter) == spec_after_rate_limit(
            *old(limiter),
            now_ms,
        )),
        step == DispatchStep::Reject(BrokerError::DecodeError) ==> (spec_dec_request(bytes@)
            is None || (spec_dec_request(bytes@) matches Some(v) && store_contents(
            store,
        ).contains_key(spec_fingerprint(v)) && spec_dec_result(
            store_contents(store)[spec_fingerprint(v)],
        ) is None)),
        spec_dec_request(bytes@) matches Some(v) ==> ((store_contents(store).contains_key(
            spec_fingerprint(v),
        ) && spec_dec_result(store_contents(store)[spec_fingerprint(v)]) is Some) ==> (
        step matches DispatchStep::Reply(_) || step == DispatchStep::Reject(
            BrokerError::CacheError,
        ))),
        spec_dec_request(bytes@) matches Some(v) ==> ((store_contents(store).contains_key(
            spec_fingerprint(v),
        ) && spec_dec_result(store_contents(store)[spec_fingerprint(v)]) is None) ==> (step
            == DispatchStep::Reject(BrokerError::DecodeError) || step == DispatchStep::Reject(
            BrokerError::CacheError,
        ))),
        spec_dec_request(bytes@) matches Some(v) ==> ((!store_contents(store).contains_key(
            spec_fingerprint(v),
        ) && !spec_allows(*old(limiter), now_ms)) ==> (step == DispatchStep::Reject(
            BrokerError::RateExceededError,
        ) || step == DispatchStep::Reject(BrokerError::CacheError))),
        spec_dec_request(bytes@) matches Some(v) ==> ((!store_contents(store).contains_key(
            spec_fingerprint(v),
        ) && spec_allows(*old(limiter), now_ms) && spec_plan_for(v) is None) ==> (step
            == DispatchStep::Reject(BrokerError::UnknownModelError) || step
            == DispatchStep::Reject(BrokerError::CacheError))),
        spec_dec_request(bytes@) matches Some(v) ==> ((!store_contents(store).contains_key(
            spec_fingerprint(v),
        ) && spec_allows(*old(limiter), now_ms) && spec_plan_for(v) is Some && (
        v is ChatCompletion || v is TextCompletion)) ==> (step matches DispatchStep::ScreenPrompt(
            _,
        ) || step == DispatchStep::Reject(BrokerError::CacheError))),
        spec_dec_request(bytes@) matches Some(v) ==> ((!store_contents(store).contains_key(
            spec_fingerprint(v),
        ) && spec_allows(*old(limiter), now_ms) && v is Embedding) ==> (
        step matches DispatchStep::CallProvider(_) || step == DispatchStep::Reject(
            BrokerError::CacheError,
        ))),
{
    let request = match crate::codec::decode_request(bytes) {
        None => {
            return DispatchStep::Reject(BrokerError::DecodeError);
        },
        Some(r) => r,
    };
    let hash = request.get_hash();
    match store.get_item_by_hash(hash) {
        Err(_) => {
            return DispatchStep::Reject(BrokerError::CacheError);
        },
        Ok(Some(stored)) => {
            match crate::codec::decode_result(stored.as_slice()) {
                None => {
                    return DispatchStep::Reject(BrokerError::DecodeError);
                },
                Some(res) => {
                    return DispatchStep::Reply(crate::codec::encode_result(&res));
                },
            }
        },
        Ok(None) => (),
    }
    if !limiter.rate_limit(now_ms) {
        return DispatchStep::Reject(BrokerError::RateExceededError);
    }
    match &request {
        OpenAIGPTRequest::ChatCompletionRequest(c) => {
            let plan = if c.model_name == "gpt-4".to_owned() {
                DebitPlan::Split {
                    prompt_price: GPT_4_8K_PRICE_PER_1K_TOKEN_PROMPT,
                    completion_price: GPT_4_8K_PRICE_PER_1K_TOKEN_COMPLETION,
                }
            } else if c.model_name == "gpt-4-32k".to_owned() {
                DebitPlan::Split {
                    prompt_price: GPT_4_32K_PRICE_PER_1K_TOKEN_PROMPT,
                    completion_price: GPT_4_32K_PRICE_PER_1K_TOKEN_COMPLETION,
                }
            } else if c.model_name == "gpt-3.5-turbo".to_owned() {
                DebitPlan::Flat { price_per_1k_token: GPT_3_5_TURBO_PRICE_PER_1K_TOKEN }
            } else {
                return DispatchStep::Reject(BrokerError::UnknownModelError);
            };
            DispatchStep::ScreenPrompt(PendingPrompt { request, hash, plan })
        },
        OpenAIGPTRequest::TextCompletionRequest(_) => DispatchStep::ScreenPrompt(
            PendingPrompt {
                request,
                hash,
                plan: DebitPlan::Flat { price_per_1k_token: DAVINCI_PRICE_PER_1K_TOKEN },
            },
        ),
        OpenAIGPTRequest::EmbeddingRequest(_) => DispatchStep::CallProvider(
            PendingCall {
                request,
                hash,
                plan: DebitPlan::Flat { price_per_1k_token: ADA_EMBEDDING_PRICE_PER_1K_TOKEN },
            },
        ),
    }
}

/// Second dispatch stage, for chat and text requests: fold in the prompt
/// screening verdict. A flagged prompt fails the request before any provider
/// call; a clear one moves on to the provider.
pub fn prompt_screened(p: PendingPrompt, flagged: bool) -> (step: PromptStep)
    ensures
        flagged ==> step == PromptStep::Reject(BrokerError::UnsafePromptError),
        !flagged ==> step == PromptStep::CallProvider(
            PendingCall { request: p.request, hash: p.hash, plan: p.plan },
        ),
{
    if flagged {
        PromptStep::Reject(BrokerError::UnsafePromptError)
    } else {
        PromptStep::CallProvider(PendingCall { request: p.request, hash: p.hash, plan: p.plan })
    }
}

/// Third dispatch stage for chat requests: fold in the provider's outcome.
/// A failure is propagated verbatim; an empty completion fails; otherwise the
/// first choice's content moves on to output screening, carrying the debits
/// owed for the reported usage.
pub fn chat_provider_outcome(p: PendingCall, outcome: Result<ChatCompletion, String>) -> (step:
    OutcomeStep)
    requires
        p.request is ChatCompletionRequest,
    ensures
        outcome matches Err(m) ==> step == OutcomeStep::Reject(BrokerError::ProviderError(m)),
        outcome matches Ok(c) ==> (c.choices@.len() == 0 ==> step == OutcomeStep::Reject(
            BrokerError::EmptyResultError,
        )),
        outcome matches Ok(c) ==> (c.choices@.len() > 0 ==> (step matches OutcomeStep::ScreenOutput(po)
            && po.output@ == c.choices@[0].message.content@ && po.completed.hash == p.hash
            && po.completed.debits@ == spec_completion_debits(p.plan, c.usage)
            && po.completed.result@ == ResultView::ChatCompletion(
            ChatResultView {
                result: c.choices@[0].message.content@,
                request: p.request@->ChatCompletion_0,
            },
        ))),
{
    match outcome {
        Err(m) => OutcomeStep::Reject(BrokerError::ProviderError(m)),
        Ok(c) => {
            match c.first_message_content() {
                None => OutcomeStep::Reject(BrokerError::EmptyResultError),
                Some(content) => {
                    let chat_request = match p.request {
                        OpenAIGPTRequest::ChatCompletionRequest(r) => r,
                        _ => vstd::pervasive::unreached(),
                    };
                    let debits = completion_debits(p.plan, c.usage);
                    let result = OpenAIGPTResult::ChatCompletionResult(
                        OpenAIGPTChatCompletionResult {
                            result: content.clone(),
                            request: chat_request,
                        },
                    );
                    OutcomeStep::ScreenOutput(
                        PendingOutput {
                            output: content,
                            completed: Completed { result, hash: p.hash, debits },
                        },
                    )
                },
            }
        },
    }
}

/// Third dispatch stage for text requests: as for chat, with the first
/// choice's text.
pub fn text_provider_outcome(p: PendingCall, outcome: Result<TextCompletion, String>) -> (step:
    OutcomeStep)
    requires
        p.request is TextCompletionRequest,
    ensures
        outcome matches Err(m) ==> step == OutcomeStep::Reject(BrokerError::ProviderError(m)),
        outcome matches Ok(c) ==> (c.choices@.len() == 0 ==> step == OutcomeStep::Reject(
            BrokerError::EmptyResultError,
        )),
        outcome matches Ok(c) ==> (c.choices@.len() > 0 ==> (step matches OutcomeStep::ScreenOutput(po)
            && po.output@ == c.choices@[0].text@ && po.completed.hash == p.hash
            && po.completed.debits@ == spec_completion_debits(p.plan, c.usage)
            && po.completed.result@ == ResultView::TextCompletion(
            TextResultView {
                result: c.choices@[0].text@,
                request: p.request@->TextCompletion_0,
            },
        ))),
{
    match outcome {
        Err(m) => OutcomeStep::Reject(BrokerError::ProviderError(m)),
        Ok(c) => {
            match c.first_text() {
                None => OutcomeStep::Reject(BrokerError::EmptyResultError),
                Some(content) => {
                    let text_request = match p.request {
                        OpenAIGPTRequest::TextCompletionRequest(r) => r,
                        _ => vstd::pervasive::unreached(),
                    };
                    let debits = completion_debits(p.plan, c.usage);
                    let result = OpenAIGPTResult::TextCompletionResult(
                        OpenAIGPTTextCompletionResult {
                            result: content.clone(),
                            request: text_request,
                        },
                    );
                    OutcomeStep::ScreenOutput(
                        PendingOutput {
                            output: content,
                            completed: Completed { result, hash: p.hash, debits },
                        },
                    )
                },
            }
        },
    }
}

/// Third dispatch stage for embedding requests: no text output, so no output
/// screening; a success is ready to finalize at once.
pub fn embedding_provider_outcome(p: PendingCall, outcome: Result<EmbeddingData, String>) -> (step:
    OutcomeStep)
    requires
        p.request is EmbeddingRequest,
    ensures
        outcome matches Err(m) ==> step == OutcomeStep::Reject(BrokerError::ProviderError(m)),
        outcome matches Ok(d) ==> (step matches OutcomeStep::Finalize(c) && c.hash == p.hash
            && c.debits@ == spec_completion_debits(p.plan, d.usage) && c.result@
            == ResultView::Embedding(
            EmbeddingResultView {
                result: spec_embedding_vectors(d),
                request: p.request@->Embedding_0,
            },
        )),
{
    match outcome {
        Err(m) => OutcomeStep::Reject(BrokerError::ProviderError(m)),
        Ok(d) => {
            let embedding_request = match p.request {
                OpenAIGPTRequest::EmbeddingRequest(r) => r,
                _ => vstd::pervasive::unreached(),
            };
            let vectors = d.vectors();
            let debits = completion_debits(p.plan, d.usage);
            let result = OpenAIGPTResult::EmbeddingResult(
                OpenAIGPTEmbeddingResult { result: vectors, request: embedding_request },
            );
            OutcomeStep::Finalize(Completed { result, hash: p.hash, debits })
        },
    }
}

/// Fourth dispatch stage, for chat and text requests: fold in the output
/// screening verdict. A flagged output fails the request: nothing is debited
/// and nothing is cached.
pub fn output_screened(p: PendingOutput, flagged: bool) -> (step: OutputStep)
    ensures
        flagged ==> step == OutputStep::Reject(BrokerError::UnsafeResultError),
        !flagged ==> step == OutputStep::Finalize(p.completed),
{
    if flagged {
        OutputStep::Reject(BrokerError::UnsafeResultError)
    } else {
        OutputStep::Finalize(p.completed)
    }
}

/// Last dispatch stage: debit the limiter with the call's true cost, persist
/// the encoded result best-effort (a cache write failure never fails the
/// request), and hand back the encoded reply.
pub fn finalize(store: &mut HashValueStore, limiter: &mut RateLimiter, c: Completed) -> (reply:
    Vec<u8>)
    ensures
        reply@ == spec_enc_result(c.result@),
        *final(limiter) == spec_apply_debits(*old(limiter), c.debits@),
        store_contents(final(store)) == store_contents(old(store)).insert(
            c.hash,
            spec_enc_result(c.result@),
        ) || store_contents(final(store)) == store_contents(old(store)),
{
    let ghost all = c.debits@;
    let mut i: usize = 0;
    proof {
        assert(all.skip(0) =~= all);
    }
    while i < c.debits.len()
        invariant
            i <= c.debits@.len(),
            all == c.debits@,
            spec_apply_debits(*old(limiter), all) == spec_apply_debits(
                *limiter,
                all.skip(i as int),
            ),
        decreases c.debits@.len() - i,
    {
        let (tokens_used, price) = c.debits[i];
        limiter.update_rate_limit(tokens_used, price);
        proof {
            assert(all.skip(i as int)[0] == all[i as int]);
            assert(all.skip(i as int).drop_first() =~= all.skip(i as int + 1));
        }
        i = i + 1;
    }
    proof {
        assert(all.skip(c.debits@.len() as int) =~= Seq::<(u64, u32)>::empty());
    }
    let reply = crate::codec::encode_result(&c.result);
    let put = store.insert_item(c.hash, reply.as_slice());
    match put {
        Ok(_) => (),
        Err(_) => (),
    }
    reply
}

} // verus!
