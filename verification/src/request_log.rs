//! Time stamps of the AI-gateway request log and the files its database
//! consists of.
use vstd::prelude::*;
use crate::json::{jget, jget_opt, jint, jstr, ref_view, Json, JsonV};
use crate::text::{append_str, from_chars, to_chars};

verus! {

/// `std::time::Instant`, carried through as a start time.
#[verifier::external_type_specification]
#[verifier::external_body]
pub struct ExInstant(std::time::Instant);

/// Milliseconds since the Unix epoch by the system clock (`as i64`).
/// Nothing is claimed of the clock's value.
#[verifier::external_body]
pub fn now_ms() -> (r: i64)
{
    std::time::SystemTime::now().duration_since(std::time::UNIX_EPOCH).unwrap_or_default().as_millis() as i64
}

/// Milliseconds since `started_at` by the monotonic clock (`as i64`).
/// Nothing is claimed of the clock's value.
#[verifier::external_body]
pub fn elapsed_ms(started_at: std::time::Instant) -> (r: i64)
{
    started_at.elapsed().as_millis() as i64
}

/// The database file and its SQLite write-ahead-log and shared-memory files.
pub fn companion_database_paths(db_path: &str) -> (r: [String; 3])
    ensures
        r@[0]@ == db_path@,
        r@[1]@ == db_path@ + "-wal"@,
        r@[2]@ == db_path@ + "-shm"@,
{
    let mut wal = to_chars(db_path);
    append_str(&mut wal, "-wal");
    let mut shm = to_chars(db_path);
    append_str(&mut shm, "-shm");
    [String::from_str(db_path), from_chars(&wal), from_chars(&shm)]
}

/// Two database paths name the same file: equal paths, or equal canonical
/// forms when both could be resolved.
pub fn paths_equivalent(paths_equal: bool, left_canonical: Option<&str>, right_canonical: Option<&str>) -> (r: bool)
    ensures
        r == (paths_equal || match (left_canonical, right_canonical) {
            (Some(a), Some(b)) => a@ == b@,
            _ => false,
        }),
{
    if paths_equal {
        return true;
    }
    match (left_canonical, right_canonical) {
        (Some(a), Some(b)) => {
            let x = to_chars(a);
            let y = to_chars(b);
            crate::text::eq_vec(&x, &y)
        },
        _ => false,
    }
}


/// The token counts a response reports.
#[derive(Debug)]
pub struct TokenUsage {
    pub input_tokens: Option<i64>,
    pub output_tokens: Option<i64>,
    pub total_tokens: Option<i64>,
    pub read_cache_tokens: Option<i64>,
    pub write_cache_tokens: Option<i64>,
}

pub open spec fn opt_int(o: Option<i64>) -> Option<int> {
    match o {
        Some(x) => Some(x as int),
        None => None,
    }
}

pub open spec fn or_else_int(a: Option<int>, b: Option<int>) -> Option<int> {
    match a {
        Some(x) => Some(x),
        None => b,
    }
}

/// The integer under the first of `keys` that holds one.
pub open spec fn first_int(v: Option<JsonV>, keys: Seq<Seq<char>>) -> Option<int>
    decreases keys.len(),
{
    if keys.len() == 0 {
        None
    } else {
        match v {
            Some(x) => match jget(x, keys[0]) {
                Some(f) if jint(f) is Some => jint(f),
                _ => first_int(v, keys.drop_first()),
            },
            None => None,
        }
    }
}

pub open spec fn usage_of(response: JsonV) -> Option<JsonV> {
    jget(response, "usage"@)
}

pub open spec fn input_tokens_of(response: JsonV) -> Option<int> {
    first_int(usage_of(response), seq!["input_tokens"@, "prompt_tokens"@])
}

pub open spec fn output_tokens_of(response: JsonV) -> Option<int> {
    first_int(usage_of(response), seq!["output_tokens"@, "completion_tokens"@])
}

/// The reported total, or the sum of input and output when both are known.
pub open spec fn total_tokens_of(response: JsonV) -> Option<int> {
    or_else_int(
        first_int(usage_of(response), seq!["total_tokens"@]),
        match (input_tokens_of(response), output_tokens_of(response)) {
            (Some(a), Some(b)) => Some(a + b),
            _ => None,
        },
    )
}

pub open spec fn read_keys() -> Seq<Seq<char>> {
    seq!["cached_tokens"@, "cache_read_input_tokens"@]
}

pub open spec fn write_keys() -> Seq<Seq<char>> {
    seq!["cache_creation_tokens"@, "cache_write_input_tokens"@, "write_cached_tokens"@]
}

/// Cached input: from the input or prompt token details, else from the
/// usage itself (DeepSeek's `prompt_cache_hit_tokens` included).
pub open spec fn read_cache_tokens_of(response: JsonV) -> Option<int> {
    let u = usage_of(response);
    or_else_int(
        first_int(jget_opt(u, "input_tokens_details"@), read_keys()),
        or_else_int(
            first_int(jget_opt(u, "prompt_tokens_details"@), read_keys()),
            first_int(u, seq!["cache_read_input_tokens"@, "cached_tokens"@, "prompt_cache_hit_tokens"@]),
        ),
    )
}

/// The integer a JSON object holds under `key`, if any.
pub open spec fn int_field(v: Option<JsonV>, key: Seq<char>) -> Option<int> {
    match jget_opt(v, key) {
        Some(f) => jint(f),
        None => None,
    }
}

pub(crate) proof fn lemma_first_int_one(v: Option<JsonV>, a: Seq<char>)
    ensures
        first_int(v, seq![a]) == int_field(v, a),
{
    assert(seq![a].drop_first() =~= Seq::<Seq<char>>::empty());
    reveal_with_fuel(first_int, 2);
}

pub(crate) proof fn lemma_first_int_two(v: Option<JsonV>, a: Seq<char>, b: Seq<char>)
    ensures
        first_int(v, seq![a, b]) == or_else_int(int_field(v, a), int_field(v, b)),
{
    assert(seq![a, b].drop_first() =~= seq![b]);
    assert(seq![b].drop_first() =~= Seq::<Seq<char>>::empty());
    reveal_with_fuel(first_int, 3);
}

/// Where a response's usage gives the cached input count in its input
/// token details, that count is the read cache count.
pub proof fn law_read_cache_from_input_details(response: JsonV, n: int)
    requires
        ({
            let d = jget_opt(jget(response, "usage"@), "input_tokens_details"@);
            int_field(d, "cached_tokens"@) == Some(n) || (int_field(d, "cached_tokens"@) is None && int_field(
                d,
                "cache_read_input_tokens"@,
            ) == Some(n))
        }),
    ensures
        read_cache_tokens_of(response) == Some(n),
{
    lemma_first_int_two(jget_opt(usage_of(response), "input_tokens_details"@), "cached_tokens"@, "cache_read_input_tokens"@);
}

/// Chat-style usage: with no cached count in the input token details, the
/// cached count under `prompt_tokens_details` (`cached_tokens`, else
/// `cache_read_input_tokens`) is the read cache count, ahead of any count
/// on the usage itself.
pub proof fn law_read_cache_from_prompt_details(response: JsonV, n: int)
    requires
        ({
            let u = jget(response, "usage"@);
            let d = jget_opt(u, "input_tokens_details"@);
            let p = jget_opt(u, "prompt_tokens_details"@);
            &&& int_field(d, "cached_tokens"@) is None
            &&& int_field(d, "cache_read_input_tokens"@) is None
            &&& (int_field(p, "cached_tokens"@) == Some(n) || (int_field(p, "cached_tokens"@) is None && int_field(
                p,
                "cache_read_input_tokens"@,
            ) == Some(n)))
        }),
    ensures
        read_cache_tokens_of(response) == Some(n),
{
    let u = usage_of(response);
    lemma_first_int_two(jget_opt(u, "input_tokens_details"@), "cached_tokens"@, "cache_read_input_tokens"@);
    lemma_first_int_two(jget_opt(u, "prompt_tokens_details"@), "cached_tokens"@, "cache_read_input_tokens"@);
}

/// With no cached count in either token details object, the usage's own
/// `cache_read_input_tokens`, `cached_tokens` or DeepSeek's
/// `prompt_cache_hit_tokens` (the first that holds an integer) is the read
/// cache count; with none of them there is none.
pub proof fn law_read_cache_from_usage(response: JsonV)
    requires
        ({
            let u = jget(response, "usage"@);
            let d = jget_opt(u, "input_tokens_details"@);
            let p = jget_opt(u, "prompt_tokens_details"@);
            &&& int_field(d, "cached_tokens"@) is None
            &&& int_field(d, "cache_read_input_tokens"@) is None
            &&& int_field(p, "cached_tokens"@) is None
            &&& int_field(p, "cache_read_input_tokens"@) is None
        }),
    ensures
        ({
            let u = jget(response, "usage"@);
            read_cache_tokens_of(response) == or_else_int(
                int_field(u, "cache_read_input_tokens"@),
                or_else_int(int_field(u, "cached_tokens"@), int_field(u, "prompt_cache_hit_tokens"@)),
            )
        }),
{
    let u = usage_of(response);
    lemma_first_int_two(jget_opt(u, "input_tokens_details"@), "cached_tokens"@, "cache_read_input_tokens"@);
    lemma_first_int_two(jget_opt(u, "prompt_tokens_details"@), "cached_tokens"@, "cache_read_input_tokens"@);
    let ks = seq!["cache_read_input_tokens"@, "cached_tokens"@, "prompt_cache_hit_tokens"@];
    assert(ks.drop_first() =~= seq!["cached_tokens"@, "prompt_cache_hit_tokens"@]);
    lemma_first_int_two(u, "cached_tokens"@, "prompt_cache_hit_tokens"@);
    match u {
        Some(x) => {
            assert(jget_opt(u, "cache_read_input_tokens"@) == jget(x, "cache_read_input_tokens"@));
        },
        None => {},
    }
}

/// The token counts of a response's usage: input is `input_tokens`, else
/// Chat's `prompt_tokens`; output is `output_tokens`, else
/// `completion_tokens`; the total is `total_tokens`, else input plus
/// output when both are known, else unknown.
pub proof fn law_token_counts(response: JsonV)
    ensures
        ({
            let u = jget(response, "usage"@);
            let input = or_else_int(int_field(u, "input_tokens"@), int_field(u, "prompt_tokens"@));
            let output = or_else_int(int_field(u, "output_tokens"@), int_field(u, "completion_tokens"@));
            &&& input_tokens_of(response) == input
            &&& output_tokens_of(response) == output
            &&& total_tokens_of(response) == match int_field(u, "total_tokens"@) {
                Some(t) => Some(t),
                None => match (input, output) {
                    (Some(a), Some(b)) => Some(a + b),
                    _ => None,
                },
            }
        }),
{
    let u = usage_of(response);
    lemma_first_int_two(u, "input_tokens"@, "prompt_tokens"@);
    lemma_first_int_two(u, "output_tokens"@, "completion_tokens"@);
    lemma_first_int_one(u, "total_tokens"@);
}

proof fn lemma_first_int_three(v: Option<JsonV>, a: Seq<char>, b: Seq<char>, c: Seq<char>)
    ensures
        first_int(v, seq![a, b, c]) == or_else_int(int_field(v, a), or_else_int(int_field(v, b), int_field(v, c))),
{
    assert(seq![a, b, c].drop_first() =~= seq![b, c]);
    lemma_first_int_two(v, b, c);
    reveal_with_fuel(first_int, 2);
}

/// Input written to the cache: from the input token details, else the
/// prompt token details (`cache_creation_tokens`, `cache_write_input_tokens`,
/// `write_cached_tokens`, the first that holds an integer), else the usage's
/// own `cache_creation_input_tokens`, `cache_write_input_tokens` or
/// `write_cached_tokens`.
pub proof fn law_write_cache_tokens(response: JsonV)
    ensures
        ({
            let u = jget(response, "usage"@);
            let in_details = jget_opt(u, "input_tokens_details"@);
            let prompt_details = jget_opt(u, "prompt_tokens_details"@);
            let of = |v: Option<JsonV>|
                or_else_int(
                    int_field(v, "cache_creation_tokens"@),
                    or_else_int(int_field(v, "cache_write_input_tokens"@), int_field(v, "write_cached_tokens"@)),
                );
            write_cache_tokens_of(response) == or_else_int(
                of(in_details),
                or_else_int(
                    of(prompt_details),
                    or_else_int(
                        int_field(u, "cache_creation_input_tokens"@),
                        or_else_int(int_field(u, "cache_write_input_tokens"@), int_field(u, "write_cached_tokens"@)),
                    ),
                ),
            )
        }),
{
    let u = usage_of(response);
    lemma_first_int_three(jget_opt(u, "input_tokens_details"@), "cache_creation_tokens"@, "cache_write_input_tokens"@, "write_cached_tokens"@);
    lemma_first_int_three(jget_opt(u, "prompt_tokens_details"@), "cache_creation_tokens"@, "cache_write_input_tokens"@, "write_cached_tokens"@);
    lemma_first_int_three(u, "cache_creation_input_tokens"@, "cache_write_input_tokens"@, "write_cached_tokens"@);
}

/// Input written to the cache, found the same way.
pub open spec fn write_cache_tokens_of(response: JsonV) -> Option<int> {
    let u = usage_of(response);
    or_else_int(
        first_int(jget_opt(u, "input_tokens_details"@), write_keys()),
        or_else_int(
            first_int(jget_opt(u, "prompt_tokens_details"@), write_keys()),
            first_int(u, seq!["cache_creation_input_tokens"@, "cache_write_input_tokens"@, "write_cached_tokens"@]),
        ),
    )
}

/// The sum that stands in for a missing total fits in `i64` (computing it
/// overflows otherwise).
pub open spec fn total_fits(response: JsonV) -> bool {
    first_int(usage_of(response), seq!["total_tokens"@]) is None ==> match (
        input_tokens_of(response),
        output_tokens_of(response),
    ) {
        (Some(a), Some(b)) => i64::MIN <= a + b <= i64::MAX,
        _ => true,
    }
}

pub(crate) fn first_int_exec(v: Option<&Json>, keys: &Vec<&str>) -> (r: Option<i64>)
    ensures
        opt_int(r) == first_int(ref_view(v), crate::codex::names_view(keys@)),
{
    let ghost ks = crate::codex::names_view(keys@);
    let x = match v {
        Some(x) => x,
        None => {
            proof {
                if ks.len() > 0 {
                    assert(first_int(ref_view(v), ks) is None);
                }
            }
            return None;
        },
    };
    let mut i: usize = 0;
    assert(ks.skip(0) =~= ks);
    while i < keys.len()
        invariant
            i <= keys@.len(),
            ks == crate::codex::names_view(keys@),
            ref_view(v) == Some(x@),
            first_int(ref_view(v), ks) == first_int(ref_view(v), ks.skip(i as int)),
        decreases keys@.len() - i,
    {
        assert(ks.skip(i as int)[0] == keys@[i as int]@);
        assert(ks.skip(i as int).drop_first() =~= ks.skip(i + 1));
        match x.get(keys[i]) {
            Some(f) => match f.as_i64() {
                Some(n) => return Some(n),
                None => {},
            },
            None => {},
        }
        i += 1;
    }
    None
}

fn or_else_i64(a: Option<i64>, b: Option<i64>) -> (r: Option<i64>)
    ensures
        opt_int(r) == or_else_int(opt_int(a), opt_int(b)),
{
    match a {
        Some(x) => Some(x),
        None => b,
    }
}

/// `usage_from_response_value`: the token counts of a response (the cache
/// hit rate is `read_cache_hit_ratio`, taken as a fraction by the caller).
pub fn usage_from_response_value(response: &Json) -> (r: TokenUsage)
    requires
        total_fits(response@),
    ensures
        opt_int(r.input_tokens) == input_tokens_of(response@),
        opt_int(r.output_tokens) == output_tokens_of(response@),
        opt_int(r.total_tokens) == total_tokens_of(response@),
        opt_int(r.read_cache_tokens) == read_cache_tokens_of(response@),
        opt_int(r.write_cache_tokens) == write_cache_tokens_of(response@),
{
    let usage = response.get("usage");
    let k_in = vec!["input_tokens", "prompt_tokens"];
    let k_out = vec!["output_tokens", "completion_tokens"];
    let k_total = vec!["total_tokens"];
    let k_read = vec!["cached_tokens", "cache_read_input_tokens"];
    let k_write = vec!["cache_creation_tokens", "cache_write_input_tokens", "write_cached_tokens"];
    let k_read_top = vec!["cache_read_input_tokens", "cached_tokens", "prompt_cache_hit_tokens"];
    let k_write_top = vec!["cache_creation_input_tokens", "cache_write_input_tokens", "write_cached_tokens"];
    proof {
        assert(crate::codex::names_view(k_in@) =~= seq!["input_tokens"@, "prompt_tokens"@]);
        assert(crate::codex::names_view(k_out@) =~= seq!["output_tokens"@, "completion_tokens"@]);
        assert(crate::codex::names_view(k_total@) =~= seq!["total_tokens"@]);
        assert(crate::codex::names_view(k_read@) =~= read_keys());
        assert(crate::codex::names_view(k_write@) =~= write_keys());
        assert(crate::codex::names_view(k_read_top@) =~= seq![
            "cache_read_input_tokens"@,
            "cached_tokens"@,
            "prompt_cache_hit_tokens"@,
        ]);
        assert(crate::codex::names_view(k_write_top@) =~= seq![
            "cache_creation_input_tokens"@,
            "cache_write_input_tokens"@,
            "write_cached_tokens"@,
        ]);
    }
    let input_tokens = first_int_exec(usage, &k_in);
    let output_tokens = first_int_exec(usage, &k_out);
    let total_tokens = match first_int_exec(usage, &k_total) {
        Some(t) => Some(t),
        None => match (input_tokens, output_tokens) {
            (Some(a), Some(b)) => Some(a + b),
            _ => None,
        },
    };
    let input_details = crate::json::get_opt(usage, "input_tokens_details");
    let prompt_details = crate::json::get_opt(usage, "prompt_tokens_details");
    let read_cache_tokens = or_else_i64(
        first_int_exec(input_details, &k_read),
        or_else_i64(first_int_exec(prompt_details, &k_read), first_int_exec(usage, &k_read_top)),
    );
    let write_cache_tokens = or_else_i64(
        first_int_exec(input_details, &k_write),
        or_else_i64(first_int_exec(prompt_details, &k_write), first_int_exec(usage, &k_write_top)),
    );
    TokenUsage { input_tokens, output_tokens, total_tokens, read_cache_tokens, write_cache_tokens }
}

impl TokenUsage {
    /// Cached and total input, when both are known and the input is
    /// positive: the cache hit rate is their quotient.
    pub fn read_cache_hit_ratio(&self) -> (r: Option<(i64, i64)>)
        ensures
            match r {
                Some((c, i)) => self.read_cache_tokens == Some(c) && self.input_tokens == Some(i) && i > 0,
                None => !(self.read_cache_tokens is Some && (self.input_tokens matches Some(i) && i > 0)),
            },
    {
        match (self.read_cache_tokens, self.input_tokens) {
            (Some(c), Some(i)) => if i > 0 {
                Some((c, i))
            } else {
                None
            },
            _ => None,
        }
    }
}

/// `status_from_response_value`: the response's `status`, or `completed`.
pub open spec fn response_status(response: JsonV) -> Seq<char> {
    match crate::json::jget_str(response, "status"@) {
        Some(s) => s,
        None => "completed"@,
    }
}

pub fn status_from_response_value(response: &Json) -> (r: String)
    ensures
        r@ == response_status(response@),
{
    match crate::json::get_str(response, "status") {
        Some(s) => String::from_str(s),
        None => String::from_str("completed"),
    }
}

// ─── what a logged response stream reports ─────────────────────────────

/// The event ends the response: completed, incomplete or failed.
pub open spec fn ends_response(event_type: Seq<char>) -> bool {
    event_type == "response.completed"@ || event_type == "response.incomplete"@ || event_type == "response.failed"@
}

pub open spec fn event_type_of(event: JsonV) -> Seq<char> {
    match crate::json::jget_str(event, "type"@) {
        Some(t) => t,
        None => Seq::empty(),
    }
}

/// The response an event carries, or the event itself.
pub open spec fn event_response(event: JsonV) -> JsonV {
    match jget(event, "response"@) {
        Some(r) => r,
        None => event,
    }
}

/// The error message of a response: `error.message`, or the error itself,
/// where that is a string.
pub open spec fn response_error_message(response: JsonV) -> Option<Seq<char>> {
    match jget(response, "error"@) {
        Some(e) => match jget(e, "message"@) {
            Some(m) => jstr(m),
            None => jstr(e),
        },
        None => None,
    }
}

/// What the request log records when a response ends.
#[derive(Debug)]
pub struct ResponseCompletion {
    pub status: String,
    pub usage: TokenUsage,
    pub error_message: Option<String>,
    pub response_json: String,
}

/// What one event of a logged stream asks the log to record: the time to
/// the first token, and the end of the response.
#[derive(Debug)]
pub struct SseLogStep {
    pub record_ttft: bool,
    pub completion: Option<ResponseCompletion>,
}

/// The step is the one `observe_sse_chunk` takes on `event`.
pub open spec fn is_log_step(step: SseLogStep, event: JsonV, ttft_recorded: bool) -> bool {
    let ty = event_type_of(event);
    let response = event_response(event);
    &&& step.record_ttft == (crate::responses_stream::first_token_event(ty) && !ttft_recorded)
    &&& match step.completion {
        Some(c) => {
            &&& ends_response(ty)
            &&& c.status@ == response_status(response)
            &&& opt_int(c.usage.input_tokens) == input_tokens_of(response)
            &&& opt_int(c.usage.output_tokens) == output_tokens_of(response)
            &&& opt_int(c.usage.total_tokens) == total_tokens_of(response)
            &&& opt_int(c.usage.read_cache_tokens) == read_cache_tokens_of(response)
            &&& opt_int(c.usage.write_cache_tokens) == write_cache_tokens_of(response)
            &&& crate::tool_names::opt_view(c.error_message) == response_error_message(response)
            &&& c.response_json@ == crate::json::json_text(response)
        },
        None => !ends_response(ty),
    }
}

/// One event of a Responses stream being logged: whether it is the first
/// token (and none was recorded yet), and, for the event that ends the
/// response, its status, usage, error message and JSON.
pub fn sse_log_step(event: &Json, ttft_recorded: bool) -> (r: SseLogStep)
    requires
        ends_response(event_type_of(event@)) ==> total_fits(event_response(event@)),
    ensures
        is_log_step(r, event@, ttft_recorded),
{
    let ty: String = match crate::json::get_str(event, "type") {
        Some(t) => String::from_str(t),
        None => String::new(),
    };
    let record_ttft = crate::responses_stream::is_first_token_event(ty.as_str()) && !ttft_recorded;
    let tv = to_chars(ty.as_str());
    let ends = crate::text::eq_str(&tv, "response.completed") || crate::text::eq_str(&tv, "response.incomplete")
        || crate::text::eq_str(&tv, "response.failed");
    if !ends {
        return SseLogStep { record_ttft, completion: None };
    }
    let response: &Json = match event.get("response") {
        Some(r) => r,
        None => event,
    };
    let status = status_from_response_value(response);
    let usage = usage_from_response_value(response);
    let error_message: Option<String> = match response.get("error") {
        Some(e) => match e.get("message") {
            Some(m) => match m.as_str() {
                Some(t) => Some(String::from_str(t)),
                None => None,
            },
            None => match e.as_str() {
                Some(t) => Some(String::from_str(t)),
                None => None,
            },
        },
        None => None,
    };
    let response_json = crate::json::to_json_text(response);
    SseLogStep { record_ttft, completion: Some(ResponseCompletion { status, usage, error_message, response_json }) }
}

fn total_fits_exec(response: &Json) -> (r: bool)
    ensures
        r == total_fits(response@),
{
    let usage = response.get("usage");
    let k_total = vec!["total_tokens"];
    let k_in = vec!["input_tokens", "prompt_tokens"];
    let k_out = vec!["output_tokens", "completion_tokens"];
    proof {
        assert(crate::codex::names_view(k_in@) =~= seq!["input_tokens"@, "prompt_tokens"@]);
        assert(crate::codex::names_view(k_out@) =~= seq!["output_tokens"@, "completion_tokens"@]);
        assert(crate::codex::names_view(k_total@) =~= seq!["total_tokens"@]);
    }
    if first_int_exec(usage, &k_total).is_some() {
        return true;
    }
    match (first_int_exec(usage, &k_in), first_int_exec(usage, &k_out)) {
        (Some(a), Some(b)) => a.checked_add(b).is_some(),
        _ => true,
    }
}

/// `observe_sse_chunk` on one complete line of the stream: nothing for a
/// line that is no data line, for `[DONE]`, for data that is no JSON, and
/// for an ending event whose token total does not fit in `i64` (where the
/// addition of its parts overflows); the step taken otherwise.
pub fn observe_sse_line(line: &str, ttft_recorded: bool) -> (r: Option<SseLogStep>)
    ensures
        match crate::responses_stream::sse_data(line@) {
            None => r is None,
            Some(d) => if crate::text::trim(d) == "[DONE]"@ {
                r is None
            } else {
                match crate::json::parsed_json(d) {
                    None => r is None,
                    Some(ev) => if ends_response(event_type_of(ev)) && !total_fits(event_response(ev)) {
                        r is None
                    } else {
                        r matches Some(step) && is_log_step(step, ev, ttft_recorded)
                    },
                }
            },
        },
{
    let data = match crate::responses_stream::sse_data_value(line) {
        Some(d) => d,
        None => {
            return None;
        },
    };
    let trimmed = crate::text::trim_str(data.as_str());
    let tv = to_chars(trimmed.as_str());
    if crate::text::eq_str(&tv, "[DONE]") {
        return None;
    }
    let event = match crate::json::parse_json(data.as_str()) {
        Some(e) => e,
        None => {
            return None;
        },
    };
    let ty: String = match crate::json::get_str(&event, "type") {
        Some(t) => String::from_str(t),
        None => String::new(),
    };
    let ev = to_chars(ty.as_str());
    let ends = crate::text::eq_str(&ev, "response.completed") || crate::text::eq_str(&ev, "response.incomplete")
        || crate::text::eq_str(&ev, "response.failed");
    if ends {
        let fits = match event.get("response") {
            Some(resp) => total_fits_exec(resp),
            None => total_fits_exec(&event),
        };
        if !fits {
            return None;
        }
    }
    Some(sse_log_step(&event, ttft_recorded))
}

// ─── the captured upstream stream ──────────────────────────────────────

/// How much of an upstream stream the request log keeps.
pub const UPSTREAM_SSE_LOG_LIMIT_BYTES: usize = 524288;

/// One chunk captured: appended as far as the limit allows; the capture is
/// truncated once anything is left out, or a chunk arrives at the limit.
pub open spec fn capture_step(captured: Seq<u8>, truncated: bool, chunk: Seq<u8>) -> (Seq<u8>, bool) {
    if captured.len() >= UPSTREAM_SSE_LOG_LIMIT_BYTES {
        (captured, true)
    } else {
        let remaining = UPSTREAM_SSE_LOG_LIMIT_BYTES - captured.len();
        let take = if remaining < chunk.len() {
            remaining
        } else {
            chunk.len() as int
        };
        (captured + chunk.take(take), truncated || take < chunk.len())
    }
}

/// The capture after a series of chunks, from an empty one.
pub open spec fn captured_after(chunks: Seq<Seq<u8>>) -> (Seq<u8>, bool)
    decreases chunks.len(),
{
    if chunks.len() == 0 {
        (Seq::empty(), false)
    } else {
        let before = captured_after(chunks.drop_last());
        capture_step(before.0, before.1, chunks.last())
    }
}

/// All the bytes of a series of chunks.
pub open spec fn all_bytes(chunks: Seq<Seq<u8>>) -> Seq<u8>
    decreases chunks.len(),
{
    if chunks.len() == 0 {
        Seq::empty()
    } else {
        all_bytes(chunks.drop_last()) + chunks.last()
    }
}

/// The bytes of an upstream stream kept for the request log
/// (`UpstreamSseCaptureStream`'s buffer).
#[derive(Debug)]
pub struct SseCapture {
    pub captured: Vec<u8>,
    pub truncated: bool,
    pub saved: bool,
}

impl SseCapture {
    pub fn new() -> (r: SseCapture)
        ensures
            r.captured@ == Seq::<u8>::empty(),
            !r.truncated,
            !r.saved,
    {
        SseCapture { captured: Vec::new(), truncated: false, saved: false }
    }

    /// Keeps what fits of the chunk under the capture limit, and notes truncation.
    pub fn capture_chunk(&mut self, chunk: &[u8])
        ensures
            (final(self).captured@, final(self).truncated) == capture_step(
                old(self).captured@,
                old(self).truncated,
                chunk@,
            ),
            final(self).saved == old(self).saved,
    {
        if self.captured.len() >= UPSTREAM_SSE_LOG_LIMIT_BYTES {
            self.truncated = true;
            return;
        }
        let remaining = UPSTREAM_SSE_LOG_LIMIT_BYTES - self.captured.len();
        let take = if remaining < chunk.len() {
            remaining
        } else {
            chunk.len()
        };
        let ghost before = self.captured@;
        let mut i: usize = 0;
        while i < take
            invariant
                i <= take,
                take <= chunk@.len(),
                before == old(self).captured@,
                self.captured@ == before + chunk@.take(i as int),
                self.truncated == old(self).truncated,
                self.saved == old(self).saved,
            decreases take - i,
        {
            self.captured.push(chunk[i]);
            assert(chunk@.take(i + 1) =~= chunk@.take(i as int).push(chunk@[i as int]));
            i += 1;
        }
        if take < chunk.len() {
            self.truncated = true;
        }
    }

    /// `save`: the captured bytes, and whether they were truncated, the
    /// first time the capture is saved and only when it holds anything.
    pub fn take_for_save(&mut self) -> (r: Option<(Vec<u8>, bool)>)
        ensures
            match r {
                Some((bytes, truncated)) => !old(self).saved && old(self).captured@.len() > 0 && bytes@
                    == old(self).captured@ && truncated == old(self).truncated,
                None => old(self).saved || old(self).captured@.len() == 0,
            },
            final(self).saved,
            final(self).captured@ == old(self).captured@,
            final(self).truncated == old(self).truncated,
    {
        if self.saved || self.captured.len() == 0 {
            self.saved = true;
            return None;
        }
        let bytes = self.captured.clone();
        self.saved = true;
        Some((bytes, self.truncated))
    }
}

/// The capture keeps the first bytes of the stream up to the limit, and
/// says it is truncated whenever the stream was longer.
pub proof fn law_capture_keeps_the_head(chunks: Seq<Seq<u8>>)
    ensures
        ({
            let all = all_bytes(chunks);
            let kept = if all.len() < UPSTREAM_SSE_LOG_LIMIT_BYTES {
                all.len() as int
            } else {
                UPSTREAM_SSE_LOG_LIMIT_BYTES as int
            };
            &&& captured_after(chunks).0 == all.take(kept)
            &&& all.len() > UPSTREAM_SSE_LOG_LIMIT_BYTES ==> captured_after(chunks).1
        }),
    decreases chunks.len(),
{
    if chunks.len() > 0 {
        let init = chunks.drop_last();
        law_capture_keeps_the_head(init);
        let a0 = all_bytes(init);
        let c = chunks.last();
        let all = a0 + c;
        assert(all_bytes(chunks) == all);
        let before = captured_after(init);
        if before.0.len() >= UPSTREAM_SSE_LOG_LIMIT_BYTES {
            assert(a0.len() >= UPSTREAM_SSE_LOG_LIMIT_BYTES);
            assert(all.take(UPSTREAM_SSE_LOG_LIMIT_BYTES as int) =~= a0.take(UPSTREAM_SSE_LOG_LIMIT_BYTES as int));
        } else {
            assert(before.0 =~= a0);
            let remaining = UPSTREAM_SSE_LOG_LIMIT_BYTES - a0.len();
            let take = if remaining < c.len() {
                remaining
            } else {
                c.len() as int
            };
            assert(a0 + c.take(take) =~= all.take(a0.len() + take));
        }
    }
}

/// `json_body_size_bytes`: the length of the compact JSON encoding.
pub fn json_body_size_bytes(value: &Json) -> (r: Option<i64>)
    ensures
        match r {
            Some(n) => n as nat == crate::tool_names::utf8_len(crate::json::json_text(value@)),
            None => crate::tool_names::utf8_len(crate::json::json_text(value@)) > i64::MAX,
        },
{
    let text = crate::json::to_json_text(value);
    let n = crate::chain_log::utf8_len_saturating(text.as_str());
    if n > 0x7fff_ffff_ffff_ffffu64 {
        None
    } else {
        Some(n as i64)
    }
}

pub open spec fn db_file_name() -> Seq<char> {
    "ai-gateway-request-logs.sqlite"@
}

/// The request-log database: in the application data directory when there
/// is one, else next to the state file.
pub fn database_path(app_data_dir: Option<&str>, state_path: &str) -> (r: String)
    ensures
        ends_with_db_name(r@),
{
    let dir = match app_data_dir {
        Some(d) => String::from_str(d),
        None => crate::paths::parent_or_dot_exec(crate::paths::path_parent(state_path)),
    };
    let chars = to_chars("ai-gateway-request-logs.sqlite");
    let name = from_chars(&chars);
    proof {
        reveal_strlit("ai-gateway-request-logs.sqlite");
        assert forall|i: int| 0 <= i < name@.len() implies #[trigger] name@[i] != '/' && name@[i] != '\\' && name@[i] != ':' by {}
        assert(name@ != seq!['.']);
        assert(name@ != seq!['.', '.']);
    }
    crate::paths::path_join(dir.as_str(), name.as_str())
}

pub open spec fn ends_with_db_name(p: Seq<char>) -> bool {
    crate::text::ends_with(p, db_file_name())
}

// ─── request headers ───────────────────────────────────────────────────

/// `a` sorts before `b`: byte order of their UTF-8 text, which is the
/// order of their characters' code points.
pub open spec fn name_lt(a: Seq<char>, b: Seq<char>) -> bool
    decreases a.len(),
{
    if a.len() == 0 {
        b.len() > 0
    } else if b.len() == 0 {
        false
    } else if a[0] != b[0] {
        a[0] < b[0]
    } else {
        name_lt(a.drop_first(), b.drop_first())
    }
}

proof fn lemma_name_lt_transitive(a: Seq<char>, b: Seq<char>, c: Seq<char>)
    requires
        name_lt(a, b),
        name_lt(b, c),
    ensures
        name_lt(a, c),
    decreases a.len(),
{
    if a.len() > 0 && b.len() > 0 && c.len() > 0 && a[0] == b[0] && b[0] == c[0] {
        lemma_name_lt_transitive(a.drop_first(), b.drop_first(), c.drop_first());
    }
}

proof fn lemma_name_lt_total(a: Seq<char>, b: Seq<char>)
    ensures
        a == b || name_lt(a, b) || name_lt(b, a),
    decreases a.len(),
{
    if a.len() > 0 && b.len() > 0 && a[0] == b[0] {
        lemma_name_lt_total(a.drop_first(), b.drop_first());
        if a.drop_first() == b.drop_first() {
            assert(a =~= seq![a[0]] + a.drop_first());
            assert(b =~= seq![b[0]] + b.drop_first());
            assert(a =~= b);
        }
    } else if a.len() == 0 && b.len() == 0 {
        assert(a =~= b);
    }
}

proof fn lemma_name_lt_irreflexive(a: Seq<char>)
    ensures
        !name_lt(a, a),
    decreases a.len(),
{
    if a.len() > 0 {
        lemma_name_lt_irreflexive(a.drop_first());
    }
}

fn name_less(a: &[char], b: &[char]) -> (r: bool)
    ensures
        r == name_lt(a@, b@),
{
    let mut i: usize = 0;
    assert(a@.skip(0) =~= a@);
    assert(b@.skip(0) =~= b@);
    while i < a.len() && i < b.len() && a[i] == b[i]
        invariant
            i <= a@.len(),
            i <= b@.len(),
            name_lt(a@, b@) == name_lt(a@.skip(i as int), b@.skip(i as int)),
        decreases a@.len() - i,
    {
        assert(a@.skip(i as int).drop_first() =~= a@.skip(i + 1));
        assert(b@.skip(i as int).drop_first() =~= b@.skip(i + 1));
        i += 1;
    }
    if i == a.len() {
        assert(a@.skip(i as int).len() == 0);
        i < b.len()
    } else if i == b.len() {
        assert(b@.skip(i as int).len() == 0);
        false
    } else {
        assert(a@.skip(i as int)[0] == a@[i as int]);
        assert(b@.skip(i as int)[0] == b@[i as int]);
        a[i] < b[i]
    }
}

/// The values given under `name`, in order.
pub open spec fn values_of(pairs: Seq<(Seq<char>, Seq<char>)>, name: Seq<char>) -> Seq<Seq<char>>
    decreases pairs.len(),
{
    if pairs.len() == 0 {
        Seq::empty()
    } else {
        let rest = values_of(pairs.drop_last(), name);
        if pairs.last().0 == name {
            rest.push(pairs.last().1)
        } else {
            rest
        }
    }
}

/// The JSON member of one header: its value, or all its values when it
/// was given more than once.
pub open spec fn header_member(g: (Seq<char>, Seq<Seq<char>>)) -> (Seq<char>, JsonV) {
    if g.1.len() == 1 {
        (g.0, JsonV::Str(g.1[0]))
    } else {
        (g.0, JsonV::Array(g.1.map_values(|v: Seq<char>| JsonV::Str(v))))
    }
}

pub open spec fn pairs_view(v: Seq<(String, String)>) -> Seq<(Seq<char>, Seq<char>)> {
    v.map_values(|p: (String, String)| (p.0@, p.1@))
}

/// Some pair has the name `n`.
pub open spec fn has_name(pairs: Seq<(Seq<char>, Seq<char>)>, n: Seq<char>) -> bool {
    exists|k: int| 0 <= k < pairs.len() && pairs[k].0 == n
}

/// The distinct names of the pairs, in sorted order.
pub open spec fn sorted_names(pairs: Seq<(Seq<char>, Seq<char>)>, names: Seq<Seq<char>>) -> bool {
    &&& forall|i: int, j: int| 0 <= i < j < names.len() ==> name_lt(names[i], names[j])
    &&& forall|i: int| 0 <= i < names.len() ==> #[trigger] has_name(pairs, names[i])
    &&& forall|k: int| 0 <= k < pairs.len() ==> #[trigger] names.contains(pairs[k].0)
}

/// The header map as JSON: every name once, in sorted order, with its value
/// or, when it was given several times, the array of its values in order.
pub open spec fn headers_json(pairs: Seq<(Seq<char>, Seq<char>)>, names: Seq<Seq<char>>) -> JsonV {
    JsonV::Object(names.map_values(|n: Seq<char>| header_member((n, values_of(pairs, n)))))
}

proof fn lemma_has_name_push(pk: Seq<(Seq<char>, Seq<char>)>, pair: (Seq<char>, Seq<char>))
    ensures
        has_name(pk.push(pair), pair.0),
        forall|n: Seq<char>| has_name(pk, n) ==> #[trigger] has_name(pk.push(pair), n),
{
    let pk1 = pk.push(pair);
    assert(pk1[pk.len() as int].0 == pair.0);
    assert forall|n: Seq<char>| has_name(pk, n) implies #[trigger] has_name(pk1, n) by {
        let k = choose|k: int| 0 <= k < pk.len() && pk[k].0 == n;
        assert(pk1[k] == pk[k]);
    }
}

proof fn lemma_sorted_insert(
    pk: Seq<(Seq<char>, Seq<char>)>,
    pair: (Seq<char>, Seq<char>),
    nv: Seq<Seq<char>>,
    p: int,
)
    requires
        sorted_names(pk, nv),
        0 <= p <= nv.len(),
        forall|j: int| 0 <= j < p ==> name_lt(nv[j], pair.0),
        p < nv.len() ==> nv[p] != pair.0 && !name_lt(nv[p], pair.0),
    ensures
        sorted_names(pk.push(pair), nv.insert(p, pair.0)),
{
    let name = pair.0;
    let pk1 = pk.push(pair);
    let nv2 = nv.insert(p, name);
    assert(nv2.len() == nv.len() + 1);
    assert forall|i: int| 0 <= i < nv2.len() implies #[trigger] nv2[i] == if i < p {
        nv[i]
    } else if i == p {
        name
    } else {
        nv[i - 1]
    } by {}
    if p < nv.len() {
        lemma_name_lt_total(nv[p], name);
    }
    assert forall|i: int, j: int| 0 <= i < j < nv2.len() implies name_lt(nv2[i], nv2[j]) by {
        if j < p {
        } else if j == p {
        } else if i < p {
            if j - 1 > p {
                lemma_name_lt_transitive(name, nv[p], nv[j - 1]);
            }
            lemma_name_lt_transitive(nv[i], name, nv[j - 1]);
        } else if i == p {
            if j - 1 > p {
                lemma_name_lt_transitive(name, nv[p], nv[j - 1]);
            }
        } else {
        }
    }
    lemma_has_name_push(pk, pair);
    assert forall|i: int| 0 <= i < nv2.len() implies #[trigger] has_name(pk1, nv2[i]) by {
        if i < p {
            assert(has_name(pk, nv[i]));
        } else if i > p {
            assert(has_name(pk, nv[i - 1]));
        }
    }
    assert forall|q: int| 0 <= q < pk1.len() implies #[trigger] nv2.contains(pk1[q].0) by {
        if q < pk.len() {
            assert(pk1[q] == pk[q]);
            assert(nv.contains(pk[q].0));
            let i = choose|i: int| 0 <= i < nv.len() && nv[i] == pk[q].0;
            if i < p {
                assert(nv2[i] == nv[i]);
            } else {
                assert(nv2[i + 1] == nv[i]);
            }
        } else {
            assert(nv2[p] == pk1[q].0);
        }
    }
}

proof fn lemma_sorted_found(pk: Seq<(Seq<char>, Seq<char>)>, pair: (Seq<char>, Seq<char>), nv: Seq<Seq<char>>, p: int)
    requires
        sorted_names(pk, nv),
        0 <= p < nv.len(),
        nv[p] == pair.0,
    ensures
        sorted_names(pk.push(pair), nv),
{
    let pk1 = pk.push(pair);
    lemma_has_name_push(pk, pair);
    assert forall|i: int| 0 <= i < nv.len() implies #[trigger] has_name(pk1, nv[i]) by {
        assert(has_name(pk, nv[i]));
    }
    assert forall|q: int| 0 <= q < pk1.len() implies #[trigger] nv.contains(pk1[q].0) by {
        if q < pk.len() {
            assert(pk1[q] == pk[q]);
        } else {
            assert(nv[p] == pk1[q].0);
        }
    }
}

fn distinct_sorted_names(headers: &Vec<(String, String)>) -> (names: Vec<Vec<char>>)
    ensures
        sorted_names(pairs_view(headers@), names@.map_values(|n: Vec<char>| n@)),
{
    let ghost pv = pairs_view(headers@);
    let mut names: Vec<Vec<char>> = Vec::new();
    let mut k: usize = 0;
    while k < headers.len()
        invariant
            k <= headers@.len(),
            pv == pairs_view(headers@),
            pv.len() == headers@.len(),
            sorted_names(pv.take(k as int), names@.map_values(|n: Vec<char>| n@)),
        decreases headers@.len() - k,
    {
        let name = to_chars(headers[k].0.as_str());
        let ghost nv = names@.map_values(|n: Vec<char>| n@);
        let ghost pk = pv.take(k as int);
        let ghost pk1 = pv.take(k + 1);
        assert(pk1[k as int] == pv[k as int]);
        assert(pv[k as int].0 == name@);
        let mut p: usize = 0;
        while p < names.len() && name_less(&names[p], &name)
            invariant
                p <= names@.len(),
                nv == names@.map_values(|n: Vec<char>| n@),
                forall|j: int| 0 <= j < p ==> name_lt(nv[j], name@),
            decreases names@.len() - p,
        {
            p += 1;
        }
        let found = p < names.len() && crate::text::eq_vec(&names[p], &name);
        proof {
            assert(pk1 =~= pk.push(pv[k as int]));
        }
        if !found {
            names.insert(p, name);
            proof {
                lemma_sorted_insert(pk, pv[k as int], nv, p as int);
                assert(names@.map_values(|n: Vec<char>| n@) =~= nv.insert(p as int, pv[k as int].0));
            }
        } else {
            proof {
                lemma_sorted_found(pk, pv[k as int], nv, p as int);
            }
        }
        k += 1;
    }
    assert(pv.take(headers@.len() as int) =~= pv);
    names
}

proof fn lemma_values_take(pairs: Seq<(Seq<char>, Seq<char>)>, name: Seq<char>, k: int)
    requires
        0 <= k < pairs.len(),
    ensures
        values_of(pairs.take(k + 1), name) == if pairs[k].0 == name {
            values_of(pairs.take(k), name).push(pairs[k].1)
        } else {
            values_of(pairs.take(k), name)
        },
{
    assert(pairs.take(k + 1).drop_last() =~= pairs.take(k));
}

/// The values given under `name`, in order.
fn values_under(headers: &Vec<(String, String)>, name: &[char]) -> (r: Vec<String>)
    ensures
        r@.map_values(|s: String| s@) == values_of(pairs_view(headers@), name@),
{
    let ghost pv = pairs_view(headers@);
    let mut out: Vec<String> = Vec::new();
    let mut k: usize = 0;
    while k < headers.len()
        invariant
            k <= headers@.len(),
            pv == pairs_view(headers@),
            pv.len() == headers@.len(),
            out@.map_values(|s: String| s@) == values_of(pv.take(k as int), name@),
        decreases headers@.len() - k,
    {
        proof {
            lemma_values_take(pv, name@, k as int);
        }
        let n = to_chars(headers[k].0.as_str());
        if crate::text::eq_vec(&n, name) {
            let ghost before = out@;
            out.push(headers[k].1.clone());
            assert(out@.map_values(|s: String| s@) =~= before.map_values(|s: String| s@).push(pv[k as int].1));
        }
        k += 1;
    }
    assert(pv.take(headers@.len() as int) =~= pv);
    out
}

fn header_member_json(name: &[char], values: &Vec<String>) -> (r: (String, Json))
    ensures
        (r.0@, r.1@) == header_member((name@, values@.map_values(|s: String| s@))),
{
    let n = from_chars(name);
    if values.len() == 1 {
        (n, Json::Str(values[0].clone()))
    } else {
        let mut vals: Vec<Json> = Vec::new();
        let mut j: usize = 0;
        while j < values.len()
            invariant
                j <= values@.len(),
                crate::json::views(vals@) == values@.take(j as int).map_values(|s: String| JsonV::Str(s@)),
            decreases values@.len() - j,
        {
            let ghost before = vals@;
            let sv = values[j].clone();
            assert(sv@ == values@[j as int]@);
            vals.push(Json::Str(sv));
            proof {
                crate::json::lemma_views(vals@);
                crate::json::lemma_views(before);
                assert(vals@[j as int]@ == JsonV::Str(values@[j as int]@));
                assert(crate::json::views(vals@) =~= crate::json::views(before).push(JsonV::Str(values@[j as int]@)));
            }
            assert(values@.take(j + 1).map_values(|s: String| JsonV::Str(s@)) =~= values@.take(j as int).map_values(
                |s: String| JsonV::Str(s@),
            ).push(JsonV::Str(values@[j as int]@)));
            j += 1;
        }
        assert(values@.take(values@.len() as int) =~= values@);
        assert(values@.map_values(|s: String| JsonV::Str(s@)) =~= values@.map_values(|s: String| s@).map_values(
            |v: Seq<char>| JsonV::Str(v),
        ));
        let r = Json::Array(vals);
        assert(r@ == JsonV::Array(crate::json::views(vals@)));
        (n, r)
    }
}

/// `headers_to_json`, on the headers as (name, value) text pairs in the
/// order the header map gives them: the JSON text of `headers_json` for the
/// names in sorted order.
pub fn headers_to_json(headers: &Vec<(String, String)>) -> (r: String)
    ensures
        exists|names: Seq<Seq<char>>|
            #![trigger sorted_names(pairs_view(headers@), names)]
            sorted_names(pairs_view(headers@), names) && r@ == crate::json::json_text(
                headers_json(pairs_view(headers@), names),
            ),
{
    let names = distinct_sorted_names(headers);
    let ghost nv = names@.map_values(|n: Vec<char>| n@);
    let ghost pv = pairs_view(headers@);
    let mut members: Vec<(String, Json)> = Vec::new();
    let mut i: usize = 0;
    assert(crate::json::member_views(members@) =~= Seq::<(Seq<char>, JsonV)>::empty());
    while i < names.len()
        invariant
            i <= names@.len(),
            nv == names@.map_values(|n: Vec<char>| n@),
            pv == pairs_view(headers@),
            crate::json::member_views(members@) == nv.take(i as int).map_values(
                |n: Seq<char>| header_member((n, values_of(pv, n))),
            ),
        decreases names@.len() - i,
    {
        let values = values_under(headers, &names[i]);
        let m = header_member_json(&names[i], &values);
        let ghost before = members@;
        members.push(m);
        proof {
            assert(members@.drop_last() =~= before);
            assert(nv[i as int] == names@[i as int]@);
            assert(nv.take(i + 1).map_values(|n: Seq<char>| header_member((n, values_of(pv, n)))) =~= nv.take(
                i as int,
            ).map_values(|n: Seq<char>| header_member((n, values_of(pv, n)))).push(
                header_member((nv[i as int], values_of(pv, nv[i as int]))),
            ));
        }
        i += 1;
    }
    assert(nv.take(names@.len() as int) =~= nv);
    let obj = Json::Object(members);
    assert(obj@ == JsonV::Object(crate::json::member_views(members@)));
    assert(obj@ == headers_json(pv, nv));
    crate::json::to_json_text(&obj)
}

// ─── updating a stored entry ───────────────────────────────────────────

/// Token counts of a logged request. `R` is the type the cache hit rate
/// and the cost are held in; the merge below never computes with it.
#[derive(Debug, Clone, PartialEq)]
pub struct LogUsage<R> {
    pub input_tokens: Option<i64>,
    pub output_tokens: Option<i64>,
    pub total_tokens: Option<i64>,
    pub read_cache_tokens: Option<i64>,
    pub read_cache_hit_rate: Option<R>,
    pub write_cache_tokens: Option<i64>,
}

/// What a later stage of a request reports; `None` leaves a column as it is.
#[derive(Debug, Clone, PartialEq)]
pub struct RequestLogUpdate<R> {
    pub status: Option<String>,
    pub usage: Option<LogUsage<R>>,
    pub cost_usd: Option<R>,
    pub latency_ms: Option<i64>,
    pub ttft_ms: Option<i64>,
    pub error_message: Option<String>,
    pub upstream_request_body_bytes: Option<i64>,
    pub upstream_request_headers_json: Option<String>,
    pub upstream_request_json: Option<String>,
    pub upstream_response_sse: Option<String>,
    pub response_json: Option<String>,
}

/// The columns of a stored entry that an update can change.
#[derive(Debug, Clone, PartialEq)]
pub struct RequestLogRow<R> {
    pub status: String,
    pub usage: LogUsage<R>,
    pub cost_usd: Option<R>,
    pub latency_ms: Option<i64>,
    pub ttft_ms: Option<i64>,
    pub error_message: Option<String>,
    pub upstream_request_body_bytes: Option<i64>,
    pub upstream_request_headers_json: Option<String>,
    pub upstream_request_json: Option<String>,
    pub upstream_response_sse: Option<String>,
    pub response_json: Option<String>,
}

pub open spec fn or_keep<T>(new: Option<T>, old: Option<T>) -> Option<T> {
    match new {
        Some(v) => Some(v),
        None => old,
    }
}

/// The stored entry after an update: each reported value replaces its
/// column, the usage as a whole; what was not reported stays.
pub open spec fn merged_row<R>(old: RequestLogRow<R>, u: RequestLogUpdate<R>) -> RequestLogRow<R> {
    RequestLogRow {
        status: match u.status {
            Some(s) => s,
            None => old.status,
        },
        usage: match u.usage {
            Some(x) => x,
            None => old.usage,
        },
        cost_usd: or_keep(u.cost_usd, old.cost_usd),
        latency_ms: or_keep(u.latency_ms, old.latency_ms),
        ttft_ms: or_keep(u.ttft_ms, old.ttft_ms),
        error_message: or_keep(u.error_message, old.error_message),
        upstream_request_body_bytes: or_keep(u.upstream_request_body_bytes, old.upstream_request_body_bytes),
        upstream_request_headers_json: or_keep(u.upstream_request_headers_json, old.upstream_request_headers_json),
        upstream_request_json: or_keep(u.upstream_request_json, old.upstream_request_json),
        upstream_response_sse: or_keep(u.upstream_response_sse, old.upstream_response_sse),
        response_json: or_keep(u.response_json, old.response_json),
    }
}

fn keep<T>(new: Option<T>, old: Option<T>) -> (r: Option<T>)
    ensures
        r == or_keep(new, old),
{
    match new {
        Some(v) => Some(v),
        None => old,
    }
}

/// The row an update writes over a stored entry.
pub fn merge_log_update<R>(old: RequestLogRow<R>, u: RequestLogUpdate<R>) -> (r: RequestLogRow<R>)
    ensures
        r == merged_row(old, u),
{
    RequestLogRow {
        status: match u.status {
            Some(s) => s,
            None => old.status,
        },
        usage: match u.usage {
            Some(x) => x,
            None => old.usage,
        },
        cost_usd: keep(u.cost_usd, old.cost_usd),
        latency_ms: keep(u.latency_ms, old.latency_ms),
        ttft_ms: keep(u.ttft_ms, old.ttft_ms),
        error_message: keep(u.error_message, old.error_message),
        upstream_request_body_bytes: keep(u.upstream_request_body_bytes, old.upstream_request_body_bytes),
        upstream_request_headers_json: keep(u.upstream_request_headers_json, old.upstream_request_headers_json),
        upstream_request_json: keep(u.upstream_request_json, old.upstream_request_json),
        upstream_response_sse: keep(u.upstream_response_sse, old.upstream_response_sse),
        response_json: keep(u.response_json, old.response_json),
    }
}

/// An empty update leaves a stored entry as it is.
pub proof fn law_empty_update_keeps_row<R>(old: RequestLogRow<R>, u: RequestLogUpdate<R>)
    requires
        u.status is None,
        u.usage is None,
        u.cost_usd is None,
        u.latency_ms is None,
        u.ttft_ms is None,
        u.error_message is None,
        u.upstream_request_body_bytes is None,
        u.upstream_request_headers_json is None,
        u.upstream_request_json is None,
        u.upstream_response_sse is None,
        u.response_json is None,
    ensures
        merged_row(old, u) == old,
{
}

/// Applying the same update twice gives what applying it once gives.
pub proof fn law_update_is_idempotent<R>(old: RequestLogRow<R>, u: RequestLogUpdate<R>)
    ensures
        merged_row(merged_row(old, u), u) == merged_row(old, u),
{
}

// ─── a chunk of a logged stream ────────────────────────────────────────

/// The event a complete line of a logged stream carries, where
/// `observe_sse_line` takes a step on it.
pub open spec fn logged_event(line: Seq<char>) -> Option<JsonV> {
    match crate::responses_stream::sse_data(line) {
        None => None,
        Some(d) => if crate::text::trim(d) == "[DONE]"@ {
            None
        } else {
            match crate::json::parsed_json(d) {
                None => None,
                Some(ev) => if ends_response(event_type_of(ev)) && !total_fits(event_response(ev)) {
                    None
                } else {
                    Some(ev)
                },
            }
        },
    }
}

/// The complete lines of `s` (each without its `\n` and trailing `\r`s).
pub open spec fn lines_of(s: Seq<char>) -> Seq<Seq<char>>
    decreases s.len(),
{
    if exists|p: int| crate::responses_stream::is_first_newline(s, p) {
        let p = choose|p: int| crate::responses_stream::is_first_newline(s, p);
        seq![crate::responses_stream::trim_trailing_cr(s.take(p))] + lines_of(s.skip(p + 1))
    } else {
        Seq::empty()
    }
}

/// What is left of `s` after its last `\n`.
pub open spec fn rest_of(s: Seq<char>) -> Seq<char>
    decreases s.len(),
{
    if exists|p: int| crate::responses_stream::is_first_newline(s, p) {
        let p = choose|p: int| crate::responses_stream::is_first_newline(s, p);
        rest_of(s.skip(p + 1))
    } else {
        s
    }
}

/// Whether the time to the first token is recorded after `lines`.
pub open spec fn ttft_after(lines: Seq<Seq<char>>, ttft_recorded: bool) -> bool
    decreases lines.len(),
{
    if lines.len() == 0 {
        ttft_recorded
    } else {
        let before = ttft_after(lines.drop_last(), ttft_recorded);
        match logged_event(lines.last()) {
            Some(ev) => before || crate::responses_stream::first_token_event(event_type_of(ev)),
            None => before,
        }
    }
}

/// Whether the response has ended after `lines`.
pub open spec fn completed_after(lines: Seq<Seq<char>>, completed: bool) -> bool
    decreases lines.len(),
{
    if lines.len() == 0 {
        completed
    } else {
        let before = completed_after(lines.drop_last(), completed);
        match logged_event(lines.last()) {
            Some(ev) => before || ends_response(event_type_of(ev)),
            None => before,
        }
    }
}

/// `steps` are the steps taken on `lines`, one for each line that carries
/// an event, in order.
pub open spec fn steps_of(steps: Seq<SseLogStep>, lines: Seq<Seq<char>>, ttft_recorded: bool) -> bool
    decreases lines.len(),
{
    if lines.len() == 0 {
        steps.len() == 0
    } else {
        let before = lines.drop_last();
        match logged_event(lines.last()) {
            None => steps_of(steps, before, ttft_recorded),
            Some(ev) => {
                &&& steps.len() > 0
                &&& steps_of(steps.drop_last(), before, ttft_recorded)
                &&& is_log_step(steps.last(), ev, ttft_after(before, ttft_recorded))
            },
        }
    }
}

proof fn lemma_split_first_line(s: Seq<char>, p: int)
    requires
        crate::responses_stream::is_first_newline(s, p),
    ensures
        lines_of(s) == seq![crate::responses_stream::trim_trailing_cr(s.take(p))] + lines_of(s.skip(p + 1)),
        rest_of(s) == rest_of(s.skip(p + 1)),
{
    let q = choose|q: int| crate::responses_stream::is_first_newline(s, q);
    assert(crate::responses_stream::is_first_newline(s, q));
    if q < p {
        assert(s[q] != '\n');
    }
    if p < q {
        assert(s[p] != '\n');
    }
    assert(q == p);
}

/// `observe_sse_chunk` on a chunk's text: the text joins what is pending
/// in `line_buf`, every complete line is observed in order, and what
/// follows the last `\n` stays pending. Returns the steps taken, for the
/// caller to write to the log store.
pub fn observe_sse_text(
    line_buf: &mut crate::responses_stream::SseLineBuffer,
    text: &str,
    ttft_recorded: &mut bool,
    completed: &mut bool,
) -> (r: Vec<SseLogStep>)
    ensures
        final(line_buf)@ == rest_of(old(line_buf)@ + text@),
        steps_of(r@, lines_of(old(line_buf)@ + text@), *old(ttft_recorded)),
        *final(ttft_recorded) == ttft_after(lines_of(old(line_buf)@ + text@), *old(ttft_recorded)),
        *final(completed) == completed_after(lines_of(old(line_buf)@ + text@), *old(completed)),
{
    line_buf.push_text(text);
    let ghost all = line_buf@;
    let ghost t0 = *ttft_recorded;
    let ghost c0 = *completed;
    let ghost mut done: Seq<Seq<char>> = Seq::empty();
    let mut steps: Vec<SseLogStep> = Vec::new();
    loop
        invariant
            all == old(line_buf)@ + text@,
            t0 == *old(ttft_recorded),
            c0 == *old(completed),
            lines_of(all) == done + lines_of(line_buf@),
            rest_of(all) == rest_of(line_buf@),
            steps_of(steps@, done, t0),
            *ttft_recorded == ttft_after(done, t0),
            *completed == completed_after(done, c0),
        ensures
            lines_of(all) == done,
            rest_of(all) == line_buf@,
            steps_of(steps@, done, t0),
            *ttft_recorded == ttft_after(done, t0),
            *completed == completed_after(done, c0),
        decreases line_buf@.len(),
    {
        let ghost before = line_buf@;
        match line_buf.next_line() {
            None => {
                proof {
                    assert(!exists|p: int| crate::responses_stream::is_first_newline(before, p));
                    assert(lines_of(before) =~= Seq::<Seq<char>>::empty());
                    assert(done + lines_of(before) =~= done);
                }
                break;
            },
            Some(line) => {
                proof {
                    let p = before.len() - line_buf@.len() - 1;
                    lemma_split_first_line(before, p);
                    assert(done + lines_of(before) =~= done.push(line@) + lines_of(line_buf@));
                    assert(done.push(line@).drop_last() =~= done);
                }
                let ghost prev = done;
                proof {
                    done = done.push(line@);
                }
                match observe_sse_line(line.as_str(), *ttft_recorded) {
                    None => {},
                    Some(step) => {
                        if step.record_ttft {
                            *ttft_recorded = true;
                        }
                        if step.completion.is_some() {
                            *completed = true;
                        }
                        let ghost s0 = steps@;
                        steps.push(step);
                        proof {
                            assert(steps@.drop_last() =~= s0);
                        }
                    },
                }
                proof {
                    assert(done.drop_last() =~= prev);
                    assert(done.last() == line@);
                }
            },
        }
    }
    steps
}

pub open spec fn first_token_line(line: Seq<char>) -> bool {
    logged_event(line) matches Some(ev) && crate::responses_stream::first_token_event(event_type_of(ev))
}

pub open spec fn ending_line(line: Seq<char>) -> bool {
    logged_event(line) matches Some(ev) && ends_response(event_type_of(ev))
}

/// After a run of lines the first token counts as recorded exactly when it
/// already was, or one of the lines carries a first-token event.
pub proof fn law_ttft_after_lines(lines: Seq<Seq<char>>, ttft_recorded: bool)
    ensures
        ttft_after(lines, ttft_recorded) == (ttft_recorded || exists|i: int|
            0 <= i < lines.len() && #[trigger] first_token_line(lines[i])),
    decreases lines.len(),
{
    if lines.len() > 0 {
        let before = lines.drop_last();
        law_ttft_after_lines(before, ttft_recorded);
        if exists|i: int| 0 <= i < before.len() && #[trigger] first_token_line(before[i]) {
            let i = choose|i: int| 0 <= i < before.len() && #[trigger] first_token_line(before[i]);
            assert(lines[i] == before[i]);
        }
        if exists|i: int| 0 <= i < lines.len() && #[trigger] first_token_line(lines[i]) {
            let i = choose|i: int| 0 <= i < lines.len() && #[trigger] first_token_line(lines[i]);
            if i < lines.len() - 1 {
                assert(before[i] == lines[i]);
            }
        }
        assert(first_token_line(lines.last()) ==> first_token_line(lines[lines.len() - 1]));
    }
}

/// After a run of lines the response counts as ended exactly when it
/// already was, or one of the lines carries an ending event.
pub proof fn law_completed_after_lines(lines: Seq<Seq<char>>, completed: bool)
    ensures
        completed_after(lines, completed) == (completed || exists|i: int|
            0 <= i < lines.len() && #[trigger] ending_line(lines[i])),
    decreases lines.len(),
{
    if lines.len() > 0 {
        let before = lines.drop_last();
        law_completed_after_lines(before, completed);
        if exists|i: int| 0 <= i < before.len() && #[trigger] ending_line(before[i]) {
            let i = choose|i: int| 0 <= i < before.len() && #[trigger] ending_line(before[i]);
            assert(lines[i] == before[i]);
        }
        if exists|i: int| 0 <= i < lines.len() && #[trigger] ending_line(lines[i]) {
            let i = choose|i: int| 0 <= i < lines.len() && #[trigger] ending_line(lines[i]);
            if i < lines.len() - 1 {
                assert(before[i] == lines[i]);
            }
        }
        assert(ending_line(lines.last()) ==> ending_line(lines[lines.len() - 1]));
    }
}

proof fn lemma_ttft_monotone(lines: Seq<Seq<char>>, ttft_recorded: bool)
    ensures
        ttft_recorded ==> ttft_after(lines, ttft_recorded),
    decreases lines.len(),
{
    if lines.len() > 0 {
        lemma_ttft_monotone(lines.drop_last(), ttft_recorded);
    }
}

/// The steps taken on a run of lines ask for the time to the first token
/// at most once, and not at all once it was recorded before; the run ends
/// with it recorded exactly when it was before or a step asked for it.
pub proof fn law_ttft_recorded_at_most_once(steps: Seq<SseLogStep>, lines: Seq<Seq<char>>, ttft_recorded: bool)
    requires
        steps_of(steps, lines, ttft_recorded),
    ensures
        ttft_recorded ==> forall|i: int| 0 <= i < steps.len() ==> !(#[trigger] steps[i].record_ttft),
        forall|i: int, j: int|
            0 <= i < j < steps.len() ==> !(#[trigger] steps[i].record_ttft && #[trigger] steps[j].record_ttft),
        ttft_after(lines, ttft_recorded) == (ttft_recorded || exists|i: int|
            0 <= i < steps.len() && #[trigger] steps[i].record_ttft),
    decreases lines.len(),
{
    if lines.len() > 0 {
        let before = lines.drop_last();
        match logged_event(lines.last()) {
            None => {
                law_ttft_recorded_at_most_once(steps, before, ttft_recorded);
            },
            Some(ev) => {
                let prev = steps.drop_last();
                law_ttft_recorded_at_most_once(prev, before, ttft_recorded);
                let n = steps.len() - 1;
                assert forall|i: int| 0 <= i < n implies steps[i] == #[trigger] prev[i] by {}
                if steps[n].record_ttft {
                    // the step asks only while nothing was recorded before it
                    assert(!ttft_after(before, ttft_recorded));
                    lemma_ttft_monotone(before, ttft_recorded);
                    assert forall|i: int| 0 <= i < n implies !(#[trigger] steps[i].record_ttft) by {
                        assert(prev[i] == steps[i]);
                    }
                }
                assert forall|i: int, j: int| 0 <= i < j < steps.len() implies !(#[trigger] steps[i].record_ttft
                    && #[trigger] steps[j].record_ttft) by {
                    if j < n {
                        assert(prev[i] == steps[i] && prev[j] == steps[j]);
                    } else if steps[j].record_ttft {
                        assert(prev[i] == steps[i]);
                    }
                }
                if ttft_recorded {
                    assert forall|i: int| 0 <= i < steps.len() implies !(#[trigger] steps[i].record_ttft) by {
                        if i < n {
                            assert(prev[i] == steps[i]);
                        } else {
                            lemma_ttft_monotone(before, ttft_recorded);
                        }
                    }
                }
                if exists|i: int| 0 <= i < prev.len() && #[trigger] prev[i].record_ttft {
                    let i = choose|i: int| 0 <= i < prev.len() && #[trigger] prev[i].record_ttft;
                    assert(steps[i] == prev[i]);
                }
                if exists|i: int| 0 <= i < steps.len() && #[trigger] steps[i].record_ttft {
                    let i = choose|i: int| 0 <= i < steps.len() && #[trigger] steps[i].record_ttft;
                    if i < n {
                        assert(prev[i] == steps[i]);
                    }
                }
            },
        }
    }
}

} // verus!
