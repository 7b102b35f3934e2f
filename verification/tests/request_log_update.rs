use codexhub::request_log::{merge_log_update, LogUsage, RequestLogRow, RequestLogUpdate};

fn usage(input: i64, rate: f64) -> LogUsage<f64> {
    LogUsage {
        input_tokens: Some(input),
        output_tokens: Some(2),
        total_tokens: Some(input + 2),
        read_cache_tokens: None,
        read_cache_hit_rate: Some(rate),
        write_cache_tokens: None,
    }
}

fn pending_row() -> RequestLogRow<f64> {
    RequestLogRow {
        status: "pending".to_string(),
        usage: usage(10, 0.5),
        cost_usd: Some(0.25),
        latency_ms: None,
        ttft_ms: Some(40),
        error_message: None,
        upstream_request_body_bytes: Some(128),
        upstream_request_headers_json: Some("{}".to_string()),
        upstream_request_json: None,
        upstream_response_sse: None,
        response_json: None,
    }
}

fn empty_update() -> RequestLogUpdate<f64> {
    RequestLogUpdate {
        status: None,
        usage: None,
        cost_usd: None,
        latency_ms: None,
        ttft_ms: None,
        error_message: None,
        upstream_request_body_bytes: None,
        upstream_request_headers_json: None,
        upstream_request_json: None,
        upstream_response_sse: None,
        response_json: None,
    }
}

#[test]
fn update_replaces_reported_columns_and_keeps_the_rest() {
    let update = RequestLogUpdate {
        status: Some("success".to_string()),
        latency_ms: Some(900),
        response_json: Some("{\"id\":\"r\"}".to_string()),
        ..empty_update()
    };
    let row = merge_log_update(pending_row(), update);
    assert_eq!(row.status, "success");
    assert_eq!(row.latency_ms, Some(900));
    assert_eq!(row.response_json.as_deref(), Some("{\"id\":\"r\"}"));
    assert_eq!(row.usage, usage(10, 0.5));
    assert_eq!(row.cost_usd, Some(0.25));
    assert_eq!(row.ttft_ms, Some(40));
    assert_eq!(row.upstream_request_body_bytes, Some(128));
    assert_eq!(row.upstream_request_headers_json.as_deref(), Some("{}"));
}

#[test]
fn reported_usage_replaces_the_stored_usage_whole() {
    let update = RequestLogUpdate { usage: Some(usage(7, 0.75)), cost_usd: Some(1.5), ..empty_update() };
    let row = merge_log_update(pending_row(), update);
    assert_eq!(row.usage, usage(7, 0.75));
    assert_eq!(row.cost_usd, Some(1.5));
    assert_eq!(row.status, "pending");
}

#[test]
fn empty_update_leaves_the_row_unchanged() {
    assert_eq!(merge_log_update(pending_row(), empty_update()), pending_row());
}

#[test]
fn applying_an_update_twice_changes_nothing_more() {
    let update = RequestLogUpdate { error_message: Some("timeout".to_string()), ..empty_update() };
    let once = merge_log_update(pending_row(), update.clone());
    let twice = merge_log_update(once.clone(), update);
    assert_eq!(once, twice);
}
