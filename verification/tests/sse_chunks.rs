use codexhub::request_log::observe_sse_text;
use codexhub::responses_stream::SseLineBuffer;

#[test]
fn chunks_are_observed_line_by_line_across_boundaries() {
    let mut buf = SseLineBuffer::new();
    let mut ttft = false;
    let mut completed = false;

    let steps = observe_sse_text(&mut buf, "event: response.created\ndata: {\"type\":\"response.output_te", &mut ttft, &mut completed);
    assert!(steps.is_empty());
    assert!(!ttft && !completed);

    let steps = observe_sse_text(
        &mut buf,
        "xt.delta\",\"delta\":\"hi\"}\r\ndata: {\"type\":\"response.output_text.delta\",\"delta\":\"yo\"}\n",
        &mut ttft,
        &mut completed,
    );
    assert_eq!(steps.len(), 2);
    assert!(steps[0].record_ttft);
    assert!(!steps[1].record_ttft);
    assert!(ttft);
    assert!(!completed);

    let steps = observe_sse_text(
        &mut buf,
        "data: {\"type\":\"response.completed\",\"response\":{\"status\":\"completed\",\"usage\":{\"input_tokens\":3,\"output_tokens\":4}}}\ndata: [DONE]\npartial",
        &mut ttft,
        &mut completed,
    );
    assert_eq!(steps.len(), 1);
    assert!(!steps[0].record_ttft);
    let completion = steps[0].completion.as_ref().unwrap();
    assert_eq!(completion.status, "completed");
    assert_eq!(completion.usage.input_tokens, Some(3));
    assert_eq!(completion.usage.output_tokens, Some(4));
    assert!(completed);

    // what follows the last newline waits for the next chunk
    let steps = observe_sse_text(&mut buf, "\n", &mut ttft, &mut completed);
    assert!(steps.is_empty());
    assert!(buf.next_line().is_none());
}

#[test]
fn first_token_already_recorded_is_not_asked_again() {
    let mut buf = SseLineBuffer::new();
    let mut ttft = true;
    let mut completed = false;
    let steps = observe_sse_text(
        &mut buf,
        "data: {\"type\":\"response.output_text.delta\",\"delta\":\"a\"}\n",
        &mut ttft,
        &mut completed,
    );
    assert_eq!(steps.len(), 1);
    assert!(!steps[0].record_ttft);
    assert!(ttft);
}
