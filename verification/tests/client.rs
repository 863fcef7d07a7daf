use okx_md::ws_client::{
    classify_recv, next_step, run_next, WsFrame, WsNextOutcome, WsPayload, WsRawEvent, WsStep,
    WsTransportError,
};

#[test]
fn recv_folds_reconnect_triggers_into_close() {
    assert_eq!(classify_recv(WsRawEvent::StreamEnd), Ok(WsFrame::Close));
    assert_eq!(
        classify_recv(WsRawEvent::Failed(
            WsTransportError::ResetWithoutClosingHandshake
        )),
        Ok(WsFrame::Close)
    );
    assert_eq!(
        classify_recv(WsRawEvent::Failed(WsTransportError::Http { status: 429 })),
        Ok(WsFrame::Close)
    );
}

#[test]
fn recv_surfaces_other_failures() {
    assert_eq!(
        classify_recv(WsRawEvent::Failed(WsTransportError::Http { status: 500 })),
        Err(WsTransportError::Http { status: 500 })
    );
    assert_eq!(
        classify_recv(WsRawEvent::Failed(WsTransportError::Other)),
        Err(WsTransportError::Other)
    );
    assert_eq!(
        classify_recv(WsRawEvent::Received(WsFrame::Text("x".to_string()))),
        Ok(WsFrame::Text("x".to_string()))
    );
}

#[test]
fn steps_deliver_payloads_and_flag_unsupported_frames() {
    assert_eq!(
        next_step(&WsRawEvent::Received(WsFrame::Text("{}".to_string()))),
        WsStep::Deliver(WsPayload::Text("{}".to_string()))
    );
    assert_eq!(
        next_step(&WsRawEvent::Received(WsFrame::Binary(vec![1, 2]))),
        WsStep::Deliver(WsPayload::Binary(vec![1, 2]))
    );
    assert_eq!(
        next_step(&WsRawEvent::Received(WsFrame::Pong(vec![]))),
        WsStep::PongReply
    );
    assert_eq!(
        next_step(&WsRawEvent::Received(WsFrame::Ping(vec![]))),
        WsStep::Unsupported
    );
    assert_eq!(next_step(&WsRawEvent::Received(WsFrame::Frame)), WsStep::Unsupported);
}

#[test]
fn abrupt_termination_reconnects_and_still_delivers() {
    let payload = "{\"data\":[]}".to_string();
    let events = vec![
        WsRawEvent::StreamEnd,
        WsRawEvent::Received(WsFrame::Text(payload.clone())),
    ];
    let (outcome, consumed, reconnects) = run_next(&events, 0);
    assert_eq!(outcome, WsNextOutcome::Message(WsPayload::Text(payload)));
    assert_eq!(consumed, 2);
    assert_eq!(reconnects, 1);
}

#[test]
fn every_trigger_kind_is_absorbed_before_delivery() {
    let events = vec![
        WsRawEvent::Received(WsFrame::Close),
        WsRawEvent::Failed(WsTransportError::ResetWithoutClosingHandshake),
        WsRawEvent::Failed(WsTransportError::Http { status: 429 }),
        WsRawEvent::Received(WsFrame::Binary(vec![7])),
    ];
    let (outcome, consumed, reconnects) = run_next(&events, 0);
    assert_eq!(outcome, WsNextOutcome::Message(WsPayload::Binary(vec![7])));
    assert_eq!(consumed, 4);
    assert_eq!(reconnects, 3);
}

#[test]
fn fatal_errors_pass_through_the_loop() {
    let events = vec![
        WsRawEvent::StreamEnd,
        WsRawEvent::Failed(WsTransportError::Other),
    ];
    let (outcome, consumed, reconnects) = run_next(&events, 0);
    assert_eq!(outcome, WsNextOutcome::TransportError(WsTransportError::Other));
    assert_eq!(consumed, 2);
    assert_eq!(reconnects, 1);
}

#[test]
fn an_exhausted_event_stream_reports_starvation() {
    let events = vec![WsRawEvent::StreamEnd, WsRawEvent::Received(WsFrame::Close)];
    let (outcome, consumed, reconnects) = run_next(&events, 0);
    assert_eq!(outcome, WsNextOutcome::Starved);
    assert_eq!(consumed, 2);
    assert_eq!(reconnects, 2);
}

#[test]
fn pong_frames_become_the_sentinel_message() {
    let events = vec![WsRawEvent::Received(WsFrame::Pong(vec![]))];
    let (outcome, consumed, reconnects) = run_next(&events, 0);
    assert_eq!(outcome, WsNextOutcome::PongMessage);
    assert_eq!(consumed, 1);
    assert_eq!(reconnects, 0);
}
