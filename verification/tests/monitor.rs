use beefy_relay::errors::MonitorError;
use beefy_relay::monitor::{
    classify_send_outcome, event_kind_of, from_raw_event_to_batch_event, handle_single_event,
    retry_delays, sort_events, step_delay, EventKind, IbcEvent, MonitorMachine, MonitorState,
    RawEvent, ReconnectBudget, MAX_STEP_DELAY_SECS, MAX_TOTAL_DELAY_SECS,
};

fn le32(x: u32) -> Vec<u8> {
    x.to_le_bytes().to_vec()
}

fn le64(x: u64) -> Vec<u8> {
    x.to_le_bytes().to_vec()
}

fn bytes_field(b: &[u8]) -> Vec<u8> {
    let mut v = le32(b.len() as u32);
    v.extend_from_slice(b);
    v
}

fn client_event_payload(height: u64, client_id: &[u8], client_type: &[u8], ch: u64) -> Vec<u8> {
    let mut v = le64(height);
    v.extend(bytes_field(client_id));
    v.extend(bytes_field(client_type));
    v.extend(le64(ch));
    v
}

#[test]
fn kinds_are_classified() {
    assert_eq!(event_kind_of(&"CreateClient".to_owned()), EventKind::CreateClient);
    assert_eq!(event_kind_of(&"SendPacket".to_owned()), EventKind::SendPacket);
    assert_eq!(event_kind_of(&"ExtrinsicSuccess".to_owned()), EventKind::ExtrinsicSuccess);
    assert_eq!(event_kind_of(&"SomethingElse".to_owned()), EventKind::Unknown);
}

#[test]
fn create_client_event_decodes() {
    let raw = RawEvent {
        variant: "CreateClient".to_owned(),
        data: client_event_payload(88, b"10-grandpa-0", b"grandpa", 7),
    };
    let batch = from_raw_event_to_batch_event(&raw, &b"chain-a".to_vec(), 1000, 1).unwrap();
    // The batch carries the event's own height, not the latest one.
    assert_eq!(batch.height, 88);
    assert_eq!(batch.chain_id, b"chain-a".to_vec());
    assert_eq!(batch.tracking_id, 1);
    assert_eq!(batch.events.len(), 1);
    match &batch.events[0] {
        IbcEvent::CreateClient(d) => {
            assert_eq!(d.client_id, b"10-grandpa-0".to_vec());
            assert_eq!(d.client_type, b"grandpa".to_vec());
            assert_eq!(d.consensus_height, 7);
        },
        other => panic!("wrong event: {:?}", other),
    }
}

#[test]
fn malformed_known_kind_fails_codec_decode() {
    let raw = RawEvent { variant: "CreateClient".to_owned(), data: vec![1, 2, 3] };
    assert_eq!(
        from_raw_event_to_batch_event(&raw, &b"chain-a".to_vec(), 1000, 1),
        Err(MonitorError::InvalidCodecDecode)
    );
    // Trailing bytes after a complete payload are malformed too.
    let mut data = client_event_payload(88, b"x", b"y", 7);
    data.push(0);
    let raw = RawEvent { variant: "CreateClient".to_owned(), data };
    assert_eq!(
        from_raw_event_to_batch_event(&raw, &b"chain-a".to_vec(), 1000, 1),
        Err(MonitorError::InvalidCodecDecode)
    );
}

#[test]
fn unknown_kind_decodes_to_empty_batch() {
    let raw = RawEvent { variant: "BalancesTransfer".to_owned(), data: vec![1, 2, 3] };
    let batch = from_raw_event_to_batch_event(&raw, &b"chain-a".to_vec(), 1000, 1).unwrap();
    assert!(batch.events.is_empty());
    assert_eq!(batch.height, 1000);
    // And the bus sees nothing of it.
    assert!(handle_single_event(&raw, &b"chain-a".to_vec(), 1000, 1).is_none());
}

#[test]
fn extrinsic_success_becomes_new_block_at_latest_height() {
    let raw = RawEvent { variant: "ExtrinsicSuccess".to_owned(), data: le64(5) };
    let batch = from_raw_event_to_batch_event(&raw, &b"chain-a".to_vec(), 777, 2).unwrap();
    assert_eq!(batch.height, 777);
    assert_eq!(batch.events, vec![IbcEvent::NewBlock(777)]);
}

#[test]
fn packet_event_decodes() {
    let mut data = le64(12); // height
    data.extend(le64(3)); // sequence
    data.extend(bytes_field(b"transfer"));
    data.extend(bytes_field(b"channel-0"));
    data.extend(bytes_field(b"transfer"));
    data.extend(bytes_field(b"channel-1"));
    data.extend(bytes_field(b"payload"));
    data.extend(le64(0)); // timeout height
    data.extend(le64(0)); // timeout timestamp
    let raw = RawEvent { variant: "SendPacket".to_owned(), data };
    let batch = from_raw_event_to_batch_event(&raw, &b"chain-a".to_vec(), 1000, 3).unwrap();
    assert_eq!(batch.height, 12);
    match &batch.events[0] {
        IbcEvent::SendPacket(p) => {
            assert_eq!(p.sequence, 3);
            assert_eq!(p.source_channel, b"channel-0".to_vec());
            assert_eq!(p.destination_channel, b"channel-1".to_vec());
            assert_eq!(p.data, b"payload".to_vec());
        },
        other => panic!("wrong event: {:?}", other),
    }
}

#[test]
fn new_block_events_sort_first() {
    let client = beefy_relay::monitor::ClientEventData {
        client_id: b"c".to_vec(),
        client_type: b"t".to_vec(),
        consensus_height: 1,
    };
    let events = vec![
        IbcEvent::CreateClient(client.clone()),
        IbcEvent::NewBlock(4),
        IbcEvent::UpdateClient(client.clone()),
        IbcEvent::NewBlock(5),
    ];
    let sorted = sort_events(events);
    assert_eq!(
        sorted,
        vec![
            IbcEvent::NewBlock(4),
            IbcEvent::NewBlock(5),
            IbcEvent::CreateClient(client.clone()),
            IbcEvent::UpdateClient(client),
        ]
    );
}

#[test]
fn backoff_grows_like_fibonacci_with_caps() {
    assert_eq!(step_delay(0), 1);
    assert_eq!(step_delay(1), 1);
    assert_eq!(step_delay(2), 2);
    assert_eq!(step_delay(3), 3);
    assert_eq!(step_delay(4), 5);
    assert_eq!(step_delay(9), 55);
    assert_eq!(step_delay(10), 60); // capped: the raw value is 89
    assert_eq!(step_delay(30), 60);
}

#[test]
fn cumulative_backoff_never_exceeds_budget() {
    let delays = retry_delays();
    let total: u64 = delays.iter().sum();
    assert!(total <= MAX_TOTAL_DELAY_SECS);
    for d in &delays {
        assert!(1 <= *d && *d <= MAX_STEP_DELAY_SECS);
    }
    // The schedule is maximal: one more step would pass the budget.
    assert!(total + step_delay(delays.len()) > MAX_TOTAL_DELAY_SECS);
}

#[test]
fn budget_exhaustion_is_terminal() {
    let mut budget = ReconnectBudget::begin();
    let mut total: u64 = 0;
    while let Some(d) = budget.next_delay() {
        total += d;
        assert!(total <= MAX_TOTAL_DELAY_SECS);
    }
    assert_eq!(total, budget.total_slept);
    assert!(budget.next_delay().is_none());
}

#[test]
fn monitor_machine_reconnects_and_terminates() {
    let mut m = MonitorMachine::new();
    assert_eq!(m.state, MonitorState::Disconnected);
    m.start_connect();
    assert_eq!(m.state, MonitorState::Connecting);
    m.on_subscribed();
    assert_eq!(m.state, MonitorState::Subscribed);
    // The stream closes: reconnect with bounded backoff.
    m.on_stream_error();
    assert_eq!(m.state, MonitorState::Reconnecting);
    let mut slept: u64 = 0;
    loop {
        match m.next_reconnect_delay() {
            Ok(d) => {
                slept += d;
                assert!(slept <= MAX_TOTAL_DELAY_SECS);
                m.start_connect();
                m.on_connect_failed(); // the endpoint stays unreachable
            },
            Err(e) => {
                assert_eq!(e, MonitorError::RetryBudgetExhausted);
                break;
            },
        }
    }
    assert_eq!(m.state, MonitorState::Terminated);
    assert!(slept <= MAX_TOTAL_DELAY_SECS);
}

#[test]
fn failed_send_becomes_channel_error() {
    assert_eq!(classify_send_outcome(true), Ok(()));
    assert_eq!(classify_send_outcome(false), Err(MonitorError::ChannelSendFailed));
}

#[test]
fn shutdown_is_honored_at_loop_boundary() {
    let mut m = MonitorMachine::new();
    m.start_connect();
    m.on_subscribed();
    m.on_shutdown();
    assert_eq!(m.state, MonitorState::Terminated);
}
