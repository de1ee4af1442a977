use subsquid_client::Action;
use subsquid_client::BaseUrl;
use subsquid_client::Block;
use subsquid_client::ClientBuilder;
use subsquid_client::ClientError;
use subsquid_client::DataSource;
use subsquid_client::Engine;
use subsquid_client::Event;
use subsquid_client::Header;
use subsquid_client::StartHeight;

fn engine(start: StartHeight) -> Engine {
    let url = BaseUrl::parse("http://example.org").unwrap();
    let client = ClientBuilder::new().with_data_source(DataSource::Subsquid(url)).build();
    client.stream(start)
}

fn block(number: u64) -> Block {
    Block {
        header: Header {
            number,
            hash: format!("hash-{number}"),
            parent_hash: format!("hash-{}", number.wrapping_sub(1)),
        },
    }
}

/// Runs one full polling cycle against a fake service whose frontier is
/// `frontier` and which answers every block query with exactly the one
/// block of the queried height. Returns the heights delivered to the sink,
/// in order.
fn drive_cycle(engine: &mut Engine, frontier: &str) -> Vec<u64> {
    let mut delivered = Vec::new();
    let mut action = engine.on_event(Event::Waited).unwrap();
    match &action {
        Action::FetchHeight { url } => assert_eq!(url, "http://example.org//height"),
        _ => panic!("expected the cycle to begin by fetching the frontier height"),
    }
    action = engine.on_event(Event::Response(frontier.as_bytes().to_vec())).unwrap();
    loop {
        match action {
            Action::FetchWorker { url } => {
                let height: u64 = url.split('/').rev().nth(1).unwrap().parse().unwrap();
                action = engine
                    .on_event(Event::Response(format!("http://w{height}.example/q").into_bytes()))
                    .unwrap();
                match &action {
                    Action::QueryBlocks { url, body } => {
                        assert_eq!(url, &format!("http://w{height}.example/q"));
                        assert!(body.contains(&format!("\"fromBlock\": {height}, \"toBlock\": {height},")));
                    }
                    _ => panic!("expected a block query after the worker address"),
                }
                action = engine.on_event(Event::Blocks(vec![block(height)])).unwrap();
            }
            Action::Deliver { block } => {
                delivered.push(block.header.number);
                action = engine.on_event(Event::Delivered).unwrap();
            }
            Action::Wait { seconds } => {
                assert_eq!(seconds, 5);
                return delivered;
            }
            Action::FetchHeight { .. } | Action::QueryBlocks { .. } => {
                panic!("unexpected action in mid-cycle");
            }
        }
    }
}

#[test]
fn latest_start_delivers_the_frontier_then_advances_without_gaps() {
    let mut e = engine(StartHeight::Latest);
    assert_eq!(drive_cycle(&mut e, "100"), vec![100]);
    assert_eq!(drive_cycle(&mut e, "102"), vec![101, 102]);
}

#[test]
fn since_start_delivers_the_whole_first_range_in_order() {
    let mut e = engine(StartHeight::Since(50));
    assert_eq!(drive_cycle(&mut e, "55"), vec![50, 51, 52, 53, 54, 55]);
}

#[test]
fn an_unmoved_frontier_is_a_cycle_that_delivers_nothing() {
    let mut e = engine(StartHeight::Since(50));
    assert_eq!(drive_cycle(&mut e, "55"), vec![50, 51, 52, 53, 54, 55]);
    assert_eq!(drive_cycle(&mut e, "55"), vec![]);
    assert_eq!(drive_cycle(&mut e, "57"), vec![56, 57]);
}

#[test]
fn a_start_height_past_the_frontier_delivers_nothing_yet() {
    let mut e = engine(StartHeight::Since(200));
    assert_eq!(drive_cycle(&mut e, "100"), vec![]);
}

#[test]
fn several_blocks_in_one_response_are_delivered_in_order() {
    let mut e = engine(StartHeight::Since(9));
    let mut action = e.on_event(Event::Waited).unwrap();
    action = e.on_event(Event::Response(b"9".to_vec())).unwrap();
    assert!(matches!(action, Action::FetchWorker { .. }));
    action = e.on_event(Event::Response(b"http://w.example/".to_vec())).unwrap();
    assert!(matches!(action, Action::QueryBlocks { .. }));
    let mut delivered = Vec::new();
    action = e.on_event(Event::Blocks(vec![block(9), block(9), block(9)])).unwrap();
    for _ in 0..3 {
        match action {
            Action::Deliver { block } => {
                delivered.push(block.header.number);
                action = e.on_event(Event::Delivered).unwrap();
            }
            _ => panic!("expected a delivery"),
        }
    }
    assert!(matches!(action, Action::Wait { seconds: 5 }));
    assert_eq!(delivered, vec![9, 9, 9]);
}

#[test]
fn a_non_utf8_worker_address_fails_the_session_with_a_decoding_error() {
    let mut e = engine(StartHeight::Since(10));
    let _ = e.on_event(Event::Waited).unwrap();
    let action = e.on_event(Event::Response(b"12".to_vec())).unwrap();
    assert!(matches!(action, Action::FetchWorker { .. }));
    let r = e.on_event(Event::Response(vec![0xff, 0xfe]));
    assert!(matches!(r, Err(ClientError::Utf8Decoding)));
    // the session is over: no further action comes out, only the error again
    let r = e.on_event(Event::Waited);
    assert!(matches!(r, Err(ClientError::Utf8Decoding)));
}

#[test]
fn a_failed_delivery_ends_the_session_at_once() {
    let mut e = engine(StartHeight::Since(3));
    let _ = e.on_event(Event::Waited).unwrap();
    let _ = e.on_event(Event::Response(b"3".to_vec())).unwrap();
    let _ = e.on_event(Event::Response(b"http://w.example/".to_vec())).unwrap();
    let action = e.on_event(Event::Blocks(vec![block(3)])).unwrap();
    assert!(matches!(action, Action::Deliver { .. }));
    let r = e.on_event(Event::DeliveryFailed);
    assert!(matches!(r, Err(ClientError::SenderError)));
    let r = e.on_event(Event::Waited);
    assert!(matches!(r, Err(ClientError::SenderError)));
}

#[test]
fn a_transport_failure_ends_the_session() {
    let mut e = engine(StartHeight::Latest);
    let _ = e.on_event(Event::Waited).unwrap();
    let r = e.on_event(Event::TransportFailed);
    assert!(matches!(r, Err(ClientError::HttpRequest)));
}

#[test]
fn a_malformed_height_body_ends_the_session() {
    let mut e = engine(StartHeight::Latest);
    let _ = e.on_event(Event::Waited).unwrap();
    let r = e.on_event(Event::Response(b"abc".to_vec()));
    assert!(matches!(r, Err(ClientError::IntegerDecoding)));
}

#[test]
fn a_non_utf8_height_body_ends_the_session() {
    let mut e = engine(StartHeight::Latest);
    let _ = e.on_event(Event::Waited).unwrap();
    let r = e.on_event(Event::Response(vec![0x80]));
    assert!(matches!(r, Err(ClientError::Utf8Decoding)));
}

#[test]
fn a_malformed_block_array_ends_the_session() {
    let mut e = engine(StartHeight::Since(3));
    let _ = e.on_event(Event::Waited).unwrap();
    let _ = e.on_event(Event::Response(b"3".to_vec())).unwrap();
    let _ = e.on_event(Event::Response(b"http://w.example/".to_vec())).unwrap();
    let r = e.on_event(Event::MalformedBlocks);
    assert!(matches!(r, Err(ClientError::JsonDecoding)));
}

#[test]
fn an_empty_block_array_completes_the_height() {
    let mut e = engine(StartHeight::Since(3));
    let _ = e.on_event(Event::Waited).unwrap();
    let _ = e.on_event(Event::Response(b"4".to_vec())).unwrap();
    let _ = e.on_event(Event::Response(b"http://w.example/".to_vec())).unwrap();
    let action = e.on_event(Event::Blocks(Vec::new())).unwrap();
    match action {
        Action::FetchWorker { url } => assert_eq!(url, "http://example.org//4/worker"),
        _ => panic!("expected the next height's worker to be fetched"),
    }
}
