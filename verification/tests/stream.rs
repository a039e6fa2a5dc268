use bitflyer_client::body::{ExchangeHistory, Numeral};
use bitflyer_client::error::{Cause, Error, ErrorKind};
use bitflyer_client::stream::{
    decode_envelope, subscribe_request, AsyncResponse, AsyncResponseHandler, Frame, Signal, State,
    WrapperClient, CHANNEL_BOARD, CHANNEL_EXECUTIONS,
};

const BOARD_FRAME: &str = "{\"jsonrpc\":\"2.0\",\"method\":\"channelMessage\",\"params\":{\"channel\":\"lightning_board_BTC_JPY\",\"message\":{\"mid_price\":33320,\"bids\":[{\"price\":30000,\"size\":0.1}],\"asks\":[]}}}";

const EXECUTIONS_FRAME: &str = "{\"jsonrpc\":\"2.0\",\"method\":\"channelMessage\",\"params\":{\"channel\":\"lightning_executions_BTC_JPY\",\"message\":[{\"id\":39361,\"side\":\"SELL\",\"price\":35100,\"size\":0.01,\"exec_date\":\"2015-07-07T10:44:33.547\",\"buy_child_order_acceptance_id\":\"JRF20150707-014356-184990\",\"sell_child_order_acceptance_id\":\"JRF20150707-104433-186048\"}]}}";

struct Client {
    channel: &'static str,
    limit: usize,
    fail_at: usize,
    seen: Vec<AsyncResponse>,
}

fn client(channel: &'static str, limit: usize) -> WrapperClient<Client> {
    let mut c = WrapperClient::new(Client { channel, limit, fail_at: usize::MAX, seen: vec![] });
    c.on_open();
    c
}

impl AsyncResponseHandler for Client {
    fn receive_response(&mut self, response: AsyncResponse) -> Result<(), Error> {
        if self.seen.len() + 1 == self.fail_at {
            return Err(Error::custom(Cause::of_message("full".to_string())));
        }
        self.seen.push(response);
        Ok(())
    }

    fn channel_name(&self) -> &str {
        self.channel
    }

    fn wants_close(&self) -> bool {
        self.seen.len() == self.limit
    }

    fn takes(&self, _: AsyncResponse, _: &Self, _: Result<(), Error>) -> bool {
        true
    }

    fn get_channel(&self) -> &str {
        self.channel_name()
    }

    fn is_closed(&self) -> bool {
        self.wants_close()
    }
}

fn text(s: &str) -> Frame {
    Frame::Text(s.to_string())
}

#[test]
fn test_async_connect_board() {
    let mut c = WrapperClient::new(Client {
        channel: CHANNEL_BOARD,
        limit: 10,
        fail_at: usize::MAX,
        seen: vec![],
    });
    assert_eq!(c.state, State::Connecting);
    assert_eq!(
        c.on_open(),
        "{\"method\":\"subscribe\",\"params\":{\"channel\":\"lightning_board_BTC_JPY\"}}"
    );
    assert_eq!(c.state, State::Subscribed);
    for _ in 0..9 {
        assert_eq!(c.on_message(text(BOARD_FRAME)), Ok(Signal::Continue));
        assert_eq!(c.state, State::Subscribed);
    }
    assert_eq!(c.on_message(text(BOARD_FRAME)), Ok(Signal::Close));
    assert_eq!(c.state, State::Closed);
    assert_eq!(c.inner_handler.seen.len(), 10);
    assert!(matches!(c.inner_handler.seen[9], AsyncResponse::Board(_)));
}

#[test]
fn test_async_connect_executions() {
    let mut c = client(CHANNEL_EXECUTIONS, 3);
    assert_eq!(c.on_message(text(EXECUTIONS_FRAME)), Ok(Signal::Continue));
    assert_eq!(c.on_message(text(EXECUTIONS_FRAME)), Ok(Signal::Continue));
    assert_eq!(c.on_message(text(EXECUTIONS_FRAME)), Ok(Signal::Close));
    assert_eq!(c.state, State::Closed);
    assert_eq!(c.inner_handler.seen.len(), 3);
    let expected = ExchangeHistory {
        id: 39361,
        side: "SELL".to_string(),
        price: Numeral { text: "35100".to_string() },
        size: Numeral { text: "0.01".to_string() },
        exec_date: "2015-07-07T10:44:33.547".to_string(),
        buy_child_order_acceptance_id: "JRF20150707-014356-184990".to_string(),
        sell_child_order_acceptance_id: "JRF20150707-104433-186048".to_string(),
    };
    assert_eq!(c.inner_handler.seen[0], AsyncResponse::Executions(vec![expected]));
}

#[test]
fn closes_after_the_first_message_when_the_handler_asks() {
    let mut c = client(CHANNEL_BOARD, 1);
    assert_eq!(c.on_message(text(BOARD_FRAME)), Ok(Signal::Close));
    assert_eq!(c.state, State::Closed);
    assert_eq!(c.inner_handler.seen.len(), 1);
}

#[test]
fn forwards_nothing_more_once_closed() {
    let mut c = client(CHANNEL_BOARD, 1);
    assert_eq!(c.on_message(text(BOARD_FRAME)), Ok(Signal::Close));
    assert_eq!(c.on_message(text(BOARD_FRAME)), Ok(Signal::Continue));
    assert_eq!(c.on_message(text("junk")), Ok(Signal::Continue));
    assert_eq!(c.state, State::Closed);
    assert_eq!(c.inner_handler.seen.len(), 1);
}

#[test]
fn forwards_nothing_before_the_handshake() {
    let mut c = WrapperClient::new(Client {
        channel: CHANNEL_BOARD,
        limit: 1,
        fail_at: usize::MAX,
        seen: vec![],
    });
    assert_eq!(c.on_message(text(BOARD_FRAME)), Ok(Signal::Continue));
    assert_eq!(c.state, State::Connecting);
    assert!(c.inner_handler.seen.is_empty());
}

#[test]
fn ignores_frames_that_are_not_text() {
    let mut c = client(CHANNEL_BOARD, 0);
    assert_eq!(c.on_message(Frame::Binary(BOARD_FRAME.as_bytes().to_vec())), Ok(Signal::Continue));
    assert_eq!(c.on_message(Frame::Binary(vec![])), Ok(Signal::Continue));
    assert_eq!(c.state, State::Subscribed);
    assert!(c.inner_handler.seen.is_empty());
}

#[test]
fn envelope_without_message_ends_the_session_with_a_decoding_failure() {
    let frame = "{\"jsonrpc\":\"2.0\",\"method\":\"channelMessage\",\"params\":{\"channel\":\"lightning_board_BTC_JPY\"}}";
    let mut c = client(CHANNEL_BOARD, 10);
    match c.on_message(text(frame)) {
        Err(Error(ErrorKind::Parse(cause, content))) => {
            assert_eq!(cause.message, "missing field `message`");
            assert_eq!(content, frame);
        }
        other => panic!("{:?}", other),
    }
    assert_eq!(c.state, State::Closed);
    assert!(c.inner_handler.seen.is_empty());
}

#[test]
fn malformed_envelopes_are_rejected() {
    for frame in [
        "",
        "not json",
        "[]",
        "{\"method\":\"channelMessage\",\"params\":{\"channel\":\"lightning_board_BTC_JPY\",\"message\":{\"mid_price\":1,\"bids\":[],\"asks\":[]}}}",
        "{\"jsonrpc\":\"2.0\",\"params\":{\"channel\":\"lightning_board_BTC_JPY\",\"message\":{\"mid_price\":1,\"bids\":[],\"asks\":[]}}}",
        "{\"jsonrpc\":\"2.0\",\"method\":\"channelMessage\"}",
        "{\"jsonrpc\":\"2.0\",\"method\":\"channelMessage\",\"params\":{\"message\":{\"mid_price\":1,\"bids\":[],\"asks\":[]}}}",
        "{\"jsonrpc\":\"2.0\",\"method\":\"channelMessage\",\"params\":{\"channel\":\"lightning_board_BTC_JPY\",\"message\":[]}}",
        "{\"jsonrpc\":\"2.0\",\"method\":\"channelMessage\",\"params\":{\"channel\":\"lightning_executions_BTC_JPY\",\"message\":{\"mid_price\":1,\"bids\":[],\"asks\":[]}}}",
        "{\"jsonrpc\":\"2.0\",\"method\":\"channelMessage\",\"params\":{\"channel\":\"other\",\"message\":[]}}",
        "{\"jsonrpc\":2,\"method\":\"channelMessage\",\"params\":{\"channel\":\"lightning_executions_BTC_JPY\",\"message\":[]}}",
    ] {
        match decode_envelope(frame) {
            Err(Error(ErrorKind::Parse(_, content))) => assert_eq!(content, frame),
            other => panic!("{:?}", other),
        }
    }
}

#[test]
fn decode_envelope_gives_the_payload() {
    assert!(matches!(decode_envelope(BOARD_FRAME), Ok(AsyncResponse::Board(_))));
    match decode_envelope(EXECUTIONS_FRAME) {
        Ok(AsyncResponse::Executions(list)) => {
            assert_eq!(list.len(), 1);
            assert_eq!(list[0].id, 39361);
        }
        other => panic!("{:?}", other),
    }
    let empty = "{\"jsonrpc\":\"2.0\",\"method\":\"channelMessage\",\"params\":{\"channel\":\"lightning_executions_BTC_JPY\",\"message\":[]}}";
    assert_eq!(decode_envelope(empty), Ok(AsyncResponse::Executions(vec![])));
}

#[test]
fn a_failing_handler_ends_the_session_with_its_error() {
    let mut c = WrapperClient::new(Client {
        channel: CHANNEL_BOARD,
        limit: 5,
        fail_at: 2,
        seen: vec![],
    });
    c.on_open();
    assert_eq!(c.on_message(text(BOARD_FRAME)), Ok(Signal::Continue));
    assert_eq!(c.on_message(text(BOARD_FRAME)), Err(Error::custom(Cause::of_message("full".to_string()))));
    assert_eq!(c.state, State::Closed);
    assert_eq!(c.inner_handler.seen.len(), 1);
}

#[test]
fn subscribe_request_names_the_channel() {
    assert_eq!(
        subscribe_request(CHANNEL_EXECUTIONS),
        "{\"method\":\"subscribe\",\"params\":{\"channel\":\"lightning_executions_BTC_JPY\"}}"
    );
    assert_eq!(subscribe_request(""), "{\"method\":\"subscribe\",\"params\":{\"channel\":\"\"}}");
    assert_eq!(CHANNEL_BOARD, "lightning_board_BTC_JPY");
}

#[test]
fn signal_follows_the_answer() {
    assert_eq!(Signal::after(true), Signal::Close);
    assert_eq!(Signal::after(false), Signal::Continue);
}
