//! The streaming feed: one subscription, then one message after another
//! handed to a handler until the handler asks to close.
//!
//! The connection itself is not here. Whoever owns it tells a
//! `WrapperClient` that the handshake is done and hands it every frame; the
//! client answers with the text to send, or with what to do next.

use crate::body::{
    board_from, board_of, executions_from, executions_of, Board, BoardView, ExchangeHistory,
    ExchangeHistoryView,
};
use crate::error::{Cause, Error};
use crate::json::{
    find_member, json_members, member, missing, read_object, read_string_member, same_text,
    string_member,
};
use vstd::prelude::*;

verus! {

/// The channel of order-book updates.
pub const CHANNEL_BOARD: &'static str = "lightning_board_BTC_JPY";

/// The channel of executions.
pub const CHANNEL_EXECUTIONS: &'static str = "lightning_executions_BTC_JPY";

/// The payload of one message of the feed.
#[derive(Clone, Debug, PartialEq, Eq)]
pub enum AsyncResponse {
    /// An update of the order book, from the board channel.
    Board(Board),
    /// A list of executions, from the executions channel.
    Executions(Vec<ExchangeHistory>),
}

/// An `AsyncResponse` as plain values.
pub enum AsyncResponseView {
    Board(BoardView),
    Executions(Seq<ExchangeHistoryView>),
}

impl View for AsyncResponse {
    type V = AsyncResponseView;

    open spec fn view(&self) -> AsyncResponseView {
        match self {
            AsyncResponse::Board(board) => AsyncResponseView::Board(board@),
            AsyncResponse::Executions(executions) => AsyncResponseView::Executions(
                executions.deep_view(),
            ),
        }
    }
}

/// What receives the messages of one subscription.
///
/// What a handler does has a name in each case, so that the contracts of
/// the session can speak of it: an implementation gives `channel_name` and
/// `wants_close` the values that `get_channel` and `is_closed` return, and
/// lets `takes` hold of every message, state and result that
/// `receive_response` can have.
pub trait AsyncResponseHandler {
    /// The channel that `get_channel` names.
    spec fn channel_name(&self) -> &str;

    /// The answer that `is_closed` gives.
    spec fn wants_close(&self) -> bool;

    /// Whether `receive_response`, given `response`, can leave this handler
    /// as `after` and return `r`.
    spec fn takes(&self, response: AsyncResponse, after: &Self, r: Result<(), Error>) -> bool;

    /// Takes one message. An error ends the session.
    fn receive_response(&mut self, response: AsyncResponse) -> (r: Result<(), Error>)
        ensures
            old(self).takes(response, final(self), r),
    ;

    /// The channel to subscribe to.
    fn get_channel(&self) -> (channel: &str)
        ensures
            channel@ == self.channel_name()@,
    ;

    /// Whether the handler wants the connection closed. It is asked after
    /// each message that it has taken.
    fn is_closed(&self) -> (closed: bool)
        ensures
            closed == self.wants_close(),
    ;
}

/// The text of the request that subscribes to `channel`.
pub open spec fn subscribe_text(channel: Seq<char>) -> Seq<char> {
    "{\"method\":\"subscribe\",\"params\":{\"channel\":\""@ + channel + "\"}}"@
}

/// The request that subscribes to `channel`: the name is put between the
/// quotation marks as it stands.
pub fn subscribe_request(channel: &str) -> (request: String)
    ensures
        request@ == subscribe_text(channel@),
{
    let mut request = String::from_str("{\"method\":\"subscribe\",\"params\":{\"channel\":\"");
    request.append(channel);
    request.append("\"}}");
    request
}

/// The payload that the text of a message holds, by the channel that it
/// came on: an order book on the board channel, a list of executions on the
/// executions channel, nothing on any other.
pub open spec fn message_of(channel: Seq<char>, text: Seq<char>) -> Option<AsyncResponseView> {
    if channel == CHANNEL_BOARD@ {
        match board_of(text) {
            Some(board) => Some(AsyncResponseView::Board(board)),
            None => None,
        }
    } else if channel == CHANNEL_EXECUTIONS@ {
        match executions_of(text) {
            Some(executions) => Some(AsyncResponseView::Executions(executions)),
            None => None,
        }
    } else {
        None
    }
}

/// The payload that the `params` of an envelope hold: their `channel`, a
/// string, decides how their `message` is read.
pub open spec fn params_of(text: Seq<char>) -> Option<AsyncResponseView> {
    match json_members(text) {
        None => None,
        Some(members) => match (string_member(members, "channel"@), member(members, "message"@)) {
            (Some(channel), Some(message)) => message_of(channel, message),
            _ => None,
        },
    }
}

/// The payload that an envelope holds: an object with the strings `jsonrpc`
/// and `method` and with `params` that hold a payload.
pub open spec fn envelope_of(text: Seq<char>) -> Option<AsyncResponseView> {
    match json_members(text) {
        None => None,
        Some(members) => match (
            string_member(members, "jsonrpc"@),
            string_member(members, "method"@),
            member(members, "params"@),
        ) {
            (Some(_), Some(_), Some(params)) => params_of(params),
            _ => None,
        },
    }
}

fn message_from(channel: &str, text: &str) -> (r: Result<AsyncResponse, Cause>)
    ensures
        match r {
            Ok(response) => message_of(channel@, text@) == Some(response@),
            Err(_) => message_of(channel@, text@) is None,
        },
{
    if same_text(channel, CHANNEL_BOARD) {
        match board_from(text) {
            Ok(board) => Ok(AsyncResponse::Board(board)),
            Err(cause) => Err(cause),
        }
    } else if same_text(channel, CHANNEL_EXECUTIONS) {
        match executions_from(text) {
            Ok(executions) => Ok(AsyncResponse::Executions(executions)),
            Err(cause) => Err(cause),
        }
    } else {
        let mut message = String::from_str("unknown channel `");
        message.append(channel);
        message.append("`");
        Err(Cause::of_message(message))
    }
}

fn params_from(text: &str) -> (r: Result<AsyncResponse, Cause>)
    ensures
        match r {
            Ok(response) => params_of(text@) == Some(response@),
            Err(_) => params_of(text@) is None,
        },
{
    let members = match read_object(text) {
        Ok(members) => members,
        Err(message) => {
            return Err(message);
        },
    };
    let channel = match read_string_member(&members, "channel") {
        Ok(channel) => channel,
        Err(message) => {
            return Err(message);
        },
    };
    match find_member(&members, "message") {
        None => Err(missing("message")),
        Some(message) => message_from(channel.as_str(), message.as_str()),
    }
}

fn envelope_from(text: &str) -> (r: Result<AsyncResponse, Cause>)
    ensures
        match r {
            Ok(response) => envelope_of(text@) == Some(response@),
            Err(_) => envelope_of(text@) is None,
        },
{
    let members = match read_object(text) {
        Ok(members) => members,
        Err(message) => {
            return Err(message);
        },
    };
    match read_string_member(&members, "jsonrpc") {
        Ok(_) => {},
        Err(message) => {
            return Err(message);
        },
    }
    match read_string_member(&members, "method") {
        Ok(_) => {},
        Err(message) => {
            return Err(message);
        },
    }
    match find_member(&members, "params") {
        None => Err(missing("params")),
        Some(params) => params_from(params.as_str()),
    }
}

/// Decodes the envelope of one text frame and gives its payload. A text
/// that is no envelope with a payload for its channel is rejected with a
/// decoding failure that carries the text.
pub fn decode_envelope(text: &str) -> (r: Result<AsyncResponse, Error>)
    ensures
        match r {
            Ok(response) => envelope_of(text@) == Some(response@),
            Err(e) => envelope_of(text@) is None && e.is_parse() && e.content() == text@,
        },
{
    match envelope_from(text) {
        Ok(response) => Ok(response),
        Err(message) => Err(Error::parse_error(message, text)),
    }
}

/// Where a session stands.
#[derive(Clone, Copy, Debug, PartialEq, Eq, Structural)]
pub enum State {
    /// The handshake is not done yet.
    Connecting,
    /// The subscription was sent; messages are handed on.
    Subscribed,
    /// The session is over: the handler asked to close, or an error ended it.
    Closed,
}

/// What the owner of the connection does after a frame.
#[derive(Clone, Copy, Debug, PartialEq, Eq, Structural)]
pub enum Signal {
    /// Go on reading.
    Continue,
    /// Close the connection in the normal way.
    Close,
}

impl Signal {
    /// The signal that follows a message, by the handler's answer: close if
    /// it wants to, go on if not.
    pub open spec fn answer(closed: bool) -> Signal {
        if closed {
            Signal::Close
        } else {
            Signal::Continue
        }
    }

    /// The signal that follows a message that the handler has taken, by its
    /// answer to the question whether to close.
    pub fn after(closed: bool) -> (signal: Signal)
        ensures
            signal == Signal::answer(closed),
    {
        if closed {
            Signal::Close
        } else {
            Signal::Continue
        }
    }
}

/// One frame that the connection brought.
#[derive(Clone, Debug, PartialEq, Eq)]
pub enum Frame {
    Text(String),
    Binary(Vec<u8>),
}

/// The state in which a frame leaves a subscribed session, by what the
/// owner of the connection is told: subscribed if it is to go on, closed
/// if it is to close or was given an error.
pub open spec fn state_after(r: Result<Signal, Error>) -> State {
    match r {
        Ok(Signal::Continue) => State::Subscribed,
        _ => State::Closed,
    }
}

/// What a frame comes to once the handler has had its payload: the
/// handler's error if it failed, and else the signal by its answer to the
/// question whether to close.
pub open spec fn outcome(received: Result<(), Error>, wants_close: bool) -> Result<Signal, Error> {
    match received {
        Err(e) => Err(e),
        Ok(()) => Ok(Signal::answer(wants_close)),
    }
}

/// A handler together with the state of its session.
pub struct WrapperClient<I> {
    pub inner_handler: I,
    pub state: State,
}

impl<I: AsyncResponseHandler> WrapperClient<I> {
    /// A session that waits for its handshake.
    pub fn new(inner_handler: I) -> (client: Self)
        ensures
            client.inner_handler == inner_handler,
            client.state == State::Connecting,
    {
        WrapperClient { inner_handler, state: State::Connecting }
    }

    /// Whether `after` and `r` are what handling the frame `msg` makes of the
    /// session `before`.
    ///
    /// Only a subscribed session looks at frames, and only at text frames:
    /// otherwise nothing changes and the connection goes on. A text that is
    /// no envelope ends the session with a decoding failure that carries the
    /// text, and the handler does not see it. The payload of a text that
    /// holds one is given to the handler; the result is the outcome of what
    /// the handler said to it, and the session goes on or is closed by that
    /// result.
    pub open spec fn handled(before: Self, msg: Frame, after: Self, r: Result<Signal, Error>) -> bool {
        if before.state != State::Subscribed || msg is Binary {
            r == Ok::<Signal, Error>(Signal::Continue) && after == before
        } else if envelope_of(msg->Text_0@) is None {
            &&& r is Err
            &&& r->Err_0.is_parse()
            &&& r->Err_0.content() == msg->Text_0@
            &&& after.inner_handler == before.inner_handler
            &&& after.state == State::Closed
        } else {
            &&& after.state == state_after(r)
            &&& exists|response: AsyncResponse, received: Result<(), Error>|
                {
                    &&& Some(response@) == envelope_of(msg->Text_0@)
                    &&& #[trigger] before.inner_handler.takes(
                        response,
                        &after.inner_handler,
                        received,
                    )
                    &&& r == outcome(received, after.inner_handler.wants_close())
                }
        }
    }

    /// The handshake is done: gives the request to send, which subscribes to
    /// the handler's channel, and from now on messages are handed on.
    pub fn on_open(&mut self) -> (request: String)
        ensures
            final(self).state == State::Subscribed,
            final(self).inner_handler == old(self).inner_handler,
            request@ == subscribe_text(old(self).inner_handler.channel_name()@),
    {
        let request = subscribe_request(self.inner_handler.get_channel());
        self.state = State::Subscribed;
        request
    }

    /// Takes what the handler said to a payload and settles the frame. The
    /// handler's error is handed on as it is and ends the session. If it
    /// took the payload it is asked whether to close: if so the session is
    /// closed and the owner of the connection is told to close it, if not
    /// the session goes on as it was.
    pub fn conclude(&mut self, received: Result<(), Error>) -> (r: Result<Signal, Error>)
        ensures
            r == outcome(received, old(self).inner_handler.wants_close()),
            final(self).inner_handler == old(self).inner_handler,
            final(self).state == (if r == Ok::<Signal, Error>(Signal::Continue) {
                old(self).state
            } else {
                State::Closed
            }),
    {
        match received {
            Err(e) => {
                self.state = State::Closed;
                Err(e)
            },
            Ok(()) => {
                let signal = Signal::after(self.inner_handler.is_closed());
                match signal {
                    Signal::Continue => {},
                    Signal::Close => {
                        self.state = State::Closed;
                    },
                }
                Ok(signal)
            },
        }
    }

    /// Handles one frame: decodes the envelope of a text frame, gives its
    /// payload to the handler and settles the frame by what the handler
    /// said.
    pub fn on_message(&mut self, msg: Frame) -> (r: Result<Signal, Error>)
        ensures
            Self::handled(*old(self), msg, *final(self), r),
    {
        match self.state {
            State::Subscribed => {},
            _ => {
                return Ok(Signal::Continue);
            },
        }
        let content = match msg {
            Frame::Text(content) => content,
            Frame::Binary(_) => {
                return Ok(Signal::Continue);
            },
        };
        let response = match decode_envelope(content.as_str()) {
            Ok(response) => response,
            Err(e) => {
                self.state = State::Closed;
                return Err(e);
            },
        };
        let ghost before = self.inner_handler;
        let received = self.inner_handler.receive_response(response);
        let r = self.conclude(received);
        assert(before.takes(response, &self.inner_handler, received));
        assert(r == outcome(received, self.inner_handler.wants_close()));
        r
    }
}

/// A handler that wants to close after exactly `closing` messages gets
/// exactly that many.
///
/// Take a subscribed session and a row of text frames with payloads, each
/// handled in turn, none of them failing, and a handler that wants to close
/// after the message with the number `closing`, counted from one, and not
/// before. Then the handler is given the payload of each frame up to that
/// one; the owner is told to go on after each message before it and to
/// close after it; the session is subscribed until then and closed from
/// then on; and every later frame leaves the session and its handler as
/// they are.
pub proof fn lemma_closes_after_the_closing_message<I: AsyncResponseHandler>(
    clients: Seq<WrapperClient<I>>,
    frames: Seq<Frame>,
    results: Seq<Result<Signal, Error>>,
    closing: int,
    i: int,
)
    requires
        clients.len() == frames.len() + 1,
        results.len() == frames.len(),
        clients[0].state == State::Subscribed,
        forall|j: int|
            0 <= j < frames.len() ==> WrapperClient::handled(
                clients[j],
                #[trigger] frames[j],
                clients[j + 1],
                results[j],
            ),
        forall|j: int|
            0 <= j < frames.len() ==> (#[trigger] frames[j]) is Text && envelope_of(
                frames[j]->Text_0@,
            ) is Some,
        forall|j: int| 0 <= j < results.len() ==> (#[trigger] results[j]) is Ok,
        1 <= closing <= frames.len(),
        forall|j: int|
            1 <= j <= closing ==> (#[trigger] clients[j]).inner_handler.wants_close() == (j
                == closing),
        0 <= i < frames.len(),
    ensures
        i + 1 <= closing ==> exists|response: AsyncResponse|
            {
                &&& Some(response@) == envelope_of(frames[i]->Text_0@)
                &&& #[trigger] clients[i].inner_handler.takes(
                    response,
                    &clients[i + 1].inner_handler,
                    Ok(()),
                )
            },
        i + 1 < closing ==> results[i] == Ok::<Signal, Error>(Signal::Continue) && clients[i
            + 1].state == State::Subscribed,
        i + 1 == closing ==> results[i] == Ok::<Signal, Error>(Signal::Close) && clients[i
            + 1].state == State::Closed,
        i + 1 > closing ==> results[i] == Ok::<Signal, Error>(Signal::Continue) && clients[i + 1]
            == clients[i] && clients[i + 1].state == State::Closed,
    decreases i,
{
    if i > 0 {
        lemma_closes_after_the_closing_message(clients, frames, results, closing, i - 1);
    }
    assert(WrapperClient::handled(clients[i], frames[i], clients[i + 1], results[i]));
    assert(results[i] is Ok);
    if i + 1 <= closing {
        assert(clients[i].state == State::Subscribed);
        assert(clients[i + 1].inner_handler.wants_close() == (i + 1 == closing));
        assert(frames[i] is Text && envelope_of(frames[i]->Text_0@) is Some);
        assert(exists|response: AsyncResponse, received: Result<(), Error>|
            {
                &&& Some(response@) == envelope_of(frames[i]->Text_0@)
                &&& #[trigger] clients[i].inner_handler.takes(
                    response,
                    &clients[i + 1].inner_handler,
                    received,
                )
                &&& results[i] == outcome(received, clients[i + 1].inner_handler.wants_close())
            });
        let (response, received) = choose|response: AsyncResponse, received: Result<(), Error>|
            {
                &&& Some(response@) == envelope_of(frames[i]->Text_0@)
                &&& #[trigger] clients[i].inner_handler.takes(
                    response,
                    &clients[i + 1].inner_handler,
                    received,
                )
                &&& results[i] == outcome(received, clients[i + 1].inner_handler.wants_close())
            };
        assert(received is Ok);
        assert(received->Ok_0 == ());
        assert(received == Ok::<(), Error>(()));
        assert(clients[i].inner_handler.takes(response, &clients[i + 1].inner_handler, Ok(())));
    }
}

} // verus!
