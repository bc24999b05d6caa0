//! The adapter of the Bitstamp feed: one endpoint for every channel, a
//! request to subscribe, and a confirmation before the first depth frame.

use serde_json::Value;
use tokio::sync::mpsc::Sender;
use url::Url;
use vstd::prelude::*;
use vstd::string::*;

use crate::feed::{
    connect_to, first_step, normalized, on_plain_event, plain_step, FeedAction, FeedEvent, FeedState, Frame,
    MarketDataSource, NormalizeError, TextFrame,
};
use crate::market_data_source::{Exchange, MarketDataSourceInfo, OrderBookSnap};
use crate::outside::{json_eq_str, json_from_str, json_index, json_is_text, json_member, parsed_json, parsed_url};
use crate::text::same_text;

verus! {

/// The event by which the venue confirms a subscription.
pub const SUCCESSFULLY_CONNECTED: &'static str = "bts:subscription_succeeded";

/// The member of an envelope that names the channel.
pub const CHANNEL_KEY: &'static str = "channel";

/// What stands before the currency in the name of a channel.
pub const CHANNEL_PREFIX: &'static str = "order_book_";

/// Whether the text of a frame confirms a subscription: it is JSON, and its
/// member "event" is the event by which the venue confirms.
pub open spec fn acknowledged(msg: Seq<char>) -> bool {
    parsed_json(msg) matches Ok(json_msg) && json_is_text(json_member(json_msg, "event"@), SUCCESSFULLY_CONNECTED@)
}

/// Tells whether what a frame is as JSON confirms a subscription: a text
/// that is no JSON confirms nothing.
pub fn confirms(parsed: Result<Value, serde_json::Error>) -> (confirmed: bool)
    ensures
        confirmed == (parsed matches Ok(json_msg) && json_is_text(
            json_member(json_msg, "event"@),
            SUCCESSFULLY_CONNECTED@,
        )),
{
    match parsed {
        Ok(json_msg) => json_eq_str(json_index(&json_msg, "event"), SUCCESSFULLY_CONNECTED),
        Err(_) => false,
    }
}

/// The adapter of the Bitstamp feed.
#[derive(Clone)]
pub struct Bitstamp {
    info: MarketDataSourceInfo,
}

impl Bitstamp {
    /// The address of the venue.
    pub closed spec fn address(&self) -> Seq<char> {
        self.info.address@
    }

    /// The currency pair that the adapter follows.
    pub closed spec fn currency(&self) -> Seq<char> {
        self.info.currency@
    }

    /// The name of the adapter.
    pub closed spec fn name(&self) -> Seq<char> {
        self.info.name@
    }

    /// The queue that the snapshots of the adapter go to.
    pub closed spec fn sender(&self) -> Sender<OrderBookSnap> {
        self.info.sender
    }

    /// The name of the channel that the adapter subscribes to.
    pub open spec fn channel(&self) -> Seq<char> {
        CHANNEL_PREFIX@ + self.currency()
    }

    /// Whether a channel of this name is the one that the adapter follows.
    pub open spec fn accepts(&self, channel: Seq<char>) -> bool {
        channel == self.channel()
    }

    /// The step of the adapter on everything but an opened connection: the
    /// first text frame has to confirm the subscription, or the adapter
    /// ends; a text frame after that gives a snapshot or a reason why not;
    /// and everything else is as for every venue.
    pub open spec fn step(&self, state: FeedState, event: FeedEvent) -> (FeedState, FeedAction) {
        match (state, event) {
            (FeedState::AwaitingAck, FeedEvent::Received(Frame::Text(text))) => if acknowledged(text@) {
                (FeedState::Streaming, FeedAction::Receive)
            } else {
                (FeedState::Closed, FeedAction::Stop)
            },
            (FeedState::Streaming, FeedEvent::Received(Frame::Text(text))) => (
                FeedState::Streaming,
                FeedAction::Decode(text),
            ),
            (FeedState::Streaming, FeedEvent::Decoded(msg)) => match normalized(
                Exchange::Bitstamp,
                msg,
                |channel: Seq<char>| self.accepts(channel),
            ) {
                Ok(snap) => (FeedState::Streaming, FeedAction::Forward(snap)),
                Err(reason) => (FeedState::Streaming, FeedAction::Skip(reason)),
            },
            _ => plain_step(state, event),
        }
    }

    /// An adapter for a currency pair, which sends its snapshots to
    /// `sender`.
    pub fn new(address: &str, currency: &str, sender: Sender<OrderBookSnap>, name: &str) -> (bitstamp: Bitstamp)
        ensures
            bitstamp.address() == address@,
            bitstamp.currency() == currency@,
            bitstamp.name() == name@,
            bitstamp.sender() == sender,
    {
        Bitstamp {
            info: MarketDataSourceInfo {
                address: String::from_str(address),
                currency: String::from_str(currency),
                sender,
                name: String::from_str(name),
            },
        }
    }

    /// What the adapter was set up with.
    pub fn info(&self) -> (info: &MarketDataSourceInfo)
        ensures
            info.address@ == self.address(),
            info.currency@ == self.currency(),
            info.name@ == self.name(),
            info.sender == self.sender(),
    {
        &self.info
    }

    /// Tells whether the text of a frame confirms the subscription.
    pub fn is_successful(&self, msg: &str) -> (confirmed: bool)
        ensures
            confirmed == acknowledged(msg@),
    {
        confirms(json_from_str(msg))
    }

    /// The name of the channel to subscribe to.
    pub fn channel_name(&self) -> (channel: String)
        ensures
            channel@ == self.channel(),
    {
        let mut channel = String::from_str(CHANNEL_PREFIX);
        channel.append(self.info.currency.as_str());
        channel
    }

    /// Turns a text frame into a snapshot of this venue. A frame that the
    /// decoder could not read, an envelope without the name of a channel or
    /// without a side, and one of any other channel than the adapter's give
    /// none.
    pub fn normalize(&self, msg: TextFrame) -> (snap: Result<OrderBookSnap, NormalizeError>)
        ensures
            snap == normalized(Exchange::Bitstamp, msg, |channel: Seq<char>| self.accepts(channel)),
    {
        match msg {
            TextFrame::Malformed(reason) => Err(NormalizeError::Malformed(reason)),
            TextFrame::Json(envelope) => match envelope.tag {
                None => Err(NormalizeError::MissingIdentifier),
                Some(channel) => match envelope.data {
                    None => Err(NormalizeError::MissingSide),
                    Some(data) => {
                        let expected = self.channel_name();
                        if !same_text(channel.as_str(), expected.as_str()) {
                            return Err(NormalizeError::IncorrectCurrency);
                        }
                        let mut order_book_snap = OrderBookSnap::new(Exchange::Bitstamp);
                        order_book_snap.order_book.bids = data.bids;
                        order_book_snap.order_book.asks = data.asks;
                        Ok(order_book_snap)
                    },
                },
            },
        }
    }

    /// The first step of the adapter: it connects to the venue, or ends
    /// where the address of the venue is no URL.
    pub fn start(&self) -> (step: (FeedState, FeedAction))
        ensures
            step == first_step(parsed_url(self.address())),
    {
        connect_to(Url::parse(self.info.address.as_str()))
    }

    /// Takes the step of the adapter on an event. On an opened connection
    /// it asks for its channel; every other step is as `step` says.
    pub fn on_event(&self, state: FeedState, event: FeedEvent) -> (step: (FeedState, FeedAction))
        ensures
            state == FeedState::Connecting && event == FeedEvent::Opened ==> {
                &&& step.0 == FeedState::Subscribing
                &&& step.1 matches FeedAction::Subscribe(channel) && channel@ == self.channel()
            },
            !(state == FeedState::Connecting && event == FeedEvent::Opened) ==> step == self.step(state, event),
    {
        match (state, event) {
            (FeedState::Connecting, FeedEvent::Opened) => (
                FeedState::Subscribing,
                FeedAction::Subscribe(self.channel_name()),
            ),
            (FeedState::AwaitingAck, FeedEvent::Received(Frame::Text(text))) => if self.is_successful(
                text.as_str(),
            ) {
                (FeedState::Streaming, FeedAction::Receive)
            } else {
                (FeedState::Closed, FeedAction::Stop)
            },
            (FeedState::Streaming, FeedEvent::Received(Frame::Text(text))) => (
                FeedState::Streaming,
                FeedAction::Decode(text),
            ),
            (FeedState::Streaming, FeedEvent::Decoded(msg)) => match self.normalize(msg) {
                Ok(snap) => (FeedState::Streaming, FeedAction::Forward(snap)),
                Err(reason) => (FeedState::Streaming, FeedAction::Skip(reason)),
            },
            (state, event) => on_plain_event(state, event),
        }
    }
}

/// An adapter that has ended stays ended, whatever happens.
pub proof fn lemma_closed_is_final(adapter: Bitstamp, event: FeedEvent)
    ensures
        adapter.step(FeedState::Closed, event) == (FeedState::Closed, FeedAction::Stop),
{
}

impl MarketDataSource for Bitstamp {
    open spec fn venue(&self) -> Exchange {
        Exchange::Bitstamp
    }

    open spec fn follows(&self, tag: Seq<char>) -> bool {
        self.accepts(tag)
    }

    open spec fn endpoint_text(&self) -> Seq<char> {
        self.address()
    }

    open spec fn is_step(&self, state: FeedState, event: FeedEvent, step: (FeedState, FeedAction)) -> bool {
        if state == FeedState::Connecting && event == FeedEvent::Opened {
            &&& step.0 == FeedState::Subscribing
            &&& step.1 matches FeedAction::Subscribe(channel) && channel@ == self.channel()
        } else {
            step == self.step(state, event)
        }
    }

    fn normalize(&self, msg: TextFrame) -> (snap: Result<OrderBookSnap, NormalizeError>) {
        assert(normalized(Exchange::Bitstamp, msg, |channel: Seq<char>| self.accepts(channel)) == normalized(
            Exchange::Bitstamp,
            msg,
            |tag: Seq<char>| self.follows(tag),
        ));
        Bitstamp::normalize(self, msg)
    }

    fn start(&self) -> (step: (FeedState, FeedAction)) {
        Bitstamp::start(self)
    }

    fn on_event(&self, state: FeedState, event: FeedEvent) -> (step: (FeedState, FeedAction)) {
        Bitstamp::on_event(self, state, event)
    }
}

} // verus!
