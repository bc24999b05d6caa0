use arrayvec::ArrayVec;
use orderbook_aggregator::binance::Binance;
use orderbook_aggregator::bitstamp::{confirms, Bitstamp, CHANNEL_PREFIX, SUCCESSFULLY_CONNECTED};
use orderbook_aggregator::feed::{
    connect_to, on_plain_event, Envelope, FeedAction, FeedEvent, FeedState, Frame, MarketDataSource,
    NormalizeError, TextFrame,
};
use orderbook_aggregator::market_data_source::{
    Exchange, MarketDatSourceLevel, MarketDataSourceData, OrderBookSnap, DEFAULT_DEPTH,
};
use orderbook_aggregator::market_data_source_container::{MarketDataSourceContainer, MarketSources};
use tokio::sync::mpsc::channel;
use url::Url;

fn level(price: f64, amount: f64) -> MarketDatSourceLevel {
    MarketDatSourceLevel { price: price.to_bits(), amount: amount.to_bits() }
}

fn side(levels: &[(f64, f64)]) -> ArrayVec<MarketDatSourceLevel, DEFAULT_DEPTH> {
    levels.iter().map(|(p, a)| level(*p, *a)).collect()
}

fn data() -> MarketDataSourceData {
    MarketDataSourceData { bids: side(&[(10.0, 1.0), (9.0, 2.0)]), asks: side(&[(11.0, 3.0)]) }
}

fn depth(tag: &str) -> TextFrame {
    TextFrame::Json(Envelope { tag: Some(tag.to_string()), data: Some(data()) })
}

fn bare() -> TextFrame {
    TextFrame::Json(Envelope { tag: None, data: None })
}

const ACK: &str = r#"{"event":"bts:subscription_succeeded","channel":"order_book_ethbtc","data":{}}"#;
const DEPTH: &str = r#"{"data":{"bids":[["10.0","1.0"]],"asks":[["11.0","3.0"]]},"channel":"order_book_ethbtc","event":"data"}"#;

fn expected_snap(exchange: Exchange) -> OrderBookSnap {
    let mut snap = OrderBookSnap::new(exchange);
    snap.order_book.bids = side(&[(10.0, 1.0), (9.0, 2.0)]);
    snap.order_book.asks = side(&[(11.0, 3.0)]);
    snap
}

fn binance(currency: &str) -> Binance {
    let (tx, _rx) = channel::<OrderBookSnap>(4);
    Binance::new("wss://stream.binance.com:9443/stream?streams=", currency, tx, "binance")
}

fn bitstamp(currency: &str) -> Bitstamp {
    let (tx, _rx) = channel::<OrderBookSnap>(4);
    Bitstamp::new("wss://ws.bitstamp.net", currency, tx, "bitstamp")
}

fn text(raw: &str) -> FeedEvent {
    FeedEvent::Received(Frame::Text(raw.to_string()))
}

#[test]
fn adapters_keep_what_they_were_set_up_with() {
    let b = binance("ethbtc");
    assert_eq!(b.info().address, "wss://stream.binance.com:9443/stream?streams=");
    assert_eq!(b.info().currency, "ethbtc");
    assert_eq!(b.info().name, "binance");
    let s = bitstamp("btcusd");
    assert_eq!(s.info().address, "wss://ws.bitstamp.net");
    assert_eq!(s.info().currency, "btcusd");
    assert_eq!(s.info().name, "bitstamp");
}

#[test]
fn binance_endpoint_names_currency_depth_and_pace() {
    assert_eq!(binance("ethbtc").endpoint(), "wss://stream.binance.com:9443/stream?streams=ethbtc@depth10@100ms");
}

#[test]
fn binance_starts_by_connecting_to_its_stream() {
    let (state, action) = Binance::start(&binance("ethbtc"));
    assert_eq!(state, FeedState::Connecting);
    assert_eq!(
        action,
        FeedAction::Connect(Url::parse("wss://stream.binance.com:9443/stream?streams=ethbtc@depth10@100ms").unwrap())
    );
}

#[test]
fn bitstamp_starts_by_connecting_to_the_venue() {
    let (state, action) = Bitstamp::start(&bitstamp("ethbtc"));
    assert_eq!(state, FeedState::Connecting);
    assert_eq!(action, FeedAction::Connect(Url::parse("wss://ws.bitstamp.net").unwrap()));
}

#[test]
fn adapter_without_a_url_ends_at_once() {
    let (tx, _rx) = channel::<OrderBookSnap>(4);
    let broken = Bitstamp::new("not a url", "ethbtc", tx, "bitstamp");
    assert_eq!(Bitstamp::start(&broken), (FeedState::Closed, FeedAction::Stop));
    let (tx, _rx) = channel::<OrderBookSnap>(4);
    let broken = Binance::new("", "ethbtc", tx, "binance");
    assert_eq!(Binance::start(&broken), (FeedState::Closed, FeedAction::Stop));
    assert_eq!(connect_to(Url::parse("//nowhere")), (FeedState::Closed, FeedAction::Stop));
    let url = Url::parse("wss://example.net/x").unwrap();
    assert_eq!(connect_to(Ok(url.clone())), (FeedState::Connecting, FeedAction::Connect(url)));
}

#[test]
fn binance_normalizes_a_depth_frame_of_its_currency() {
    let b = binance("ethbtc");
    assert_eq!(Binance::normalize(&b, depth("ethbtc@depth10@100ms")), Ok(expected_snap(Exchange::Binance)));
    assert_eq!(b.stream_name(), "ethbtc@depth10@100ms");
    let other = binance("btcusdt");
    assert_eq!(Binance::normalize(&other, depth("btcusdt@depth10@100ms")), Ok(expected_snap(Exchange::Binance)));
}

#[test]
fn binance_refuses_what_is_not_a_depth_frame_of_its_currency() {
    let b = binance("ethbtc");
    assert_eq!(Binance::normalize(&b, depth("btcusdt@depth10@100ms")), Err(NormalizeError::IncorrectCurrency));
    assert_eq!(Binance::normalize(&b, depth("ethbtc@depth5@100ms")), Err(NormalizeError::IncorrectCurrency));
    assert_eq!(Binance::normalize(&b, depth("")), Err(NormalizeError::IncorrectCurrency));
    assert_eq!(Binance::normalize(&b, depth("ethbtc")), Err(NormalizeError::IncorrectCurrency));
    assert_eq!(
        Binance::normalize(&b, depth("ethbtc@depth10@100ms@depth10@100ms")),
        Err(NormalizeError::IncorrectCurrency)
    );
    assert_eq!(Binance::normalize(&b, depth("@depth10@100ms")), Err(NormalizeError::IncorrectCurrency));
    assert_eq!(Binance::normalize(&b, depth("xethbtc@depth10@100ms")), Err(NormalizeError::IncorrectCurrency));
    assert_eq!(Binance::normalize(&b, depth("ETHBTC@depth10@100ms")), Err(NormalizeError::IncorrectCurrency));
    assert_eq!(Binance::normalize(&b, depth("ethbtc@depth10@100ms ")), Err(NormalizeError::IncorrectCurrency));
    assert_eq!(Binance::normalize(&b, depth("order_book_ethbtc")), Err(NormalizeError::IncorrectCurrency));
    assert_eq!(
        Binance::normalize(&b, TextFrame::Malformed("expected value at line 1 column 1".to_string())),
        Err(NormalizeError::Malformed("expected value at line 1 column 1".to_string()))
    );
    assert_eq!(
        Binance::normalize(&b, TextFrame::Json(Envelope { tag: None, data: Some(data()) })),
        Err(NormalizeError::MissingIdentifier)
    );
    assert_eq!(
        Binance::normalize(
            &b,
            TextFrame::Json(Envelope { tag: Some("ethbtc@depth10@100ms".to_string()), data: None })
        ),
        Err(NormalizeError::MissingSide)
    );
    assert_eq!(Binance::normalize(&b, bare()), Err(NormalizeError::MissingIdentifier));
}

#[test]
fn bitstamp_normalizes_a_depth_frame_of_its_currency() {
    let s = bitstamp("ethbtc");
    assert_eq!(Bitstamp::normalize(&s, depth("order_book_ethbtc")), Ok(expected_snap(Exchange::Bitstamp)));
    assert_eq!(Bitstamp::normalize(&s, depth("order_book_btcusd")), Err(NormalizeError::IncorrectCurrency));
    assert_eq!(Bitstamp::normalize(&s, depth("live_trades_ethbtc")), Err(NormalizeError::IncorrectCurrency));
    assert_eq!(Bitstamp::normalize(&s, depth("ethbtc")), Err(NormalizeError::IncorrectCurrency));
    assert_eq!(Bitstamp::normalize(&s, depth("order_book_order_book_ethbtc")), Err(NormalizeError::IncorrectCurrency));
    assert_eq!(Bitstamp::normalize(&s, depth("order_book_")), Err(NormalizeError::IncorrectCurrency));
    assert_eq!(Bitstamp::normalize(&s, depth("order_book_ethbtcx")), Err(NormalizeError::IncorrectCurrency));
    assert_eq!(Bitstamp::normalize(&s, depth("")), Err(NormalizeError::IncorrectCurrency));
    assert_eq!(Bitstamp::normalize(&s, depth("ethbtc@depth10@100ms")), Err(NormalizeError::IncorrectCurrency));
    assert_eq!(
        Bitstamp::normalize(&s, TextFrame::Malformed("EOF while parsing".to_string())),
        Err(NormalizeError::Malformed("EOF while parsing".to_string()))
    );
    assert_eq!(Bitstamp::normalize(&s, bare()), Err(NormalizeError::MissingIdentifier));
    assert_eq!(
        Bitstamp::normalize(&s, TextFrame::Json(Envelope { tag: Some("order_book_ethbtc".to_string()), data: None })),
        Err(NormalizeError::MissingSide)
    );
}

#[test]
fn bitstamp_knows_its_confirmation() {
    let s = bitstamp("ethbtc");
    assert_eq!(SUCCESSFULLY_CONNECTED, "bts:subscription_succeeded");
    assert_eq!(CHANNEL_PREFIX, "order_book_");
    assert!(s.is_successful(ACK));
    assert!(s.is_successful(r#"{"event":"bts:subscription_succeeded"}"#));
    assert!(s.is_successful(r#" { "data" : [1, 2], "event" : "bts:subscription_succeeded" } "#));
    assert!(!s.is_successful(r#"{"event":"bts:error","channel":"","data":{"code":null,"message":"bad"}}"#));
    assert!(!s.is_successful(r#"{"event":""}"#));
    assert!(!s.is_successful(r#"{"event":["bts:subscription_succeeded"]}"#));
    assert!(!s.is_successful(r#"{"Event":"bts:subscription_succeeded"}"#));
    assert!(!s.is_successful(r#"{"channel":"order_book_ethbtc"}"#));
    assert!(!s.is_successful(r#""bts:subscription_succeeded""#));
    assert!(!s.is_successful(r#"["event","bts:subscription_succeeded"]"#));
    assert!(!s.is_successful("bts:subscription_succeeded"));
    assert!(!s.is_successful(r#"{"event":"bts:subscription_succeeded""#));
    assert!(!s.is_successful(""));
    assert!(!s.is_successful(DEPTH));
    assert_eq!(s.channel_name(), "order_book_ethbtc");
    assert!(confirms(serde_json::from_str(ACK)));
    assert!(!confirms(serde_json::from_str(DEPTH)));
    assert!(!confirms(serde_json::from_str("{")));
}

#[test]
fn binance_streams_as_soon_as_it_is_connected() {
    let b = binance("ethbtc");
    assert_eq!(Binance::on_event(&b, FeedState::Connecting, FeedEvent::Opened), (FeedState::Streaming, FeedAction::Receive));
    assert_eq!(Binance::on_event(&b, FeedState::Connecting, FeedEvent::OpenFailed), (FeedState::Closed, FeedAction::Stop));
    assert_eq!(
        Binance::on_event(&b, FeedState::Streaming, text(DEPTH)),
        (FeedState::Streaming, FeedAction::Decode(DEPTH.to_string()))
    );
    assert_eq!(
        Binance::on_event(&b, FeedState::Streaming, text("no json")),
        (FeedState::Streaming, FeedAction::Decode("no json".to_string()))
    );
    assert_eq!(
        Binance::on_event(&b, FeedState::Streaming, FeedEvent::Decoded(depth("ethbtc@depth10@100ms"))),
        (FeedState::Streaming, FeedAction::Forward(expected_snap(Exchange::Binance)))
    );
    assert_eq!(
        Binance::on_event(&b, FeedState::Streaming, FeedEvent::Decoded(depth("btcusdt@depth10@100ms"))),
        (FeedState::Streaming, FeedAction::Skip(NormalizeError::IncorrectCurrency))
    );
    assert_eq!(
        Binance::on_event(&b, FeedState::Streaming, FeedEvent::Decoded(TextFrame::Malformed("bad".to_string()))),
        (FeedState::Streaming, FeedAction::Skip(NormalizeError::Malformed("bad".to_string())))
    );
    assert_eq!(
        Binance::on_event(&b, FeedState::Connecting, FeedEvent::Decoded(depth("ethbtc@depth10@100ms"))),
        (FeedState::Closed, FeedAction::Stop)
    );
    assert_eq!(Binance::on_event(&b, FeedState::Connecting, text(DEPTH)), (FeedState::Closed, FeedAction::Stop));
}

#[test]
fn bitstamp_subscribes_and_waits_for_the_confirmation() {
    let s = bitstamp("ethbtc");
    assert_eq!(
        Bitstamp::on_event(&s, FeedState::Connecting, FeedEvent::Opened),
        (FeedState::Subscribing, FeedAction::Subscribe("order_book_ethbtc".to_string()))
    );
    assert_eq!(
        Bitstamp::on_event(&s, FeedState::Subscribing, FeedEvent::SubscribeSent),
        (FeedState::AwaitingAck, FeedAction::Receive)
    );
    assert_eq!(
        Bitstamp::on_event(&s, FeedState::Subscribing, FeedEvent::SubscribeFailed),
        (FeedState::Closed, FeedAction::Stop)
    );
    assert_eq!(
        Bitstamp::on_event(&s, FeedState::AwaitingAck, text(ACK)),
        (FeedState::Streaming, FeedAction::Receive)
    );
    assert_eq!(Bitstamp::on_event(&s, FeedState::AwaitingAck, text(DEPTH)), (FeedState::Closed, FeedAction::Stop));
    assert_eq!(Bitstamp::on_event(&s, FeedState::AwaitingAck, text("bad")), (FeedState::Closed, FeedAction::Stop));
    assert_eq!(
        Bitstamp::on_event(&s, FeedState::AwaitingAck, FeedEvent::Decoded(depth("order_book_ethbtc"))),
        (FeedState::Closed, FeedAction::Stop)
    );
    assert_eq!(
        Bitstamp::on_event(&s, FeedState::AwaitingAck, FeedEvent::Received(Frame::Ping(vec![7]))),
        (FeedState::AwaitingAck, FeedAction::Pong(vec![7]))
    );
    assert_eq!(
        Bitstamp::on_event(&s, FeedState::Streaming, text(DEPTH)),
        (FeedState::Streaming, FeedAction::Decode(DEPTH.to_string()))
    );
    assert_eq!(
        Bitstamp::on_event(&s, FeedState::Streaming, text(ACK)),
        (FeedState::Streaming, FeedAction::Decode(ACK.to_string()))
    );
    assert_eq!(
        Bitstamp::on_event(&s, FeedState::Streaming, FeedEvent::Decoded(depth("order_book_ethbtc"))),
        (FeedState::Streaming, FeedAction::Forward(expected_snap(Exchange::Bitstamp)))
    );
    assert_eq!(
        Bitstamp::on_event(&s, FeedState::Streaming, FeedEvent::Decoded(bare())),
        (FeedState::Streaming, FeedAction::Skip(NormalizeError::MissingIdentifier))
    );
}

#[test]
fn frames_without_text_are_answered_or_passed_over() {
    for state in [FeedState::AwaitingAck, FeedState::Streaming] {
        assert_eq!(
            on_plain_event(state, FeedEvent::Received(Frame::Ping(vec![1, 2, 3]))),
            (state, FeedAction::Pong(vec![1, 2, 3]))
        );
        assert_eq!(on_plain_event(state, FeedEvent::Received(Frame::Ping(vec![]))), (state, FeedAction::Pong(vec![])));
        assert_eq!(on_plain_event(state, FeedEvent::Received(Frame::Pong)), (state, FeedAction::Receive));
        assert_eq!(on_plain_event(state, FeedEvent::Received(Frame::Binary)), (state, FeedAction::Receive));
        assert_eq!(on_plain_event(state, FeedEvent::Received(Frame::Raw)), (state, FeedAction::Receive));
        assert_eq!(on_plain_event(state, FeedEvent::ReceiveFailed), (state, FeedAction::Receive));
        assert_eq!(on_plain_event(state, FeedEvent::Received(Frame::Close)), (FeedState::Closed, FeedAction::Stop));
        assert_eq!(on_plain_event(state, FeedEvent::Ended), (FeedState::Closed, FeedAction::Stop));
        assert_eq!(on_plain_event(state, FeedEvent::Opened), (FeedState::Closed, FeedAction::Stop));
        assert_eq!(on_plain_event(state, FeedEvent::SubscribeSent), (FeedState::Closed, FeedAction::Stop));
    }
    assert_eq!(
        on_plain_event(FeedState::Subscribing, FeedEvent::SubscribeSent),
        (FeedState::AwaitingAck, FeedAction::Receive)
    );
    assert_eq!(
        on_plain_event(FeedState::Subscribing, FeedEvent::Received(Frame::Pong)),
        (FeedState::Closed, FeedAction::Stop)
    );
    assert_eq!(on_plain_event(FeedState::Connecting, FeedEvent::OpenFailed), (FeedState::Closed, FeedAction::Stop));
    let b = binance("ethbtc");
    assert_eq!(
        Binance::on_event(&b, FeedState::Streaming, FeedEvent::Received(Frame::Ping(vec![9, 9]))),
        (FeedState::Streaming, FeedAction::Pong(vec![9, 9]))
    );
    assert_eq!(
        Binance::on_event(&b, FeedState::Streaming, FeedEvent::Received(Frame::Close)),
        (FeedState::Closed, FeedAction::Stop)
    );
}

#[test]
fn closed_adapter_stays_closed() {
    let b = binance("ethbtc");
    let s = bitstamp("ethbtc");
    let events = || {
        vec![
            FeedEvent::Opened,
            FeedEvent::OpenFailed,
            FeedEvent::SubscribeSent,
            FeedEvent::SubscribeFailed,
            text(DEPTH),
            text(ACK),
            FeedEvent::Decoded(depth("ethbtc@depth10@100ms")),
            FeedEvent::Decoded(depth("order_book_ethbtc")),
            FeedEvent::Received(Frame::Ping(vec![1])),
            FeedEvent::Received(Frame::Pong),
            FeedEvent::Received(Frame::Close),
            FeedEvent::ReceiveFailed,
            FeedEvent::Ended,
        ]
    };
    for event in events() {
        assert_eq!(Binance::on_event(&b, FeedState::Closed, event), (FeedState::Closed, FeedAction::Stop));
    }
    for event in events() {
        assert_eq!(Bitstamp::on_event(&s, FeedState::Closed, event), (FeedState::Closed, FeedAction::Stop));
    }
}

#[test]
fn reasons_are_told_in_words() {
    assert_eq!(NormalizeError::IncorrectCurrency.message(), "Receive depth for incorrect currency");
    assert_eq!(NormalizeError::MissingSide.message(), "Receive depth without bids or asks");
    assert_eq!(NormalizeError::MissingIdentifier.message(), "Receive depth without the name of its stream");
    assert_eq!(NormalizeError::Malformed("EOF while parsing".to_string()).message(), "EOF while parsing");
}

#[test]
fn container_holds_adapters_in_the_order_added() {
    let mut container = MarketDataSourceContainer::new();
    assert!(container.wait_resources().is_empty());
    container.add(MarketSources::Bitstamp(bitstamp("ethbtc")));
    container.add(MarketSources::Binance(binance("ethbtc")));
    let sources = container.wait_resources();
    assert_eq!(sources.len(), 2);
    assert_eq!(sources[0].exchange(), Exchange::Bitstamp);
    assert_eq!(sources[1].exchange(), Exchange::Binance);
    assert_eq!(sources[0].info().name, "bitstamp");
    assert_eq!(sources[1].info().name, "binance");
    assert_eq!(sources[0].identifier_key(), "channel");
    assert_eq!(sources[1].identifier_key(), "stream");
}

#[test]
fn adapters_of_the_container_act_as_their_venue() {
    let one = MarketSources::Binance(binance("ethbtc"));
    let other = MarketSources::Bitstamp(bitstamp("ethbtc"));
    assert_eq!(one.normalize(depth("ethbtc@depth10@100ms")), Ok(expected_snap(Exchange::Binance)));
    assert_eq!(other.normalize(depth("order_book_ethbtc")), Ok(expected_snap(Exchange::Bitstamp)));
    assert_eq!(one.normalize(depth("order_book_ethbtc")), Err(NormalizeError::IncorrectCurrency));
    assert_eq!(one.on_event(FeedState::Connecting, FeedEvent::Opened), (FeedState::Streaming, FeedAction::Receive));
    assert_eq!(
        other.on_event(FeedState::Connecting, FeedEvent::Opened),
        (FeedState::Subscribing, FeedAction::Subscribe("order_book_ethbtc".to_string()))
    );
    assert_eq!(other.start().0, FeedState::Connecting);
    assert_eq!(
        one.start().1,
        FeedAction::Connect(Url::parse("wss://stream.binance.com:9443/stream?streams=ethbtc@depth10@100ms").unwrap())
    );
    let copy = other.clone();
    assert_eq!(copy.exchange(), Exchange::Bitstamp);
    assert_eq!(copy.info().currency, "ethbtc");
}
