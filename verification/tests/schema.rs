use arrayvec::ArrayVec;
use orderbook_aggregator::console::clear;
use orderbook_aggregator::market_data_source::{
    deserialie_vector, push_within_depth, takes_more, Exchange, MarketDatSourceLevel, OrderBook, OrderBookSnap, DEFAULT_DEPTH,
};
use orderbook_aggregator::orderbook::Level;
use orderbook_aggregator::text::{decimal_string, same_text};
use orderbook_aggregator::total_order::{is_nan_bits, total_order_key};

fn level(price: f64, amount: f64) -> MarketDatSourceLevel {
    MarketDatSourceLevel { price: price.to_bits(), amount: amount.to_bits() }
}

#[test]
fn exchange_has_two_venues_with_names() {
    assert_eq!(Exchange::VARIANT_COUNT, 2);
    assert_eq!(Exchange::Binance.to_string(), "binance");
    assert_eq!(Exchange::Bitstamp.to_string(), "bitstamp");
    assert_eq!(Exchange::Binance.ordinal(), 0);
    assert_eq!(Exchange::Bitstamp.ordinal(), 1);
    assert_eq!(Exchange::from_usize(0), Some(Exchange::Binance));
    assert_eq!(Exchange::from_usize(1), Some(Exchange::Bitstamp));
    assert_eq!(Exchange::from_usize(2), None);
    assert_eq!(Exchange::from_usize(usize::MAX), None);
}

#[test]
fn default_depth_is_ten() {
    assert_eq!(DEFAULT_DEPTH, 10);
}

#[test]
fn order_key_follows_the_total_order_of_floats() {
    let values = [
        f64::NEG_INFINITY,
        -1.0e300,
        -2.5,
        -1.0,
        -f64::MIN_POSITIVE,
        -0.0,
        0.0,
        f64::MIN_POSITIVE,
        0.1,
        1.0,
        9.9,
        10.0,
        1.0e300,
        f64::INFINITY,
        f64::NAN,
    ];
    for a in values.iter() {
        for b in values.iter() {
            let by_key = total_order_key(a.to_bits()).cmp(&total_order_key(b.to_bits()));
            assert_eq!(by_key, a.total_cmp(b));
        }
    }
}

#[test]
fn order_key_of_chosen_patterns() {
    assert_eq!(total_order_key(0), 0);
    assert_eq!(total_order_key(1), 1);
    assert_eq!(total_order_key(1.0f64.to_bits()), 0x3ff0_0000_0000_0000);
    assert_eq!(total_order_key(0x7fff_ffff_ffff_ffff), i64::MAX);
    assert_eq!(total_order_key(0x8000_0000_0000_0000), -1);
    assert_eq!(total_order_key(0x8000_0000_0000_0001), -2);
    assert_eq!(total_order_key(u64::MAX), i64::MIN);
}

#[test]
fn nan_patterns_are_told_apart() {
    assert!(is_nan_bits(f64::NAN.to_bits()));
    assert!(is_nan_bits((-f64::NAN).to_bits()));
    assert!(is_nan_bits(0x7ff0_0000_0000_0001));
    assert!(is_nan_bits(0xfff0_0000_0000_0001));
    assert!(is_nan_bits(u64::MAX));
    assert!(!is_nan_bits(f64::INFINITY.to_bits()));
    assert!(!is_nan_bits(f64::NEG_INFINITY.to_bits()));
    assert!(!is_nan_bits(0));
    assert!(!is_nan_bits((-0.0f64).to_bits()));
    assert!(!is_nan_bits(1.5f64.to_bits()));
    assert!(!is_nan_bits(f64::MAX.to_bits()));
}

#[test]
fn level_of_nan_is_refused() {
    assert_eq!(MarketDatSourceLevel::from_bits(1.5f64.to_bits(), 2.0f64.to_bits()), Some(level(1.5, 2.0)));
    assert_eq!(MarketDatSourceLevel::from_bits(f64::NAN.to_bits(), 2.0f64.to_bits()), None);
    assert_eq!(MarketDatSourceLevel::from_bits(1.5f64.to_bits(), f64::NAN.to_bits()), None);
    assert_eq!(
        MarketDatSourceLevel::from_bits(f64::INFINITY.to_bits(), (-1.0f64).to_bits()),
        Some(level(f64::INFINITY, -1.0))
    );
}

#[test]
fn level_is_published_with_the_name_given() {
    let published = level(1.25, 3.0).to_orderbook_level("binance".to_string());
    assert_eq!(
        published,
        Level { price: 1.25f64.to_bits(), amount: 3.0f64.to_bits(), exchange: "binance".to_string() }
    );
}

#[test]
fn new_book_and_new_snapshot_are_empty() {
    let book = OrderBook::new();
    assert!(book.bids.is_empty());
    assert!(book.asks.is_empty());
    let snap = OrderBookSnap::new(Exchange::Bitstamp);
    assert_eq!(snap.exchange, Exchange::Bitstamp);
    assert_eq!(*snap.get_exchange(), Exchange::Bitstamp);
    assert!(snap.order_book.bids.is_empty());
    assert!(snap.order_book.asks.is_empty());
}

#[test]
fn book_takes_levels_up_to_its_depth() {
    let mut book = OrderBook::new();
    for i in 0..12 {
        book.add_bid(level(100.0 - i as f64, 1.0));
    }
    book.add_ask(level(200.0, 2.0));
    assert_eq!(book.bids.len(), 10);
    assert_eq!(book.bids[0], level(100.0, 1.0));
    assert_eq!(book.bids[9], level(91.0, 1.0));
    assert_eq!(book.asks.as_slice(), &[level(200.0, 2.0)]);
    let copy = book.clone();
    assert_eq!(copy, book);
    assert_eq!(copy.bids.len(), 10);
    assert_eq!(copy.asks[0], level(200.0, 2.0));
}

#[test]
fn push_within_depth_tells_what_it_kept() {
    let mut side: ArrayVec<MarketDatSourceLevel, DEFAULT_DEPTH> = ArrayVec::new();
    for i in 0..10 {
        assert!(takes_more(&side));
        assert!(push_within_depth(&mut side, level(i as f64, 1.0)));
    }
    assert!(!takes_more(&side));
    assert!(!push_within_depth(&mut side, level(10.0, 1.0)));
    assert_eq!(side.len(), 10);
    assert_eq!(side[9], level(9.0, 1.0));
}

#[test]
fn deserialie_vector_keeps_the_first_ten() {
    let levels: Vec<MarketDatSourceLevel> = (0..25).map(|i| level(100.0 - i as f64, i as f64)).collect();
    let all = deserialie_vector(&levels);
    let cut = deserialie_vector(&levels[..10]);
    assert_eq!(all, cut);
    assert_eq!(all.as_slice(), &levels[..10]);
    let short = deserialie_vector(&levels[..3]);
    assert_eq!(short.as_slice(), &levels[..3]);
    let exact = deserialie_vector(&levels[..11]);
    assert_eq!(exact.as_slice(), &levels[..10]);
    assert!(deserialie_vector(&[]).is_empty());
}

#[test]
fn decimal_string_writes_numbers() {
    assert_eq!(decimal_string(0), "0");
    assert_eq!(decimal_string(7), "7");
    assert_eq!(decimal_string(10), "10");
    assert_eq!(decimal_string(1234567890), "1234567890");
    assert_eq!(decimal_string(usize::MAX), usize::MAX.to_string());
}

#[test]
fn same_text_compares_characters() {
    assert!(same_text("ethbtc", "ethbtc"));
    assert!(!same_text("ethbtc", "ethbt"));
    assert!(!same_text("ethbtc", "ETHBTC"));
    assert!(same_text("", ""));
}

#[test]
fn clear_wipes_the_screen_and_homes_the_cursor() {
    assert_eq!(clear(), "\u{1b}[2J\u{1b}[1;1H");
    assert_eq!(clear().as_bytes(), &[27, b'[', b'2', b'J', 27, b'[', b'1', b';', b'1', b'H']);
}
