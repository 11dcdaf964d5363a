use hmac::Mac;
use routiq::binance::{
    append_form_pair, order_payload, BinanceBook, BinanceClient, FeedAction, FeedEvent,
    OrderError, RECONNECT_DELAY_SECS,
};

fn client(base: &str, key: Option<&str>, secret: Option<&str>) -> BinanceClient {
    BinanceClient::from_env(
        Some(base.to_string()),
        None,
        key.map(|k| k.to_string()),
        secret.map(|s| s.to_string()),
    )
}

fn hmac_hex(secret: &str, payload: &str) -> String {
    let mut mac = hmac::Hmac::<sha2::Sha256>::new_from_slice(secret.as_bytes()).unwrap();
    mac.update(payload.as_bytes());
    hex::encode(mac.finalize().into_bytes())
}

#[test]
fn binance_from_env_defaults() {
    let c = BinanceClient::from_env(None, None, None, None);
    assert_eq!(c.rest_base, "https://api.binance.com");
    assert_eq!(c.ws_url, "wss://stream.binance.com:9443/ws/ethusdt@depth20@100ms");
    assert_eq!(c.api_key, None);
    assert_eq!(c.api_secret, None);
}

#[test]
fn order_payload_exact_text() {
    assert_eq!(
        order_payload("100.000000", 1499827319559),
        "symbol=ETHUSDT&side=BUY&type=MARKET&quoteOrderQty=100.000000&newOrderRespType=RESULT&recvWindow=5000&timestamp=1499827319559"
    );
}

#[test]
fn form_pairs_escape_reserved_bytes() {
    let mut out: Vec<char> = Vec::new();
    append_form_pair(&mut out, "a b", "x&y=z/é");
    append_form_pair(&mut out, "k", "*-._~");
    let s: String = out.into_iter().collect();
    assert_eq!(s, "a+b=x%26y%3Dz%2F%C3%A9&k=*-._%7E");
}

#[test]
fn signed_order_url_signs_the_payload() {
    let secret = "NhqPtmdSJYdKjVHjA7PZj4Mge3R5YNiP1e3UZjInClVN65XAbvqqM6A7H5fATj0j";
    let c = client("https://api.binance.com//", Some("key"), Some(secret));
    let url = c.signed_order_url(secret, "25.500000", 1700000000000);
    let payload = order_payload("25.500000", 1700000000000);
    let expected = format!(
        "https://api.binance.com/api/v3/order?{}&signature={}",
        payload,
        hmac_hex(secret, &payload)
    );
    assert_eq!(url, expected);
}

#[test]
fn market_buy_needs_key_and_secret() {
    let c = client("https://x", None, Some("s"));
    assert_eq!(c.market_buy_eth_with_usdt("1.000000").err(), Some(OrderError::MissingApiKey));
    let c = client("https://x", Some("k"), None);
    assert_eq!(c.market_buy_eth_with_usdt("1.000000").err(), Some(OrderError::MissingApiSecret));
    let c = client("https://x", None, None);
    assert_eq!(c.market_buy_eth_with_usdt("1.000000").err(), Some(OrderError::MissingApiKey));
}

#[test]
fn market_buy_signs_at_the_current_time() {
    let c = client("https://api.binance.com/", Some("the-key"), Some("the-secret"));
    let o = c.market_buy_eth_with_usdt("100.000000").ok().unwrap();
    assert_eq!(o.api_key, "the-key");
    assert!(o.timestamp_ms > 1_600_000_000_000);
    assert_eq!(o.url, c.signed_order_url("the-secret", "100.000000", o.timestamp_ms));
    assert!(o.url.starts_with("https://api.binance.com/api/v3/order?symbol=ETHUSDT&"));
}

#[test]
fn book_follows_stream_events() {
    let mut b: BinanceBook<(u32, u32)> = BinanceBook::new();
    assert!(b.asks.is_empty() && b.last_update_id == 0 && !b.connected);
    assert_eq!(b.apply(FeedEvent::Connected), FeedAction::ReadNext);
    assert!(b.connected);
    let a = b.apply(FeedEvent::Depth { last_update_id: 9, asks: vec![(1, 2), (3, 4)] });
    assert_eq!(a, FeedAction::ReadNext);
    assert_eq!(b.asks, vec![(1, 2), (3, 4)]);
    assert_eq!(b.last_update_id, 9);
    assert!(b.connected);
    assert_eq!(b.apply(FeedEvent::Ignored), FeedAction::ReadNext);
    assert_eq!(b.last_update_id, 9);
    assert_eq!(b.apply(FeedEvent::ReadFailed), FeedAction::ReconnectAfter { seconds: RECONNECT_DELAY_SECS });
    assert!(!b.connected);
    assert_eq!(b.asks, vec![(1, 2), (3, 4)]);
    assert_eq!(b.apply(FeedEvent::ConnectFailed), FeedAction::ReconnectAfter { seconds: 2 });
    assert_eq!(b.apply(FeedEvent::Connected), FeedAction::ReadNext);
    assert_eq!(b.apply(FeedEvent::StreamClosed), FeedAction::ReconnectAfter { seconds: 2 });
    assert!(!b.connected);
}
