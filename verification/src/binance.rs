//! Binance Spot: venue configuration, the signed market-order request, and
//! the state of the depth-stream order book.

use crate::crypto::{hmac_sha256, hmac_sha256_tag};
use crate::hexcodec::{hex_encode, hex_lower};
use crate::text::{
    chars_to_string, format_i64, push_str_chars, signed_decimal_chars, str_to_chars,
};
use vstd::prelude::*;
use vstd::utf8::{encode_utf8, is_ascii_chars, is_ascii_chars_encode_utf8};

verus! {

// ---------------------------------------------------------------------------
// Configuration
// ---------------------------------------------------------------------------

/// The REST endpoint used when none is configured.
pub const DEFAULT_REST_BASE: &'static str = "https://api.binance.com";

/// The depth stream used when none is configured.
pub const DEFAULT_WS_URL: &'static str = "wss://stream.binance.com:9443/ws/ethusdt@depth20@100ms";

/// Configuration of the Binance venue.
#[derive(Clone, Debug)]
pub struct BinanceClient {
    /// REST base URL.
    pub rest_base: String,
    /// Depth-stream WebSocket URL.
    pub ws_url: String,
    /// API key, when configured.
    pub api_key: Option<String>,
    /// API secret, when configured.
    pub api_secret: Option<String>,
}

impl BinanceClient {
    /// The venue configuration from the values of `BINANCE_BASE_URL`,
    /// `BINANCE_WS_URL`, `BINANCE_API_KEY` and `BINANCE_API_SECRET` (`None`
    /// for an unset variable); an unset URL takes its default.
    pub fn from_env(
        rest_base: Option<String>,
        ws_url: Option<String>,
        api_key: Option<String>,
        api_secret: Option<String>,
    ) -> (c: BinanceClient)
        ensures
            c.rest_base@ == (match rest_base {
                Some(v) => v@,
                None => DEFAULT_REST_BASE@,
            }),
            c.ws_url@ == (match ws_url {
                Some(v) => v@,
                None => DEFAULT_WS_URL@,
            }),
            c.api_key == api_key,
            c.api_secret == api_secret,
    {
        let rest_base = match rest_base {
            Some(v) => v,
            None => DEFAULT_REST_BASE.to_owned(),
        };
        let ws_url = match ws_url {
            Some(v) => v,
            None => DEFAULT_WS_URL.to_owned(),
        };
        BinanceClient { rest_base, ws_url, api_key, api_secret }
    }
}

// ---------------------------------------------------------------------------
// application/x-www-form-urlencoded
// ---------------------------------------------------------------------------

/// A byte that form encoding writes as itself.
pub open spec fn form_unchanged(b: u8) -> bool {
    ||| b == 0x2a
    ||| b == 0x2d
    ||| b == 0x2e
    ||| 0x30 <= b <= 0x39
    ||| 0x41 <= b <= 0x5a
    ||| b == 0x5f
    ||| 0x61 <= b <= 0x7a
}

/// Upper-case hexadecimal digit of a nibble.
pub open spec fn hex_upper_digit(n: nat) -> char {
    if n < 10 {
        ((n + 48) as u32) as char
    } else {
        ((n + 55) as u32) as char
    }
}

/// Form encoding of one byte: itself, `+` for a space, else `%` and two
/// upper-case hexadecimal digits.
pub open spec fn form_byte_text(b: u8) -> Seq<char> {
    if form_unchanged(b) {
        seq![b as char]
    } else if b == 0x20 {
        seq!['+']
    } else {
        seq!['%', hex_upper_digit((b / 16) as nat), hex_upper_digit((b % 16) as nat)]
    }
}

/// Form encoding of a byte string, byte by byte.
pub open spec fn form_bytes_text(bytes: Seq<u8>) -> Seq<char>
    decreases bytes.len(),
{
    if bytes.len() == 0 {
        Seq::empty()
    } else {
        form_bytes_text(bytes.drop_last()) + form_byte_text(bytes.last())
    }
}

/// Form encoding of a text, through its UTF-8 bytes.
pub open spec fn form_component(s: Seq<char>) -> Seq<char> {
    form_bytes_text(encode_utf8(s))
}

/// Form-encoded text after appending the pair `name=value`: an `&` first
/// when the text is not empty.
pub open spec fn form_append_pair(acc: Seq<char>, name: Seq<char>, value: Seq<char>) -> Seq<
    char,
> {
    (if acc.len() > 0 {
        acc.push('&')
    } else {
        acc
    }) + form_component(name) + seq!['='] + form_component(value)
}

/// Form encoding of bytes.
///
/// Calls `url::form_urlencoded::byte_serialize` and collects its pieces:
/// bytes `*-._`, digits and ASCII letters as themselves, a space as `+`,
/// every other byte as `%` and two upper-case hex digits (form_urlencoded
/// 1.2.2, `byte_serialized_unchanged` and `percent_encode_byte`).
#[verifier::external_body]
pub(crate) fn form_byte_serialize(input: &[u8]) -> (s: String)
    ensures
        s@ == form_bytes_text(input@),
{
    url::form_urlencoded::byte_serialize(input).collect()
}

/// Appends `name=value` to form-encoded text, as
/// `form_urlencoded::Serializer::append_pair` does on a serializer that
/// started empty.
pub fn append_form_pair(out: &mut Vec<char>, name: &str, value: &str)
    ensures
        final(out)@ == form_append_pair(old(out)@, name@, value@),
{
    if out.len() > 0 {
        out.push('&');
    }
    let n = form_byte_serialize(name.as_bytes());
    push_str_chars(out, n.as_str());
    out.push('=');
    let v = form_byte_serialize(value.as_bytes());
    push_str_chars(out, v.as_str());
}

// ---------------------------------------------------------------------------
// Signed market order
// ---------------------------------------------------------------------------

/// Query text of a market buy of ETHUSDT spending `quote_qty` USDT, in the
/// order the fields are signed.
pub open spec fn order_payload_text(quote_qty: Seq<char>, timestamp: Seq<char>) -> Seq<char> {
    let p = form_append_pair(Seq::empty(), "symbol"@, "ETHUSDT"@);
    let p = form_append_pair(p, "side"@, "BUY"@);
    let p = form_append_pair(p, "type"@, "MARKET"@);
    let p = form_append_pair(p, "quoteOrderQty"@, quote_qty);
    let p = form_append_pair(p, "newOrderRespType"@, "RESULT"@);
    let p = form_append_pair(p, "recvWindow"@, "5000"@);
    form_append_pair(p, "timestamp"@, timestamp)
}

/// `s` without its trailing `/`s, as `str::trim_end_matches('/')` leaves it.
pub open spec fn strip_trailing_slashes(s: Seq<char>) -> Seq<char>
    decreases s.len(),
{
    if s.len() > 0 && s.last() == '/' {
        strip_trailing_slashes(s.drop_last())
    } else {
        s
    }
}

/// The signed order URL: the payload, then `&signature=` and the lower-case
/// hex HMAC-SHA256 of the payload under the secret.
pub open spec fn order_url_text(
    rest_base: Seq<char>,
    secret: Seq<char>,
    quote_qty: Seq<char>,
    timestamp_ms: int,
) -> Seq<char> {
    let payload = order_payload_text(quote_qty, signed_decimal_chars(timestamp_ms));
    strip_trailing_slashes(rest_base) + "/api/v3/order?"@ + payload + "&signature="@ + hex_lower(
        hmac_sha256_tag(encode_utf8(secret), encode_utf8(payload)),
    )
}

/// Text whose characters form encoding writes as themselves: ASCII letters,
/// digits and `*-._`.
pub open spec fn is_form_plain(s: Seq<char>) -> bool {
    &&& is_ascii_chars(s)
    &&& forall|i: int| 0 <= i < s.len() ==> form_unchanged(#[trigger] s[i] as u8)
}

/// Bytes that form encoding keeps are written as the characters they code.
proof fn lemma_form_bytes_plain(b: Seq<u8>)
    requires
        forall|i: int| 0 <= i < b.len() ==> form_unchanged(#[trigger] b[i]),
    ensures
        form_bytes_text(b) =~= Seq::new(b.len(), |i: int| b[i] as char),
    decreases b.len(),
{
    if b.len() > 0 {
        lemma_form_bytes_plain(b.drop_last());
    }
}

/// Form encoding leaves plain text unchanged.
pub proof fn lemma_form_component_plain(s: Seq<char>)
    requires
        is_form_plain(s),
    ensures
        form_component(s) == s,
{
    is_ascii_chars_encode_utf8(s);
    let b = encode_utf8(s);
    assert forall|i: int| 0 <= i < b.len() implies form_unchanged(#[trigger] b[i]) by {
        assert(b[i] == s[i] as u8);
    }
    lemma_form_bytes_plain(b);
    assert forall|i: int| 0 <= i < s.len() implies (b[i] as char) == s[i] by {
        assert(b[i] == s[i] as u8);
        assert((s[i] as int) < 128);
    }
    assert(form_bytes_text(b) =~= s);
}

/// Appending a pair of plain texts writes them as they are.
proof fn lemma_append_plain_pair(acc: Seq<char>, name: Seq<char>, value: Seq<char>)
    requires
        is_form_plain(name),
        is_form_plain(value),
    ensures
        form_append_pair(acc, name, value) == (if acc.len() > 0 {
            acc.push('&')
        } else {
            acc
        }) + name + seq!['='] + value,
{
    lemma_form_component_plain(name);
    lemma_form_component_plain(value);
}

/// The field names and fixed values of a market order are plain text.
proof fn lemma_order_literals_plain()
    ensures
        is_form_plain("symbol"@),
        is_form_plain("ETHUSDT"@),
        is_form_plain("side"@),
        is_form_plain("BUY"@),
        is_form_plain("type"@),
        is_form_plain("MARKET"@),
        is_form_plain("quoteOrderQty"@),
        is_form_plain("newOrderRespType"@),
        is_form_plain("RESULT"@),
        is_form_plain("recvWindow"@),
        is_form_plain("5000"@),
        is_form_plain("timestamp"@),
{
    reveal_strlit("symbol");
    reveal_strlit("ETHUSDT");
    reveal_strlit("side");
    reveal_strlit("BUY");
    reveal_strlit("type");
    reveal_strlit("MARKET");
    reveal_strlit("quoteOrderQty");
    reveal_strlit("newOrderRespType");
    reveal_strlit("RESULT");
    reveal_strlit("recvWindow");
    reveal_strlit("5000");
    reveal_strlit("timestamp");
}

/// The payload up to the amount: the fixed fields, then `quoteOrderQty=` and
/// the amount.
proof fn lemma_order_payload_head(quote_qty: Seq<char>)
    requires
        is_form_plain(quote_qty),
    ensures
        form_append_pair(
            form_append_pair(
                form_append_pair(
                    form_append_pair(Seq::empty(), "symbol"@, "ETHUSDT"@),
                    "side"@,
                    "BUY"@,
                ),
                "type"@,
                "MARKET"@,
            ),
            "quoteOrderQty"@,
            quote_qty,
        ) == "symbol=ETHUSDT&side=BUY&type=MARKET&quoteOrderQty="@ + quote_qty,
{
    lemma_order_literals_plain();
    let head = "symbol=ETHUSDT&side=BUY&type=MARKET&quoteOrderQty="@;
    reveal_strlit("symbol=ETHUSDT&side=BUY&type=MARKET&quoteOrderQty=");
    reveal_strlit("symbol");
    reveal_strlit("ETHUSDT");
    reveal_strlit("side");
    reveal_strlit("BUY");
    reveal_strlit("type");
    reveal_strlit("MARKET");
    reveal_strlit("quoteOrderQty");
    let p0 = Seq::<char>::empty();
    lemma_append_plain_pair(p0, "symbol"@, "ETHUSDT"@);
    let p1 = form_append_pair(p0, "symbol"@, "ETHUSDT"@);
    assert(p1 =~= head.take(14));
    lemma_append_plain_pair(p1, "side"@, "BUY"@);
    let p2 = form_append_pair(p1, "side"@, "BUY"@);
    assert(p2 =~= head.take(23));
    lemma_append_plain_pair(p2, "type"@, "MARKET"@);
    let p3 = form_append_pair(p2, "type"@, "MARKET"@);
    assert(p3 =~= head.take(35));
    lemma_append_plain_pair(p3, "quoteOrderQty"@, quote_qty);
    let p4 = form_append_pair(p3, "quoteOrderQty"@, quote_qty);
    assert(p4 =~= head + quote_qty);
}

/// The payload after the amount: the response type, the receive window and
/// the timestamp.
proof fn lemma_order_payload_tail(acc: Seq<char>, timestamp: Seq<char>)
    requires
        acc.len() > 0,
        is_form_plain(timestamp),
    ensures
        form_append_pair(
            form_append_pair(
                form_append_pair(acc, "newOrderRespType"@, "RESULT"@),
                "recvWindow"@,
                "5000"@,
            ),
            "timestamp"@,
            timestamp,
        ) == acc + "&newOrderRespType=RESULT&recvWindow=5000&timestamp="@ + timestamp,
{
    lemma_order_literals_plain();
    let mid = "&newOrderRespType=RESULT&recvWindow=5000&timestamp="@;
    reveal_strlit("&newOrderRespType=RESULT&recvWindow=5000&timestamp=");
    reveal_strlit("newOrderRespType");
    reveal_strlit("RESULT");
    reveal_strlit("recvWindow");
    reveal_strlit("5000");
    reveal_strlit("timestamp");
    lemma_append_plain_pair(acc, "newOrderRespType"@, "RESULT"@);
    let p5 = form_append_pair(acc, "newOrderRespType"@, "RESULT"@);
    assert(p5 =~= acc + mid.take(24));
    lemma_append_plain_pair(p5, "recvWindow"@, "5000"@);
    let p6 = form_append_pair(p5, "recvWindow"@, "5000"@);
    assert(p6 =~= acc + mid.take(40));
    lemma_append_plain_pair(p6, "timestamp"@, timestamp);
    let p7 = form_append_pair(p6, "timestamp"@, timestamp);
    assert(p7 =~= acc + mid + timestamp);
}

/// The order carries exactly the fields of a market buy of ETHUSDT for the
/// given USDT amount: when the amount and the timestamp are plain text (such
/// as decimal numbers), the payload is that text, field after field, with no
/// escaping.
pub proof fn lemma_order_payload_fields(quote_qty: Seq<char>, timestamp: Seq<char>)
    requires
        is_form_plain(quote_qty),
        is_form_plain(timestamp),
    ensures
        order_payload_text(quote_qty, timestamp) == "symbol=ETHUSDT&side=BUY&type=MARKET&quoteOrderQty="@
            + quote_qty + "&newOrderRespType=RESULT&recvWindow=5000&timestamp="@ + timestamp,
{
    lemma_order_payload_head(quote_qty);
    reveal_strlit("symbol=ETHUSDT&side=BUY&type=MARKET&quoteOrderQty=");
    let acc = "symbol=ETHUSDT&side=BUY&type=MARKET&quoteOrderQty="@ + quote_qty;
    lemma_order_payload_tail(acc, timestamp);
}

/// The decimal text of any timestamp is plain text, so it is signed as
/// written.
pub proof fn lemma_timestamp_plain(timestamp_ms: int)
    ensures
        is_form_plain(signed_decimal_chars(timestamp_ms)),
{
    let m: nat = if timestamp_ms < 0 {
        (-timestamp_ms) as nat
    } else {
        timestamp_ms as nat
    };
    crate::text::lemma_decimal_chars_digits(m);
    let d = crate::text::decimal_chars(m);
    let t = signed_decimal_chars(timestamp_ms);
    assert forall|i: int| 0 <= i < t.len() implies '\0' <= #[trigger] t[i] <= '\u{7f}'
        && form_unchanged(t[i] as u8) by {
        if timestamp_ms < 0 {
            if i > 0 {
                assert(t[i] == d[i - 1]);
                assert(crate::text::is_radix_digit(d[i - 1], 10));
            }
        } else {
            assert(crate::text::is_radix_digit(d[i], 10));
        }
    }
}

/// The form-encoded order payload for `quote_qty` USDT at `timestamp_ms`.
pub fn order_payload(quote_qty: &str, timestamp_ms: i64) -> (s: String)
    ensures
        s@ == order_payload_text(quote_qty@, signed_decimal_chars(timestamp_ms as int)),
{
    let ts = format_i64(timestamp_ms);
    let mut out: Vec<char> = Vec::new();
    append_form_pair(&mut out, "symbol", "ETHUSDT");
    append_form_pair(&mut out, "side", "BUY");
    append_form_pair(&mut out, "type", "MARKET");
    append_form_pair(&mut out, "quoteOrderQty", quote_qty);
    append_form_pair(&mut out, "newOrderRespType", "RESULT");
    append_form_pair(&mut out, "recvWindow", "5000");
    append_form_pair(&mut out, "timestamp", ts.as_str());
    chars_to_string(out.as_slice())
}

/// Length of `s` without its trailing `/`s.
fn trailing_slash_start(s: &[char]) -> (k: usize)
    ensures
        k <= s@.len(),
        s@.take(k as int) == strip_trailing_slashes(s@),
{
    let mut k = s.len();
    assert(s@.take(k as int) =~= s@);
    while k > 0 && s[k - 1] == '/'
        invariant
            k <= s@.len(),
            strip_trailing_slashes(s@.take(k as int)) == strip_trailing_slashes(s@),
        decreases k,
    {
        assert(s@.take(k as int).drop_last() =~= s@.take(k - 1));
        k = k - 1;
    }
    k
}

/// A market buy ready to send: the signed URL to POST, the API key for the
/// `X-MBX-APIKEY` header, the timestamp that was signed, and the clock
/// reading (seconds and nanoseconds since the Unix epoch) it was taken from.
#[derive(Clone, Debug)]
pub struct SignedOrder {
    pub url: String,
    pub api_key: String,
    pub timestamp_ms: i64,
    pub clock_secs: u64,
    pub clock_nanos: u32,
}

/// Why a market order could not be prepared.
#[derive(Clone, Copy, Debug, PartialEq, Eq, Structural)]
pub enum OrderError {
    /// `BINANCE_API_KEY` is not configured.
    MissingApiKey,
    /// `BINANCE_API_SECRET` is not configured.
    MissingApiSecret,
    /// The system clock reads a time before the Unix epoch or beyond what
    /// a timestamp can hold.
    InvalidClock,
}

/// The system clock as whole seconds and nanoseconds since the Unix epoch,
/// or `None` when the clock reads earlier than the epoch.
///
/// Calls std's `SystemTime::now().duration_since(UNIX_EPOCH)`; the value
/// depends on the clock, so the contract states only that the nanosecond
/// part is below one second, as `Duration::subsec_nanos` documents.
#[verifier::external_body]
fn clock_since_epoch() -> (r: Option<(u64, u32)>)
    ensures
        r matches Some((secs, nanos)) ==> nanos < 1_000_000_000,
{
    match std::time::SystemTime::now().duration_since(std::time::UNIX_EPOCH) {
        Ok(d) => Some((d.as_secs(), d.subsec_nanos())),
        Err(_) => None,
    }
}

/// Milliseconds since the Unix epoch of the UTC time `secs` seconds and
/// `nanos` nanoseconds after it, or `None` when chrono cannot represent it.
///
/// Calls `chrono::DateTime::<Utc>::from_timestamp` (which returns `None` for
/// an out-of-range time or an invalid nanosecond count, and round-trips
/// `timestamp` and `timestamp_subsec_nanos`) and then `timestamp_millis`,
/// which is `timestamp() * 1000 + timestamp_subsec_millis()` (chrono 0.4.45,
/// `datetime/mod.rs`). The contract states that formula for a returned value;
/// it does not say for which inputs the value is returned.
#[verifier::external_body]
fn utc_timestamp_millis(secs: i64, nanos: u32) -> (r: Option<i64>)
    ensures
        r matches Some(ms) ==> ms == secs * 1000 + nanos / 1_000_000,
{
    match chrono::DateTime::<chrono::Utc>::from_timestamp(secs, nanos) {
        Some(t) => Some(t.timestamp_millis()),
        None => None,
    }
}

/// The current time in milliseconds since the Unix epoch, with the clock
/// reading it comes from (whole seconds and nanoseconds since the epoch), when
/// the clock reads a representable time not earlier than the epoch. The
/// milliseconds are exactly those of the reading: `secs * 1000 + nanos / 10^6`.
fn now_millis() -> (r: Option<(i64, u64, u32)>)
    ensures
        r matches Some((t, secs, nanos)) ==> {
            &&& t == secs * 1000 + nanos / 1_000_000
            &&& nanos < 1_000_000_000
            &&& t >= 0
        },
{
    let (secs, nanos) = match clock_since_epoch() {
        Some(c) => c,
        None => {
            return None;
        },
    };
    if secs > 0x7fff_ffff_ffff_ffffu64 {
        return None;
    }
    match utc_timestamp_millis(secs as i64, nanos) {
        Some(t) => Some((t, secs, nanos)),
        None => None,
    }
}

impl BinanceClient {
    /// The signed order URL for a market buy of `quote_qty` USDT at
    /// `timestamp_ms`, signed with `secret`.
    pub fn signed_order_url(&self, secret: &str, quote_qty: &str, timestamp_ms: i64) -> (s:
        String)
        ensures
            s@ == order_url_text(self.rest_base@, secret@, quote_qty@, timestamp_ms as int),
    {
        let payload = order_payload(quote_qty, timestamp_ms);
        let tag = hmac_sha256(secret.as_bytes(), payload.as_str().as_bytes());
        let signature = hex_encode(tag.as_slice());
        let base = str_to_chars(self.rest_base.as_str());
        let k = trailing_slash_start(base.as_slice());
        let mut out: Vec<char> = Vec::new();
        let mut i: usize = 0;
        while i < k
            invariant
                k <= base@.len(),
                i <= k,
                out@ == base@.take(i as int),
            decreases k - i,
        {
            out.push(base[i]);
            assert(base@.take(i + 1) =~= base@.take(i as int).push(base@[i as int]));
            i = i + 1;
        }
        push_str_chars(&mut out, "/api/v3/order?");
        push_str_chars(&mut out, payload.as_str());
        push_str_chars(&mut out, "&signature=");
        push_str_chars(&mut out, signature.as_str());
        assert(out@ =~= order_url_text(self.rest_base@, secret@, quote_qty@, timestamp_ms as int));
        chars_to_string(out.as_slice())
    }

    /// Prepares a market buy of ETHUSDT spending `quote_qty` USDT (the
    /// amount as the order should carry it, six decimals): it needs the API
    /// key and secret, reads the clock and signs the order at that time; a
    /// clock before the Unix epoch or out of range is an error.
    pub fn market_buy_eth_with_usdt(&self, quote_qty: &str) -> (r: Result<SignedOrder, OrderError>)
        ensures
            self.api_key is None ==> r == Err::<SignedOrder, OrderError>(OrderError::MissingApiKey),
            self.api_key is Some && self.api_secret is None ==> r == Err::<SignedOrder, OrderError>(
                OrderError::MissingApiSecret,
            ),
            self.api_key is Some && self.api_secret is Some ==> (r is Ok || r == Err::<
                SignedOrder,
                OrderError,
            >(OrderError::InvalidClock)),
            r is Ok ==> self.api_key is Some && self.api_secret is Some,
            r matches Ok(o) ==> {
                &&& o.api_key@ == self.api_key->0@
                &&& o.timestamp_ms >= 0
                &&& o.timestamp_ms == o.clock_secs * 1000 + o.clock_nanos / 1_000_000
                &&& o.clock_nanos < 1_000_000_000
                &&& o.url@ == order_url_text(
                    self.rest_base@,
                    self.api_secret->0@,
                    quote_qty@,
                    o.timestamp_ms as int,
                )
            },
    {
        let api_key = match &self.api_key {
            Some(k) => k,
            None => {
                return Err(OrderError::MissingApiKey);
            },
        };
        let secret = match &self.api_secret {
            Some(s) => s,
            None => {
                return Err(OrderError::MissingApiSecret);
            },
        };
        let (timestamp_ms, clock_secs, clock_nanos) = match now_millis() {
            Some(r) => r,
            None => {
                return Err(OrderError::InvalidClock);
            },
        };
        let url = self.signed_order_url(secret.as_str(), quote_qty, timestamp_ms);
        Ok(SignedOrder { url, api_key: api_key.clone(), timestamp_ms, clock_secs, clock_nanos })
    }
}

/// Binance's answer to a market order.
#[derive(Clone, Debug, PartialEq, Eq)]
pub struct BinanceOrderResponse {
    pub symbol: String,
    pub order_id: u64,
    pub status: String,
    pub executed_qty: String,
    pub cummulative_quote_qty: String,
}

// ---------------------------------------------------------------------------
// Depth-stream order book
// ---------------------------------------------------------------------------

/// Seconds to wait before reconnecting the depth stream.
pub const RECONNECT_DELAY_SECS: u64 = 2;

/// The order book the depth stream keeps: its ask levels (best first, as the
/// stream handler sorts them), the id of the last update, and whether the
/// stream is connected.
#[derive(Clone, Debug)]
pub struct BinanceBook<L> {
    pub asks: Vec<L>,
    pub last_update_id: u64,
    pub connected: bool,
}

/// What happened on the depth stream.
pub enum FeedEvent<L> {
    /// The WebSocket connection opened.
    Connected,
    /// Opening the connection failed.
    ConnectFailed,
    /// A depth snapshot arrived, with its parsed ask levels.
    Depth { last_update_id: u64, asks: Vec<L> },
    /// A message that is not a depth snapshot.
    Ignored,
    /// Reading from the stream failed.
    ReadFailed,
    /// The stream ended.
    StreamClosed,
}

/// What the stream handler does next.
#[derive(Clone, Copy, Debug, PartialEq, Eq, Structural)]
pub enum FeedAction {
    /// Read the next message.
    ReadNext,
    /// Wait this many seconds, then connect again.
    ReconnectAfter { seconds: u64 },
}

/// One step of the depth stream: a connect marks the book connected; a
/// snapshot replaces the levels and the update id; another message changes
/// nothing; a failed connect, a failed read or the end of the stream marks
/// it disconnected and asks to reconnect after the delay. Only a snapshot
/// touches the levels and the update id.
pub open spec fn feed_step<L>(
    before: BinanceBook<L>,
    event: FeedEvent<L>,
    after: BinanceBook<L>,
    a: FeedAction,
) -> bool {
    match event {
        FeedEvent::Connected => {
            &&& after.connected
            &&& after.asks@ == before.asks@
            &&& after.last_update_id == before.last_update_id
            &&& a == FeedAction::ReadNext
        },
        FeedEvent::Depth { last_update_id, asks } => {
            &&& after.connected == before.connected
            &&& after.asks@ == asks@
            &&& after.last_update_id == last_update_id
            &&& a == FeedAction::ReadNext
        },
        FeedEvent::Ignored => {
            &&& after.connected == before.connected
            &&& after.asks@ == before.asks@
            &&& after.last_update_id == before.last_update_id
            &&& a == FeedAction::ReadNext
        },
        _ => {
            &&& !after.connected
            &&& after.asks@ == before.asks@
            &&& after.last_update_id == before.last_update_id
            &&& a == FeedAction::ReconnectAfter { seconds: RECONNECT_DELAY_SECS }
        },
    }
}

/// A connection is open after `events`: some connect happened and neither a
/// failed connect, a failed read nor the end of the stream came after it.
pub open spec fn stream_open<L>(events: Seq<FeedEvent<L>>) -> bool
    decreases events.len(),
{
    if events.len() == 0 {
        false
    } else {
        match events.last() {
            FeedEvent::Connected => true,
            FeedEvent::Depth { .. } => stream_open(events.drop_last()),
            FeedEvent::Ignored => stream_open(events.drop_last()),
            _ => false,
        }
    }
}

/// Over any run of the stream from a disconnected book, the book reads
/// connected exactly while a connection is open: after a successful connect
/// and before that connection fails or ends, and never after a failed connect.
pub proof fn lemma_connected_iff_stream_open<L>(
    books: Seq<BinanceBook<L>>,
    events: Seq<FeedEvent<L>>,
    actions: Seq<FeedAction>,
)
    requires
        books.len() == events.len() + 1,
        actions.len() == events.len(),
        !books[0].connected,
        forall|i: int|
            0 <= i < events.len() ==> feed_step(
                #[trigger] books[i],
                events[i],
                books[i + 1],
                actions[i],
            ),
    ensures
        books.last().connected <==> stream_open(events),
    decreases events.len(),
{
    if events.len() > 0 {
        let n = events.len() - 1;
        lemma_connected_iff_stream_open(books.drop_last(), events.drop_last(), actions.drop_last());
        assert(feed_step(books[n], events[n], books[n + 1], actions[n]));
        assert(books.drop_last().last() == books[n]);
    }
}

impl<L> BinanceBook<L> {
    /// The book before any connection: no levels, update id 0, disconnected.
    pub fn new() -> (b: BinanceBook<L>)
        ensures
            b.asks@.len() == 0,
            b.last_update_id == 0,
            !b.connected,
    {
        BinanceBook { asks: Vec::new(), last_update_id: 0, connected: false }
    }

    /// Applies a stream event to the book and says what to do next.
    pub fn apply(&mut self, event: FeedEvent<L>) -> (a: FeedAction)
        ensures
            feed_step(*old(self), event, *final(self), a),
    {
        match event {
            FeedEvent::Connected => {
                self.connected = true;
                FeedAction::ReadNext
            },
            FeedEvent::Depth { last_update_id, asks } => {
                self.asks = asks;
                self.last_update_id = last_update_id;
                FeedAction::ReadNext
            },
            FeedEvent::Ignored => FeedAction::ReadNext,
            _ => {
                self.connected = false;
                FeedAction::ReconnectAfter { seconds: RECONNECT_DELAY_SECS }
            },
        }
    }
}

} // verus!
