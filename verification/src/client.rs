//! The client: which request each endpoint of the exchange takes.

use crate::decimal::{decimal, decimal_string};
use crate::hex::is_lower_hex;
use crate::json::{json_object, Body};
use crate::nonce::{seed_of, step, Nonce};
use crate::request::{auth_headers, auth_headers_of, Header, Method, Request, RequestView};
use crate::response::ApiError;
use crate::signing::{
    get_message, get_message_of, is_signable, post_message, post_message_of, signable, signature,
    signature_of,
};
use vstd::prelude::*;
use vstd::string::StringExecFns;

verus! {

/// Where the public endpoints live. The pair follows directly.
pub const PUBLIC_BASE: &'static str = "https://public.bitbank.cc/";

/// Where the private endpoints live. The path follows directly.
pub const PRIVATE_BASE: &'static str = "https://api.bitbank.cc";

/// A client of the exchange: the key and the secret of one account, the two
/// base URLs and the account's one nonce generator.
pub struct Client {
    key: &'static str,
    secret: &'static str,
    public_base: &'static str,
    private_base: &'static str,
    nonce: Nonce,
}

/// A client in mathematical terms. `nonce` is the generator's counter.
pub struct ClientView {
    pub key: Seq<char>,
    pub secret: Seq<char>,
    pub public_base: Seq<char>,
    pub private_base: Seq<char>,
    pub nonce: int,
}

impl View for Client {
    type V = ClientView;

    closed spec fn view(&self) -> ClientView {
        ClientView {
            key: self.key@,
            secret: self.secret@,
            public_base: self.public_base@,
            private_base: self.private_base@,
            nonce: self.nonce@,
        }
    }
}

/// A GET without headers to `tail` under the public base.
pub open spec fn public_get_of(client: ClientView, tail: Seq<char>) -> RequestView {
    RequestView {
        method: Method::Get,
        url: client.public_base + tail,
        headers: Seq::empty(),
        body: None,
    }
}

/// A signed GET to `path` with `query` appended, under the private base.
pub open spec fn private_get_of(
    client: ClientView,
    nonce: int,
    path: Seq<char>,
    query: Seq<char>,
) -> RequestView {
    RequestView {
        method: Method::Get,
        url: client.private_base + path + query,
        headers: auth_headers_of(
            client.key,
            decimal(nonce),
            signature_of(client.secret, get_message_of(nonce, path, query)),
        ),
        body: None,
    }
}

/// A signed POST of `body` to `path` under the private base.
pub open spec fn private_post_of(
    client: ClientView,
    nonce: int,
    body: Seq<char>,
    path: Seq<char>,
) -> RequestView {
    RequestView {
        method: Method::Post,
        url: client.private_base + path,
        headers: auth_headers_of(
            client.key,
            decimal(nonce),
            signature_of(client.secret, post_message_of(nonce, body)),
        ),
        body: Some(body),
    }
}

/// What a private GET gives from a client in this state: the request signed
/// with the next nonce, or the reason why there is none.
pub open spec fn private_get_result(client: ClientView, path: Seq<char>, query: Seq<char>) -> Result<
    RequestView,
    ApiError,
> {
    match step(client.nonce).1 {
        None => Err(ApiError::NonceExhausted),
        Some(n) => if signable(client.secret) && signable(get_message_of(n as int, path, query)) {
            Ok(private_get_of(client, n as int, path, query))
        } else {
            Err(ApiError::Unsignable)
        },
    }
}

/// What a private POST gives from a client in this state: the request signed
/// with the next nonce, or the reason why there is none.
pub open spec fn private_post_result(client: ClientView, body: Seq<char>, path: Seq<char>) -> Result<
    RequestView,
    ApiError,
> {
    match step(client.nonce).1 {
        None => Err(ApiError::NonceExhausted),
        Some(n) => if signable(client.secret) && signable(post_message_of(n as int, body)) {
            Ok(private_post_of(client, n as int, body, path))
        } else {
            Err(ApiError::Unsignable)
        },
    }
}

/// What a signed POST sends as its body is, character for character, what
/// follows the nonce in the message that was signed.
pub proof fn lemma_signed_body_is_sent_body(
    client: ClientView,
    nonce: int,
    body: Seq<char>,
    path: Seq<char>,
)
    ensures
        private_post_of(client, nonce, body, path).body == Some(body),
        post_message_of(nonce, body).subrange(0, decimal(nonce).len() as int) == decimal(nonce),
        post_message_of(nonce, body).skip(decimal(nonce).len() as int) == body,
{
    assert(post_message_of(nonce, body).subrange(0, decimal(nonce).len() as int) =~= decimal(
        nonce,
    ));
    assert(post_message_of(nonce, body).skip(decimal(nonce).len() as int) =~= body);
}

/// The client after a private call: its generator has made one draw, and
/// nothing else has changed.
pub open spec fn after_draw(client: ClientView) -> ClientView {
    ClientView { nonce: step(client.nonce).0, ..client }
}

/// Whether `res` is `expected`, the request taken by its view.
pub open spec fn is_result(res: Result<Request, ApiError>, expected: Result<RequestView, ApiError>) -> bool {
    match res {
        Ok(req) => expected == Ok::<RequestView, ApiError>(req@),
        Err(e) => expected == Err::<RequestView, ApiError>(e),
    }
}

/// The query string that selects one order.
pub open spec fn order_query_of(pair: Seq<char>, order_id: Seq<char>) -> Seq<char> {
    "?pair="@ + pair + "&order_id="@ + order_id
}

/// The query string that selects the active orders.
pub open spec fn active_orders_query_of(
    pair: Seq<char>,
    count: Seq<char>,
    from_id: Seq<char>,
    end_id: Seq<char>,
    since: Seq<char>,
    end: Seq<char>,
) -> Seq<char> {
    "?pair="@ + pair + "&count="@ + count + "&from_id="@ + from_id + "&end_id="@ + end_id
        + "&since="@ + since + "&end="@ + end
}

/// The query string that selects the withdrawal accounts of one asset.
pub open spec fn withdrawal_query_of(asset: Seq<char>) -> Seq<char> {
    "?asset="@ + asset
}

/// The fields of a new order, in the order in which they are written.
pub open spec fn order_fields_of(
    pair: Seq<char>,
    amount: Seq<char>,
    price: Seq<char>,
    side: Seq<char>,
    order_type: Seq<char>,
) -> Seq<(Seq<char>, Seq<char>)> {
    seq![
        ("pair"@, pair),
        ("amount"@, amount),
        ("price"@, price),
        ("side"@, side),
        ("type"@, order_type),
    ]
}

/// The fields of a cancellation, in the order in which they are written.
pub open spec fn cancel_fields_of(pair: Seq<char>, order_id: Seq<char>) -> Seq<
    (Seq<char>, Seq<char>),
> {
    seq![("pair"@, pair), ("order_id"@, order_id)]
}

/// The fields of a withdrawal request.
pub open spec fn withdrawal_fields_of(asset: Seq<char>) -> Seq<(Seq<char>, Seq<char>)> {
    seq![("asset"@, asset)]
}

/// The field names of a new order differ from one another, and so do those of
/// a cancellation.
proof fn lemma_field_names_differ()
    ensures
        "pair"@ != "amount"@,
        "pair"@ != "price"@,
        "pair"@ != "side"@,
        "pair"@ != "type"@,
        "pair"@ != "order_id"@,
        "amount"@ != "price"@,
        "amount"@ != "side"@,
        "amount"@ != "type"@,
        "price"@ != "side"@,
        "price"@ != "type"@,
        "side"@ != "type"@,
{
    reveal_strlit("pair");
    reveal_strlit("amount");
    reveal_strlit("price");
    reveal_strlit("side");
    reveal_strlit("type");
    reveal_strlit("order_id");
    assert("pair"@.len() == 4 && "pair"@[0] == 'p');
    assert("side"@.len() == 4 && "side"@[0] == 's');
    assert("type"@.len() == 4 && "type"@[0] == 't');
    assert("price"@.len() == 5);
    assert("amount"@.len() == 6);
    assert("order_id"@.len() == 8);
}

fn text3(a: &str, b: &str, c: &str) -> (text: String)
    ensures
        text@ == a@ + b@ + c@,
{
    let mut text = String::from_str(a);
    text.append(b);
    text.append(c);
    text
}

impl Client {
    /// A client for the account with this key and secret, with a nonce
    /// generator seeded from the current wall-clock time.
    pub fn new(key: &'static str, secret: &'static str) -> (client: Client)
        ensures
            client@.key == key@,
            client@.secret == secret@,
            client@.public_base == PUBLIC_BASE@,
            client@.private_base == PRIVATE_BASE@,
            exists|sec: i64, nsec: i32|
                0 <= nsec < 1_000_000_000 && client@.nonce == #[trigger] seed_of(
                    sec as int,
                    nsec as int,
                ),
    {
        Client::with_nonce(key, secret, Nonce::new())
    }

    /// A client for the account with this key and secret that draws its
    /// nonces from `nonce`.
    pub fn with_nonce(key: &'static str, secret: &'static str, nonce: Nonce) -> (client: Client)
        ensures
            client@ == (ClientView {
                key: key@,
                secret: secret@,
                public_base: PUBLIC_BASE@,
                private_base: PRIVATE_BASE@,
                nonce: nonce@,
            }),
    {
        Client { key, secret, public_base: PUBLIC_BASE, private_base: PRIVATE_BASE, nonce }
    }

    fn public_get(&self, tail: &str) -> (req: Request)
        ensures
            req@ == public_get_of(self@, tail@),
    {
        let mut url = String::from_str(self.public_base);
        url.append(tail);
        let req = Request { method: Method::Get, url, headers: Vec::new(), body: None };
        assert(req@.headers =~= Seq::empty());
        req
    }

    /// The request for the ticker of `pair`.
    pub fn get_ticker(&self, pair: &str) -> (req: Request)
        ensures
            req@ == public_get_of(self@, pair@ + "/ticker"@),
    {
        let mut tail = String::from_str(pair);
        tail.append("/ticker");
        self.public_get(tail.as_str())
    }

    /// The request for the order book of `pair`.
    pub fn get_depth(&self, pair: &str) -> (req: Request)
        ensures
            req@ == public_get_of(self@, pair@ + "/depth"@),
    {
        let mut tail = String::from_str(pair);
        tail.append("/depth");
        self.public_get(tail.as_str())
    }

    /// The request for the latest trades of `pair`.
    pub fn get_transactions(&self, pair: &str) -> (req: Request)
        ensures
            req@ == public_get_of(self@, pair@ + "/transactions"@),
    {
        let mut tail = String::from_str(pair);
        tail.append("/transactions");
        self.public_get(tail.as_str())
    }

    /// The request for the trades of `pair` on `date`.
    pub fn get_transactions_by_date(&self, pair: &str, date: &str) -> (req: Request)
        ensures
            req@ == public_get_of(self@, pair@ + "/transactions/"@ + date@),
    {
        let tail = text3(pair, "/transactions/", date);
        self.public_get(tail.as_str())
    }

    /// The request for the candlesticks of `pair`, of the kind `candle_type`,
    /// for `date`.
    pub fn get_candlestick(&self, pair: &str, candle_type: &str, date: &str) -> (req: Request)
        ensures
            req@ == public_get_of(
                self@,
                pair@ + "/candlestick/"@ + candle_type@ + "/"@ + date@,
            ),
    {
        let mut tail = text3(pair, "/candlestick/", candle_type);
        tail.append("/");
        tail.append(date);
        self.public_get(tail.as_str())
    }

    /// Signs `message` with the client's secret.
    pub fn signature(&self, message: &str) -> (sig: String)
        requires
            signable(self@.secret),
            signable(message@),
        ensures
            sig@ == signature_of(self@.secret, message@),
            sig@.len() == 64,
            forall|i: int| 0 <= i < 64 ==> is_lower_hex(#[trigger] sig@[i]),
    {
        signature(self.secret, message)
    }

    /// The three authentication headers for a request with this nonce, in
    /// decimal, and this signing message.
    pub fn create_header(&self, nonce: &str, message: &str) -> (headers: Vec<Header>)
        requires
            signable(self@.secret),
            signable(message@),
        ensures
            headers@.map_values(|h: Header| h@) == auth_headers_of(
                self@.key,
                nonce@,
                signature_of(self@.secret, message@),
            ),
    {
        let sig = self.signature(message);
        auth_headers(self.key, nonce, sig.as_str())
    }

    /// Draws the next nonce and builds the signed GET to `path` with `query`.
    pub fn private_get_request(&mut self, path: &str, query: &str) -> (res: Result<
        Request,
        ApiError,
    >)
        ensures
            final(self)@ == after_draw(old(self)@),
            is_result(res, private_get_result(old(self)@, path@, query@)),
    {
        let n = match self.nonce.next() {
            Some(n) => n,
            None => {
                return Err(ApiError::NonceExhausted);
            },
        };
        let message = get_message(n, path, query);
        if !(is_signable(self.secret) && is_signable(message.as_str())) {
            return Err(ApiError::Unsignable);
        }
        let headers = self.create_header(decimal_string(n).as_str(), message.as_str());
        let url = text3(self.private_base, path, query);
        Ok(Request { method: Method::Get, url, headers, body: None })
    }

    /// Draws the next nonce and builds the signed POST of `body` to `path`.
    pub fn private_post_request(&mut self, body: &str, path: &str) -> (res: Result<
        Request,
        ApiError,
    >)
        ensures
            final(self)@ == after_draw(old(self)@),
            is_result(res, private_post_result(old(self)@, body@, path@)),
    {
        let n = match self.nonce.next() {
            Some(n) => n,
            None => {
                return Err(ApiError::NonceExhausted);
            },
        };
        let message = post_message(n, body);
        if !(is_signable(self.secret) && is_signable(message.as_str())) {
            return Err(ApiError::Unsignable);
        }
        let headers = self.create_header(decimal_string(n).as_str(), message.as_str());
        let mut url = String::from_str(self.private_base);
        url.append(path);
        Ok(Request { method: Method::Post, url, headers, body: Some(String::from_str(body)) })
    }

    /// The request for the balances of the account.
    pub fn get_assets(&mut self) -> (res: Result<Request, ApiError>)
        ensures
            final(self)@ == after_draw(old(self)@),
            is_result(res, private_get_result(old(self)@, "/v1/user/assets"@, Seq::empty())),
    {
        proof {
            reveal_strlit("");
            assert(""@ =~= Seq::<char>::empty());
        }
        self.private_get_request("/v1/user/assets", "")
    }

    /// The request for one order of `pair`.
    pub fn get_order(&mut self, pair: &str, order_id: &str) -> (res: Result<Request, ApiError>)
        ensures
            final(self)@ == after_draw(old(self)@),
            is_result(
                res,
                private_get_result(
                    old(self)@,
                    "/v1/user/spot/order"@,
                    order_query_of(pair@, order_id@),
                ),
            ),
    {
        let mut query = text3("?pair=", pair, "&order_id=");
        query.append(order_id);
        self.private_get_request("/v1/user/spot/order", query.as_str())
    }

    /// The request that places an order.
    pub fn order(
        &mut self,
        pair: &str,
        amount: &str,
        price: &str,
        order_side: &str,
        order_type: &str,
    ) -> (res: Result<Request, ApiError>)
        ensures
            final(self)@ == after_draw(old(self)@),
            is_result(
                res,
                private_post_result(
                    old(self)@,
                    json_object(
                        order_fields_of(pair@, amount@, price@, order_side@, order_type@),
                    ),
                    "/v1/user/spot/order"@,
                ),
            ),
    {
        proof {
            lemma_field_names_differ();
        }
        let mut body = Body::new();
        body.insert("pair", pair);
        assert(body@ =~= seq![("pair"@, pair@)]);
        body.insert("amount", amount);
        assert(body@ =~= seq![("pair"@, pair@), ("amount"@, amount@)]);
        body.insert("price", price);
        assert(body@ =~= seq![("pair"@, pair@), ("amount"@, amount@), ("price"@, price@)]);
        body.insert("side", order_side);
        assert(body@ =~= seq![
            ("pair"@, pair@),
            ("amount"@, amount@),
            ("price"@, price@),
            ("side"@, order_side@),
        ]);
        body.insert("type", order_type);
        assert(body@ =~= order_fields_of(pair@, amount@, price@, order_side@, order_type@));
        let text = body.to_json();
        self.private_post_request(text.as_str(), "/v1/user/spot/order")
    }

    /// The request that cancels one order of `pair`.
    pub fn cancel_order(&mut self, pair: &str, order_id: &str) -> (res: Result<Request, ApiError>)
        ensures
            final(self)@ == after_draw(old(self)@),
            is_result(
                res,
                private_post_result(
                    old(self)@,
                    json_object(cancel_fields_of(pair@, order_id@)),
                    "/v1/user/spot/cancel_order"@,
                ),
            ),
    {
        proof {
            lemma_field_names_differ();
        }
        let mut body = Body::new();
        body.insert("pair", pair);
        assert(body@ =~= seq![("pair"@, pair@)]);
        body.insert("order_id", order_id);
        assert(body@ =~= cancel_fields_of(pair@, order_id@));
        let text = body.to_json();
        self.private_post_request(text.as_str(), "/v1/user/spot/cancel_order")
    }

    /// The request for the active orders of `pair`.
    pub fn get_active_orders(
        &mut self,
        pair: &str,
        count: &str,
        from_id: &str,
        end_id: &str,
        since: &str,
        end: &str,
    ) -> (res: Result<Request, ApiError>)
        ensures
            final(self)@ == after_draw(old(self)@),
            is_result(
                res,
                private_get_result(
                    old(self)@,
                    "/v1/user/spot/active_orders"@,
                    active_orders_query_of(pair@, count@, from_id@, end_id@, since@, end@),
                ),
            ),
    {
        let mut query = text3("?pair=", pair, "&count=");
        query.append(count);
        query.append("&from_id=");
        query.append(from_id);
        query.append("&end_id=");
        query.append(end_id);
        query.append("&since=");
        query.append(since);
        query.append("&end=");
        query.append(end);
        self.private_get_request("/v1/user/spot/active_orders", query.as_str())
    }

    /// The request for the withdrawal accounts of `asset`.
    pub fn get_withdrawal_account(&mut self, asset: &str) -> (res: Result<Request, ApiError>)
        ensures
            final(self)@ == after_draw(old(self)@),
            is_result(
                res,
                private_get_result(
                    old(self)@,
                    "/v1/user/withdrawal_account"@,
                    withdrawal_query_of(asset@),
                ),
            ),
    {
        let mut query = String::from_str("?asset=");
        query.append(asset);
        self.private_get_request("/v1/user/withdrawal_account", query.as_str())
    }

    /// The request that asks for a withdrawal of `asset`.
    pub fn request_withdrawal(&mut self, asset: &str) -> (res: Result<Request, ApiError>)
        ensures
            final(self)@ == after_draw(old(self)@),
            is_result(
                res,
                private_post_result(
                    old(self)@,
                    json_object(withdrawal_fields_of(asset@)),
                    "/v1/user/request_withdrawal"@,
                ),
            ),
    {
        let mut body = Body::new();
        body.insert("asset", asset);
        assert(body@ =~= withdrawal_fields_of(asset@));
        let text = body.to_json();
        self.private_post_request(text.as_str(), "/v1/user/request_withdrawal")
    }
}

} // verus!
