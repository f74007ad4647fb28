use vstd::prelude::*;
use crate::account::{encode_account, text_of_account, AccountId};
use crate::decimal::{digits_of, unsigned_text};
use crate::json::{json_of_text, parse_json, Json};

verus! {

/// Token type that stands for the native currency in quotes.
pub const SOL_MINT: &'static str = "So11111111111111111111111111111111111111112";

/// The address at which quotes are asked for.
pub open spec fn quote_address() -> Seq<char> {
    "https://quote-api.jup.ag/v6/quote"@
}

/// The address at which swap transactions are asked for.
pub open spec fn swap_address() -> Seq<char> {
    "https://quote-api.jup.ag/v6/swap"@
}

/// Where quotes are asked for.
pub fn quote_url() -> (r: &'static str)
    ensures
        r@ == quote_address(),
{
    "https://quote-api.jup.ag/v6/quote"
}

/// Where swap transactions are asked for.
pub fn swap_url() -> (r: &'static str)
    ensures
        r@ == swap_address(),
{
    "https://quote-api.jup.ag/v6/swap"
}

/// What a quote is asked for: a swap of `amount` smallest units of
/// `input_mint` into `output_mint`, at a tolerance in basis points.
#[derive(Debug, Clone, PartialEq, Eq)]
pub struct QuoteRequest {
    pub input_mint: String,
    pub output_mint: String,
    pub amount: u64,
    pub slippage_bps: u16,
}

/// What a swap transaction is asked for.
#[derive(Debug, PartialEq, Eq)]
pub struct SwapRequest {
    /// The quote, as it was received.
    pub quote_response: Json,
    pub user_public_key: String,
    pub wrap_and_unwrap_sol: bool,
    pub dynamic_compute_unit_limit: bool,
    pub prioritization_fee_lamports: u64,
}

/// A quote: the amounts going in and coming out, and the whole answer of
/// the exchange, which goes into the swap request as it is.
#[derive(Debug, PartialEq, Eq)]
pub struct QuoteResponse {
    pub in_amount: String,
    pub out_amount: String,
    pub extra: Json,
}

/// The answer to a swap request: the transaction in base64.
#[derive(Debug, Clone, PartialEq, Eq)]
pub struct SwapResponse {
    pub swap_transaction: String,
}

/// Why a request to the exchange yielded nothing.
#[derive(Debug, Clone, PartialEq, Eq)]
pub enum ServiceError {
    /// The service answered with a status outside 200 to 299; `body` is
    /// what it sent.
    Refused { body: String },
    /// The answer is not of the form that was asked for.
    Unreadable,
}

/// The URL that `pairs`, appended as query parameters, make of `base`, if
/// `base` is an absolute URL.
pub uninterp spec fn url_with_query(base: Seq<char>, pairs: Seq<(Seq<char>, Seq<char>)>) -> Option<
    Seq<char>,
>;

/// Appends query parameters to a URL.
///
/// Calls `Url::parse_with_params` of `url`, which parses `base` and, where
/// that succeeds, appends the pairs to the query in their order; the
/// contract gives the text of the resulting URL the name `url_with_query`.
#[verifier::external_body]
pub(crate) fn append_query(base: &str, pairs: &Vec<(String, String)>) -> (r: Option<String>)
    ensures
        match r {
            Some(u) => url_with_query(base@, pairs.deep_view()) == Some(u@),
            None => url_with_query(base@, pairs.deep_view()) is None,
        },
{
    match url::Url::parse_with_params(base, pairs.iter()) {
        Ok(u) => Some(String::from(u)),
        Err(_) => None,
    }
}

/// Whether an HTTP status reports success.
pub open spec fn is_success(status: u16) -> bool {
    200 <= status < 300
}

/// The query parameters of a request for a quote, in the order in which
/// they are sent.
pub open spec fn quote_query(input_mint: Seq<char>, output_mint: Seq<char>, amount: u64, slippage_bps: u16) -> Seq<
    (Seq<char>, Seq<char>),
> {
    seq![
        ("inputMint"@, input_mint),
        ("outputMint"@, output_mint),
        ("amount"@, digits_of(amount as nat)),
        ("slippageBps"@, digits_of(slippage_bps as nat)),
    ]
}

impl QuoteRequest {
    /// The query parameters of the request.
    pub open spec fn query_spec(self) -> Seq<(Seq<char>, Seq<char>)> {
        quote_query(self.input_mint@, self.output_mint@, self.amount, self.slippage_bps)
    }

    /// The query parameters of the request.
    pub fn query(&self) -> (r: Vec<(String, String)>)
        ensures
            r.deep_view() == self.query_spec(),
    {
        let mut pairs: Vec<(String, String)> = Vec::new();
        pairs.push(("inputMint".to_owned(), self.input_mint.clone()));
        pairs.push(("outputMint".to_owned(), self.output_mint.clone()));
        pairs.push(("amount".to_owned(), unsigned_text(self.amount)));
        pairs.push(("slippageBps".to_owned(), unsigned_text(self.slippage_bps as u64)));
        proof {
            assert(pairs.deep_view() =~= self.query_spec());
        }
        pairs
    }

    /// The URL to fetch for the quote.
    pub fn url(&self) -> (r: Option<String>)
        ensures
            match r {
                Some(u) => url_with_query(quote_address(), self.query_spec()) == Some(u@),
                None => url_with_query(quote_address(), self.query_spec()) is None,
            },
    {
        let pairs = self.query();
        append_query(quote_url(), &pairs)
    }
}

impl SwapRequest {
    /// `self` asks for the transaction that carries out `quote` for the
    /// account `user`.
    pub open spec fn carries(self, quote: Json, user: AccountId, fee: u64) -> bool {
        &&& self.quote_response == quote
        &&& self.user_public_key@ == text_of_account(user.bytes@)
        &&& self.wrap_and_unwrap_sol
        &&& self.dynamic_compute_unit_limit
        &&& self.prioritization_fee_lamports == fee
    }

    /// `doc` is the body that `self` is sent as.
    pub open spec fn is_body(self, doc: Json) -> bool {
        &&& doc.names() == Some(
            seq![
                "quoteResponse"@,
                "userPublicKey"@,
                "wrapAndUnwrapSol"@,
                "dynamicComputeUnitLimit"@,
                "prioritizationFeeLamports"@,
            ],
        )
        &&& doc.value_at(0) == self.quote_response
        &&& doc.value_at(1) == Json::Str(self.user_public_key)
        &&& doc.value_at(2) == Json::Bool(self.wrap_and_unwrap_sol)
        &&& doc.value_at(3) == Json::Bool(self.dynamic_compute_unit_limit)
        &&& doc.value_at(4).is_numeral(digits_of(self.prioritization_fee_lamports as nat))
    }

    /// The body that the request is sent as.
    pub fn into_body(self) -> (r: Json)
        ensures
            self.is_body(r),
    {
        let mut members: Vec<(String, Json)> = Vec::new();
        members.push(("quoteResponse".to_owned(), self.quote_response));
        members.push(("userPublicKey".to_owned(), Json::Str(self.user_public_key)));
        members.push(("wrapAndUnwrapSol".to_owned(), Json::Bool(self.wrap_and_unwrap_sol)));
        members.push(
            ("dynamicComputeUnitLimit".to_owned(), Json::Bool(self.dynamic_compute_unit_limit)),
        );
        members.push(
            (
                "prioritizationFeeLamports".to_owned(),
                Json::Number(unsigned_text(self.prioritization_fee_lamports)),
            ),
        );
        let body = Json::Object(members);
        assert(body.names().unwrap() =~= seq![
            "quoteResponse"@,
            "userPublicKey"@,
            "wrapAndUnwrapSol"@,
            "dynamicComputeUnitLimit"@,
            "prioritizationFeeLamports"@,
        ]);
        body
    }

    /// The request for the transaction that carries out `quote` for the
    /// account `user`: the quote is passed on as it is, wrapping of native
    /// currency and a dynamic compute budget are switched on.
    pub fn new(quote: Json, user: &AccountId, prioritization_fee_lamports: u64) -> (r: SwapRequest)
        ensures
            r.carries(quote, *user, prioritization_fee_lamports),
    {
        SwapRequest {
            quote_response: quote,
            user_public_key: encode_account(user),
            wrap_and_unwrap_sol: true,
            dynamic_compute_unit_limit: true,
            prioritization_fee_lamports,
        }
    }
}

/// What an answer of the service amounts to once its body has been parsed.
pub open spec fn answer_spec(status: u16, body: String, parsed: Option<Json>) -> Result<
    Json,
    ServiceError,
> {
    if !is_success(status) {
        Err(ServiceError::Refused { body })
    } else {
        match parsed {
            Some(doc) => Ok(doc),
            None => Err(ServiceError::Unreadable),
        }
    }
}

/// Judges an answer whose body has been parsed: a status that does not
/// report success yields the body as the error, whatever it holds.
pub fn answer_from_parsed(status: u16, body: String, parsed: Option<Json>) -> (r: Result<
    Json,
    ServiceError,
>)
    ensures
        r == answer_spec(status, body, parsed),
{
    if status < 200 || status >= 300 {
        Err(ServiceError::Refused { body })
    } else {
        match parsed {
            Some(doc) => Ok(doc),
            None => Err(ServiceError::Unreadable),
        }
    }
}

/// Judges an answer of the service by its status and body.
pub fn read_answer(status: u16, body: String) -> (r: Result<Json, ServiceError>)
    ensures
        r == answer_spec(status, body, json_of_text(body@)),
{
    let parsed = parse_json(body.as_str());
    answer_from_parsed(status, body, parsed)
}

/// The transaction that an answer to a swap request holds.
pub open spec fn swap_transaction_of(doc: Json) -> Option<Seq<char>> {
    match doc.field("swapTransaction"@) {
        Some(Json::Str(s)) => Some(s@),
        _ => None,
    }
}

/// Reads the answer to a swap request.
pub fn read_swap_response(doc: &Json) -> (r: Result<SwapResponse, ServiceError>)
    ensures
        match r {
            Ok(resp) => swap_transaction_of(*doc) == Some(resp.swap_transaction@),
            Err(e) => swap_transaction_of(*doc) is None && e == ServiceError::Unreadable,
        },
{
    match doc.get("swapTransaction") {
        Some(v) => match v.as_str() {
            Some(s) => Ok(SwapResponse { swap_transaction: s.to_owned() }),
            None => Err(ServiceError::Unreadable),
        },
        None => Err(ServiceError::Unreadable),
    }
}

/// The amount that a quote names under `key`.
pub open spec fn quoted_amount(doc: Json, key: Seq<char>) -> Option<String> {
    match doc.field(key) {
        Some(Json::Str(s)) => Some(s),
        _ => None,
    }
}

/// Reads the amount that a quote names under `key`.
fn read_amount(doc: &Json, key: &str) -> (r: Option<String>)
    ensures
        r == quoted_amount(*doc, key@),
{
    match doc.get(key) {
        Some(Json::Str(s)) => Some(s.clone()),
        _ => None,
    }
}

/// Reads a quote: it must name the amount going in and the amount coming
/// out, each as a string; the document is kept whole.
pub fn read_quote_response(doc: Json) -> (r: Result<QuoteResponse, ServiceError>)
    ensures
        match (quoted_amount(doc, "inAmount"@), quoted_amount(doc, "outAmount"@)) {
            (Some(i), Some(o)) => r matches Ok(q) && q.in_amount == i && q.out_amount == o && q.extra
                == doc,
            _ => r matches Err(e) && e == ServiceError::Unreadable,
        },
{
    let in_amount = read_amount(&doc, "inAmount");
    let out_amount = read_amount(&doc, "outAmount");
    match (in_amount, out_amount) {
        (Some(i), Some(o)) => Ok(QuoteResponse { in_amount: i, out_amount: o, extra: doc }),
        _ => Err(ServiceError::Unreadable),
    }
}

} // verus!
