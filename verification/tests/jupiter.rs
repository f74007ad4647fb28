use ammalgram_assistant::account::AccountId;
use ammalgram_assistant::json::Json;
use ammalgram_assistant::jupiter::{
    answer_from_parsed, quote_url, read_answer, read_quote_response, read_swap_response, swap_url,
    QuoteRequest, QuoteResponse, ServiceError, SwapRequest, SwapResponse, SOL_MINT,
};

fn text(s: &str) -> Json {
    Json::Str(s.to_string())
}

fn member(name: &str, value: Json) -> (String, Json) {
    (name.to_string(), value)
}

fn request(input: &str, output: &str, amount: u64, slippage_bps: u16) -> QuoteRequest {
    QuoteRequest {
        input_mint: input.to_string(),
        output_mint: output.to_string(),
        amount,
        slippage_bps,
    }
}

#[test]
fn the_addresses_of_the_exchange() {
    assert_eq!(quote_url(), "https://quote-api.jup.ag/v6/quote");
    assert_eq!(swap_url(), "https://quote-api.jup.ag/v6/swap");
    assert_eq!(SOL_MINT, "So11111111111111111111111111111111111111112");
}

#[test]
fn a_quote_request_lists_its_parameters_in_order() {
    let pairs = request("in", "out", 50_000_000, 500).query();
    let expected: Vec<(String, String)> = [
        ("inputMint", "in"),
        ("outputMint", "out"),
        ("amount", "50000000"),
        ("slippageBps", "500"),
    ]
    .iter()
    .map(|(k, v)| (k.to_string(), v.to_string()))
    .collect();
    assert_eq!(pairs, expected);
}

#[test]
fn a_quote_request_makes_its_url() {
    assert_eq!(
        request("in", "out", 0, 0).url().as_deref(),
        Some("https://quote-api.jup.ag/v6/quote?inputMint=in&outputMint=out&amount=0&slippageBps=0")
    );
    assert_eq!(
        request("a b", "c&d=e", u64::MAX, u16::MAX).url().as_deref(),
        Some(
            "https://quote-api.jup.ag/v6/quote?inputMint=a+b&outputMint=c%26d%3De&amount=18446744073709551615&slippageBps=65535"
        )
    );
}

#[test]
fn an_answer_is_judged_by_its_status_first() {
    assert_eq!(read_answer(200, "{\"a\":1}".to_string()), Ok(Json::Object(vec![member("a", Json::Number("1".to_string()))])));
    assert_eq!(read_answer(299, "null".to_string()), Ok(Json::Null));
    assert_eq!(read_answer(200, "nope".to_string()), Err(ServiceError::Unreadable));
    assert_eq!(
        read_answer(400, "nope".to_string()),
        Err(ServiceError::Refused { body: "nope".to_string() })
    );
    assert_eq!(
        read_answer(199, "{}".to_string()),
        Err(ServiceError::Refused { body: "{}".to_string() })
    );
    assert_eq!(
        read_answer(300, "{}".to_string()),
        Err(ServiceError::Refused { body: "{}".to_string() })
    );
    assert_eq!(
        answer_from_parsed(500, "x".to_string(), Some(Json::Null)),
        Err(ServiceError::Refused { body: "x".to_string() })
    );
    assert_eq!(answer_from_parsed(204, "x".to_string(), Some(Json::Null)), Ok(Json::Null));
    assert_eq!(answer_from_parsed(204, "x".to_string(), None), Err(ServiceError::Unreadable));
}

#[test]
fn a_swap_answer_holds_the_transaction() {
    let doc = Json::Object(vec![member("other", Json::Null), member("swapTransaction", text("AAEC"))]);
    assert_eq!(read_swap_response(&doc), Ok(SwapResponse { swap_transaction: "AAEC".to_string() }));
    assert_eq!(read_swap_response(&Json::Object(vec![])), Err(ServiceError::Unreadable));
    assert_eq!(
        read_swap_response(&Json::Object(vec![member("swapTransaction", Json::Null)])),
        Err(ServiceError::Unreadable)
    );
    assert_eq!(read_swap_response(&text("AAEC")), Err(ServiceError::Unreadable));
}

#[test]
fn a_quote_names_both_amounts() {
    let doc = || {
        Json::Object(vec![
            member("inAmount", text("50000000")),
            member("routePlan", Json::Array(vec![])),
            member("outAmount", text("123")),
        ])
    };
    assert_eq!(
        read_quote_response(doc()),
        Ok(QuoteResponse {
            in_amount: "50000000".to_string(),
            out_amount: "123".to_string(),
            extra: doc(),
        })
    );
    assert_eq!(
        read_quote_response(Json::Object(vec![member("inAmount", text("5"))])),
        Err(ServiceError::Unreadable)
    );
    assert_eq!(
        read_quote_response(Json::Object(vec![
            member("inAmount", text("5")),
            member("outAmount", Json::Number("7".to_string()))
        ])),
        Err(ServiceError::Unreadable)
    );
    assert_eq!(read_quote_response(Json::Null), Err(ServiceError::Unreadable));
}

#[test]
fn a_swap_request_carries_the_quote_and_the_operator() {
    let user = AccountId::parse("EPjFWdd5AufqSSqeM2qN1xzybapC8G4wEGGkZwyTDt1v").unwrap();
    let quote = || Json::Object(vec![member("inAmount", text("5")), member("route", Json::Array(vec![]))]);
    let request = SwapRequest::new(quote(), &user, 0);
    assert_eq!(
        request,
        SwapRequest {
            quote_response: quote(),
            user_public_key: "EPjFWdd5AufqSSqeM2qN1xzybapC8G4wEGGkZwyTDt1v".to_string(),
            wrap_and_unwrap_sol: true,
            dynamic_compute_unit_limit: true,
            prioritization_fee_lamports: 0,
        }
    );
    assert_eq!(
        SwapRequest::new(quote(), &user, 12_345).into_body(),
        Json::Object(vec![
            member("quoteResponse", quote()),
            member("userPublicKey", text("EPjFWdd5AufqSSqeM2qN1xzybapC8G4wEGGkZwyTDt1v")),
            member("wrapAndUnwrapSol", Json::Bool(true)),
            member("dynamicComputeUnitLimit", Json::Bool(true)),
            member("prioritizationFeeLamports", Json::Number("12345".to_string())),
        ])
    );
}
