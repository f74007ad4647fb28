use vstd::prelude::*;
use crate::decimal::Amount;
use crate::account::{encode_account, text_of_account, AccountId};
use crate::amount::{lamports_of, sol_to_lamports, AmountError};
use crate::json::json_of_text;
use crate::jupiter::{
    answer_spec, quote_address, quote_query, read_answer, read_swap_response, swap_transaction_of,
    url_with_query, QuoteRequest, ServiceError, SwapRequest, SOL_MINT,
};
use crate::transaction::{
    all_hold, decode_swap, decode_swap_spec, message_under, refresh_and_sign,
    refresh_and_sign_spec, wire_blockhash, wire_verifications, TransactionError,
};
use crate::wallet::Wallet;

verus! {

/// Why a purchase was abandoned.
#[derive(Debug, Clone, PartialEq, Eq)]
pub enum ExecutionError {
    /// The amount to spend lies outside the safe range.
    Amount(AmountError),
    /// No address could be formed for the quote.
    QuoteAddress,
    /// The request for a quote could not be carried out.
    QuoteUnreachable { reason: String },
    /// The exchange gave no quote.
    Quote(ServiceError),
    /// The request for a swap transaction could not be carried out.
    SwapUnreachable { reason: String },
    /// The exchange gave no swap transaction.
    Swap(ServiceError),
    /// The swap transaction could not be made ready for submission.
    Transaction(TransactionError),
    /// The network gave no recent block reference.
    BlockhashUnavailable { reason: String },
    /// The network did not accept the transaction.
    SubmissionFailed { reason: String },
    /// A reply came that had not been asked for.
    OutOfTurn,
}

/// What came back from the step that was asked for last.
#[derive(Debug, Clone, PartialEq, Eq)]
pub enum Reply {
    /// The exchange answered over HTTP.
    Answer { status: u16, body: String },
    /// The step could not be carried out.
    Failed { reason: String },
    /// The network's most recent block reference.
    Blockhash { hash: [u8; 32] },
    /// The network accepted the transaction under this signature.
    Accepted { signature: String },
}

/// How far a purchase has come.
#[derive(Debug, Clone, PartialEq, Eq)]
pub enum Stage {
    AwaitingQuote,
    AwaitingSwap,
    /// The swap transaction is decoded and waits for a block reference.
    AwaitingBlockhash { wire: Vec<u8> },
    AwaitingAcceptance,
    Finished,
}

/// What is to be done next for a purchase.
#[derive(Debug, PartialEq, Eq)]
pub enum Action {
    /// Fetch the quote at `url`.
    FetchQuote { url: String },
    /// Send `request` to the address for swap transactions.
    BuildSwap { request: SwapRequest },
    /// Ask the network for its most recent block reference.
    FetchBlockhash,
    /// Submit the encoded transaction to the network.
    Submit { wire: Vec<u8> },
    /// Nothing more: the purchase ended with the signature under which the
    /// network accepted it, or was abandoned.
    Finish { outcome: Result<String, ExecutionError> },
}

/// The purchase is abandoned for `error`.
pub open spec fn abandoned(next: Stage, action: Action, error: ExecutionError) -> bool {
    next == Stage::Finished && action == (Action::Finish { outcome: Err(error) })
}

/// How a purchase of `output_mint` for `max_input_sol` of native
/// currency begins: with a quote for that amount in smallest units,
/// unless the amount lies outside the safe range.
pub open spec fn start_spec(
    output_mint: AccountId,
    max_input_sol: Amount,
    slippage_bps: u16,
    next: Stage,
    action: Action,
) -> bool {
    match lamports_of(max_input_sol) {
        Err(e) => abandoned(next, action, ExecutionError::Amount(e)),
        Ok(lamports) => match url_with_query(
            quote_address(),
            quote_query(SOL_MINT@, text_of_account(output_mint.bytes@), lamports, slippage_bps),
        ) {
            None => abandoned(next, action, ExecutionError::QuoteAddress),
            Some(address) => {
                &&& next == Stage::AwaitingQuote
                &&& action matches Action::FetchQuote { url }
                &&& url@ == address
            },
        },
    }
}

/// Begins a purchase.
pub fn start(output_mint: &AccountId, max_input_sol: Amount, slippage_bps: u16) -> (r: (Stage, Action))
    ensures
        start_spec(*output_mint, max_input_sol, slippage_bps, r.0, r.1),
{
    let lamports = match sol_to_lamports(max_input_sol) {
        Ok(l) => l,
        Err(e) => {
            return (Stage::Finished, Action::Finish { outcome: Err(ExecutionError::Amount(e)) });
        },
    };
    let request = QuoteRequest {
        input_mint: SOL_MINT.to_owned(),
        output_mint: encode_account(output_mint),
        amount: lamports,
        slippage_bps,
    };
    match request.url() {
        Some(url) => (Stage::AwaitingQuote, Action::FetchQuote { url }),
        None => (Stage::Finished, Action::Finish { outcome: Err(ExecutionError::QuoteAddress) }),
    }
}

/// How a purchase goes on when `reply` comes in at `stage`.
///
/// Each step that fails abandons the purchase; the transaction that was
/// decoded is submitted once it is signed with the key pair `key` and
/// carries the block reference that was fetched for it.
pub open spec fn advance_spec(
    stage: Stage,
    reply: Reply,
    operator: AccountId,
    fee: u64,
    key: Seq<u8>,
    next: Stage,
    action: Action,
) -> bool {
    match (stage, reply) {
        (Stage::AwaitingQuote, Reply::Answer { status, body }) => match answer_spec(
            status,
            body,
            json_of_text(body@),
        ) {
            Err(e) => abandoned(next, action, ExecutionError::Quote(e)),
            Ok(quote) => {
                &&& next == Stage::AwaitingSwap
                &&& action matches Action::BuildSwap { request }
                &&& request.carries(quote, operator, fee)
            },
        },
        (Stage::AwaitingQuote, Reply::Failed { reason }) => abandoned(
            next,
            action,
            ExecutionError::QuoteUnreachable { reason },
        ),
        (Stage::AwaitingSwap, Reply::Answer { status, body }) => match answer_spec(
            status,
            body,
            json_of_text(body@),
        ) {
            Err(e) => abandoned(next, action, ExecutionError::Swap(e)),
            Ok(doc) => match swap_transaction_of(doc) {
                None => abandoned(next, action, ExecutionError::Swap(ServiceError::Unreadable)),
                Some(text) => match decode_swap_spec(text) {
                    Err(e) => abandoned(next, action, ExecutionError::Transaction(e)),
                    Ok(bytes) => {
                        &&& action == Action::FetchBlockhash
                        &&& next matches Stage::AwaitingBlockhash { wire }
                        &&& wire@ == bytes
                    },
                },
            },
        },
        (Stage::AwaitingSwap, Reply::Failed { reason }) => abandoned(
            next,
            action,
            ExecutionError::SwapUnreachable { reason },
        ),
        (Stage::AwaitingBlockhash { wire }, Reply::Blockhash { hash }) => match refresh_and_sign_spec(
            wire@,
            hash@,
            key,
        ) {
            Err(e) => abandoned(next, action, ExecutionError::Transaction(e)),
            Ok(signed) => {
                &&& next == Stage::AwaitingAcceptance
                &&& action matches Action::Submit { wire: sent }
                &&& sent@ == signed
            },
        },
        (Stage::AwaitingBlockhash { wire }, Reply::Failed { reason }) => abandoned(
            next,
            action,
            ExecutionError::BlockhashUnavailable { reason },
        ),
        (Stage::AwaitingAcceptance, Reply::Accepted { signature }) => next == Stage::Finished
            && action == (Action::Finish { outcome: Ok(signature) }),
        (Stage::AwaitingAcceptance, Reply::Failed { reason }) => abandoned(
            next,
            action,
            ExecutionError::SubmissionFailed { reason },
        ),
        _ => abandoned(next, action, ExecutionError::OutOfTurn),
    }
}

/// Abandons a purchase.
fn abandon(error: ExecutionError) -> (r: (Stage, Action))
    ensures
        abandoned(r.0, r.1, error),
{
    (Stage::Finished, Action::Finish { outcome: Err(error) })
}

/// Takes a purchase one step further with the reply to its last action.
pub fn advance(stage: Stage, reply: Reply, operator: &AccountId, fee: u64, wallet: &Wallet) -> (r: (
    Stage,
    Action,
))
    ensures
        advance_spec(stage, reply, *operator, fee, wallet.key(), r.0, r.1),
{
    match (stage, reply) {
        (Stage::AwaitingQuote, Reply::Answer { status, body }) => match read_answer(status, body) {
            Err(e) => abandon(ExecutionError::Quote(e)),
            Ok(quote) => (
                Stage::AwaitingSwap,
                Action::BuildSwap { request: SwapRequest::new(quote, operator, fee) },
            ),
        },
        (Stage::AwaitingQuote, Reply::Failed { reason }) => abandon(
            ExecutionError::QuoteUnreachable { reason },
        ),
        (Stage::AwaitingSwap, Reply::Answer { status, body }) => match read_answer(status, body) {
            Err(e) => abandon(ExecutionError::Swap(e)),
            Ok(doc) => match read_swap_response(&doc) {
                Err(e) => abandon(ExecutionError::Swap(e)),
                Ok(response) => match decode_swap(response.swap_transaction.as_str()) {
                    Err(e) => abandon(ExecutionError::Transaction(e)),
                    Ok(wire) => (Stage::AwaitingBlockhash { wire }, Action::FetchBlockhash),
                },
            },
        },
        (Stage::AwaitingSwap, Reply::Failed { reason }) => abandon(
            ExecutionError::SwapUnreachable { reason },
        ),
        (Stage::AwaitingBlockhash { wire }, Reply::Blockhash { hash }) => match refresh_and_sign(
            wire.as_slice(),
            &hash,
            wallet,
        ) {
            Ok(signed) => (Stage::AwaitingAcceptance, Action::Submit { wire: signed }),
            Err(e) => abandon(ExecutionError::Transaction(e)),
        },
        (Stage::AwaitingBlockhash { wire }, Reply::Failed { reason }) => abandon(
            ExecutionError::BlockhashUnavailable { reason },
        ),
        (Stage::AwaitingAcceptance, Reply::Accepted { signature }) => (
            Stage::Finished,
            Action::Finish { outcome: Ok(signature) },
        ),
        (Stage::AwaitingAcceptance, Reply::Failed { reason }) => abandon(
            ExecutionError::SubmissionFailed { reason },
        ),
        _ => abandon(ExecutionError::OutOfTurn),
    }
}

/// A transaction is submitted only in answer to a block reference that
/// was fetched for it. It then carries that block reference, never the one
/// that the exchange put in; the rest of its message is the one that was
/// decoded; and its signatures hold.
pub proof fn lemma_submission_is_fresh(
    stage: Stage,
    reply: Reply,
    operator: AccountId,
    fee: u64,
    key: Seq<u8>,
    next: Stage,
    action: Action,
)
    requires
        advance_spec(stage, reply, operator, fee, key, next, action),
        action is Submit,
    ensures
        stage is AwaitingBlockhash,
        reply is Blockhash,
        wire_blockhash(action->wire@) == Some(reply->hash@),
        message_under(action->wire@, reply->hash@) == message_under(
            stage->AwaitingBlockhash_wire@,
            reply->hash@,
        ),
        wire_verifications(action->wire@) matches Some(a) && all_hold(a),
{
}

/// A quote that the exchange refuses ends the purchase with what the
/// exchange sent; no swap transaction is asked for and none is submitted.
pub proof fn lemma_refused_quote_abandons(
    status: u16,
    body: String,
    operator: AccountId,
    fee: u64,
    key: Seq<u8>,
    next: Stage,
    action: Action,
)
    requires
        !(200 <= status < 300),
        advance_spec(Stage::AwaitingQuote, Reply::Answer { status, body }, operator, fee, key, next, action),
    ensures
        abandoned(next, action, ExecutionError::Quote(ServiceError::Refused { body })),
{
}

/// Once a purchase has ended, no reply sets it going again.
pub proof fn lemma_finished_stays_finished(
    reply: Reply,
    operator: AccountId,
    fee: u64,
    key: Seq<u8>,
    next: Stage,
    action: Action,
)
    requires
        advance_spec(Stage::Finished, reply, operator, fee, key, next, action),
    ensures
        next == Stage::Finished,
        action is Finish,
{
}

/// A step that abandons a purchase asks for nothing further.
pub proof fn lemma_abandoned_is_final(next: Stage, action: Action, error: ExecutionError)
    requires
        abandoned(next, action, error),
    ensures
        next == Stage::Finished,
        !(action is BuildSwap),
        !(action is Submit),
{
}

/// Where the block reference comes in and the transaction that waits for
/// it reads back sound once refreshed and signed, the purchase goes on to
/// submission.
pub proof fn lemma_sound_transaction_is_submitted(
    wire: Vec<u8>,
    hash: [u8; 32],
    operator: AccountId,
    fee: u64,
    key: Seq<u8>,
    next: Stage,
    action: Action,
)
    requires
        advance_spec(
            Stage::AwaitingBlockhash { wire },
            Reply::Blockhash { hash },
            operator,
            fee,
            key,
            next,
            action,
        ),
        refresh_and_sign_spec(wire@, hash@, key) is Ok,
    ensures
        next == Stage::AwaitingAcceptance,
        action is Submit,
{
}

} // verus!
