use vstd::prelude::*;
use crate::account::AccountId;
use crate::decimal::Amount;
use crate::events::MirrorIntent;
use crate::execution::{start, start_spec, Action, Stage};
use crate::intent::{infer_intent_from_tx, infer_spec, InferError};
use crate::json::Json;
use crate::text::str_eq;

verus! {

/// The state of the trader that mirrors the purchases of a target account.
#[derive(Debug, Clone, PartialEq, Eq)]
pub struct CopyTrader {
    /// Signature of the last transaction that was looked at, if any.
    pub last_seen_signature: Option<String>,
    /// Tolerated price movement, in basis points.
    pub slippage_bps: u16,
    /// Amount of native currency to spend on one purchase.
    pub max_buy_sol: Amount,
    /// Recorded as configured; no decision depends on it.
    pub mirror_buys_only: bool,
}

/// What the trader does about one event of the feed.
#[derive(Debug, PartialEq, Eq)]
pub enum Decision {
    /// The event repeats the signature of the event before it: skipped.
    Duplicate,
    /// No intent could be inferred; the event is dropped.
    InferFailed(InferError),
    /// The event suggests no trade.
    NoIntent,
    /// The target sold; sales are not mirrored.
    SellIgnored,
    /// The target bought `output_mint`: a purchase begins with `action`.
    Buy { output_mint: AccountId, stage: Stage, action: Action },
}

/// The signature of the transaction that an event reports, if it names one.
pub open spec fn signature_of(msg: Json) -> Option<Seq<char>> {
    match msg.field("params"@) {
        Some(params) => match params.field("result"@) {
            Some(result) => match result.field("signature"@) {
                Some(Json::Str(s)) => Some(s@),
                _ => None,
            },
            None => None,
        },
        None => None,
    }
}

/// An event repeats the last signature seen. An event without a signature
/// never does.
pub open spec fn is_repeat(last: Option<Seq<char>>, signature: Option<Seq<char>>) -> bool {
    signature is Some && last == signature
}

/// The last signature seen once an event with `signature` has come by.
pub open spec fn remembered(last: Option<Seq<char>>, signature: Option<Seq<char>>) -> Option<
    Seq<char>,
> {
    if signature is Some {
        signature
    } else {
        last
    }
}

/// What is decided about an event that is no repeat, from what inference
/// made of it: a purchase begins for every buy, whatever else is set.
pub open spec fn decision_spec(
    inferred: Result<Option<MirrorIntent>, InferError>,
    slippage_bps: u16,
    decision: Decision,
) -> bool {
    match inferred {
        Err(e) => decision == Decision::InferFailed(e),
        Ok(None) => decision == Decision::NoIntent,
        Ok(Some(MirrorIntent::Sell { .. })) => decision == Decision::SellIgnored,
        Ok(Some(MirrorIntent::Buy { output_mint, max_input_sol })) => {
            &&& decision matches Decision::Buy { output_mint: mint, stage, action }
            &&& mint == output_mint
            &&& start_spec(output_mint, max_input_sol, slippage_bps, stage, action)
        },
    }
}

/// Reads the signature of the transaction that an event reports.
pub fn event_signature(msg: &Json) -> (r: Option<&str>)
    ensures
        match r {
            Some(s) => signature_of(*msg) == Some(s@),
            None => signature_of(*msg) is None,
        },
{
    let params = match msg.get("params") {
        Some(p) => p,
        None => {
            return None;
        },
    };
    let result = match params.get("result") {
        Some(r) => r,
        None => {
            return None;
        },
    };
    match result.get("signature") {
        Some(s) => s.as_str(),
        None => None,
    }
}

/// Decides about an event from what inference made of it.
pub fn decide(inferred: Result<Option<MirrorIntent>, InferError>, slippage_bps: u16) -> (r: Decision)
    ensures
        decision_spec(inferred, slippage_bps, r),
{
    match inferred {
        Err(e) => Decision::InferFailed(e),
        Ok(None) => Decision::NoIntent,
        Ok(Some(MirrorIntent::Sell { .. })) => Decision::SellIgnored,
        Ok(Some(MirrorIntent::Buy { output_mint, max_input_sol })) => {
            let (stage, action) = start(&output_mint, max_input_sol, slippage_bps);
            Decision::Buy { output_mint, stage, action }
        },
    }
}

impl CopyTrader {
    /// The last signature seen, as text.
    pub open spec fn last_seen(self) -> Option<Seq<char>> {
        match self.last_seen_signature {
            Some(s) => Some(s@),
            None => None,
        }
    }

    /// A trader that has seen no event yet.
    pub fn new(slippage_bps: u16, max_buy_sol: Amount, mirror_buys_only: bool) -> (r: CopyTrader)
        ensures
            r.last_seen() is None,
            r.slippage_bps == slippage_bps,
            r.max_buy_sol == max_buy_sol,
            r.mirror_buys_only == mirror_buys_only,
    {
        CopyTrader { last_seen_signature: None, slippage_bps, max_buy_sol, mirror_buys_only }
    }

    /// Takes in one event of the feed.
    ///
    /// An event that repeats the last signature seen is skipped before
    /// anything is inferred from it. Any other event is remembered by its
    /// signature, if it has one, and decided upon.
    pub fn on_event(&mut self, msg: &Json) -> (r: Decision)
        ensures
            final(self).last_seen() == remembered(old(self).last_seen(), signature_of(*msg)),
            final(self).slippage_bps == old(self).slippage_bps,
            final(self).max_buy_sol == old(self).max_buy_sol,
            final(self).mirror_buys_only == old(self).mirror_buys_only,
            is_repeat(old(self).last_seen(), signature_of(*msg)) ==> r == Decision::Duplicate,
            !is_repeat(old(self).last_seen(), signature_of(*msg)) ==> decision_spec(
                infer_spec(*msg, old(self).max_buy_sol),
                old(self).slippage_bps,
                r,
            ),
    {
        match event_signature(msg) {
            Some(signature) => {
                let repeat = match &self.last_seen_signature {
                    Some(last) => str_eq(last.as_str(), signature),
                    None => false,
                };
                if repeat {
                    return Decision::Duplicate;
                }
                self.last_seen_signature = Some(signature.to_owned());
            },
            None => {},
        }
        decide(infer_intent_from_tx(msg, self.max_buy_sol), self.slippage_bps)
    }
}

/// Of two events in a row that report the same signature, the second is a
/// repeat, whatever had been seen before the first and whatever else the
/// two events hold.
pub proof fn lemma_second_occurrence_is_repeat(
    last: Option<Seq<char>>,
    first: Json,
    second: Json,
)
    requires
        signature_of(first) is Some,
        signature_of(second) == signature_of(first),
    ensures
        is_repeat(remembered(last, signature_of(first)), signature_of(second)),
{
}

/// A repeat leaves the last signature seen as it was.
pub proof fn lemma_repeat_changes_nothing(last: Option<Seq<char>>, signature: Option<Seq<char>>)
    requires
        is_repeat(last, signature),
    ensures
        remembered(last, signature) == last,
{
}

} // verus!
