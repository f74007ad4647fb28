use vstd::prelude::*;
use crate::account::{account_of_text, decode_account, AccountId, ParseAccountError};
use crate::decimal::{amount_of, parse_amount, pow10, Amount};
use crate::events::MirrorIntent;
use crate::json::Json;
use crate::magnitude::{gap_sign, Sign};
use crate::text::{chars_of, str_eq};

verus! {

/// Power of ten that the dust threshold is, in units: a ten-millionth of a
/// token.
pub const DUST_SHIFT: u16 = 393;

/// Smallest balance change that counts, in units: changes must exceed it.
pub open spec fn dust() -> int {
    pow10(DUST_SHIFT as nat) as int
}

/// The dust threshold as an amount.
pub fn dust_amount() -> (r: Amount)
    ensures
        r.units() == dust(),
{
    proof {
        assert(1 * pow10(DUST_SHIFT as nat) == pow10(DUST_SHIFT as nat)) by (nonlinear_arith);
    }
    Amount { negative: false, mantissa: 1, shift: DUST_SHIFT }
}

/// The balance of one token type.
#[derive(Debug, Clone, PartialEq, Eq)]
pub struct TokenBalance {
    pub mint: String,
    pub ui_amount: Amount,
}

/// The balances a list of entries reports, by token type and in units;
/// where a token type occurs more than once, its last entry counts.
pub open spec fn snapshot(entries: Seq<TokenBalance>) -> Map<Seq<char>, int>
    decreases entries.len(),
{
    if entries.len() == 0 {
        Map::empty()
    } else {
        snapshot(entries.drop_last()).insert(entries.last().mint@, entries.last().ui_amount.units())
    }
}

/// Change of the balance of `mint` from `pre` to `post`; a token type that
/// `pre` does not list counts as zero there.
pub open spec fn delta(pre: Map<Seq<char>, int>, post: Map<Seq<char>, int>, mint: Seq<char>) -> int {
    post[mint] - (if pre.dom().contains(mint) {
        pre[mint]
    } else {
        0
    })
}

/// `mint` is listed after the transaction and its balance rose by more than
/// the dust threshold.
pub open spec fn is_candidate(
    pre: Map<Seq<char>, int>,
    post: Map<Seq<char>, int>,
    mint: Seq<char>,
) -> bool {
    post.dom().contains(mint) && delta(pre, post, mint) > dust()
}

/// Dictionary order of two texts by their characters.
pub open spec fn lex_le(a: Seq<char>, b: Seq<char>) -> bool
    decreases a.len(),
{
    if a.len() == 0 {
        true
    } else if b.len() == 0 {
        false
    } else if a[0] != b[0] {
        a[0] < b[0]
    } else {
        lex_le(a.drop_first(), b.drop_first())
    }
}

/// `mint` is to be preferred to `other`: its balance rose by more, or by as
/// much while its text comes first in dictionary order.
pub open spec fn beats(
    pre: Map<Seq<char>, int>,
    post: Map<Seq<char>, int>,
    mint: Seq<char>,
    other: Seq<char>,
) -> bool {
    delta(pre, post, mint) > delta(pre, post, other) || (delta(pre, post, mint) == delta(
        pre,
        post,
        other,
    ) && lex_le(mint, other))
}

/// `mint` is a candidate that is preferred to every candidate.
pub open spec fn is_winner(
    pre: Map<Seq<char>, int>,
    post: Map<Seq<char>, int>,
    mint: Seq<char>,
) -> bool {
    is_candidate(pre, post, mint) && forall|other: Seq<char>| #[trigger]
        is_candidate(pre, post, other) ==> beats(pre, post, mint, other)
}

/// The token type whose purchase the balances suggest, if any.
pub open spec fn best_mint(pre: Map<Seq<char>, int>, post: Map<Seq<char>, int>) -> Option<
    Seq<char>,
> {
    if exists|m: Seq<char>| is_winner(pre, post, m) {
        Some(choose|m: Seq<char>| is_winner(pre, post, m))
    } else {
        None
    }
}

/// Dictionary order is total.
pub proof fn lemma_lex_total(a: Seq<char>, b: Seq<char>)
    ensures
        lex_le(a, b) || lex_le(b, a),
    decreases a.len(),
{
    if a.len() > 0 && b.len() > 0 && a[0] == b[0] {
        lemma_lex_total(a.drop_first(), b.drop_first());
    }
}

/// Dictionary order is transitive.
pub proof fn lemma_lex_transitive(a: Seq<char>, b: Seq<char>, c: Seq<char>)
    requires
        lex_le(a, b),
        lex_le(b, c),
    ensures
        lex_le(a, c),
    decreases a.len(),
{
    if a.len() > 0 && b.len() > 0 && c.len() > 0 && a[0] == b[0] && b[0] == c[0] {
        lemma_lex_transitive(a.drop_first(), b.drop_first(), c.drop_first());
    }
}

/// Two texts that precede each other in dictionary order are the same text.
pub proof fn lemma_lex_antisymmetric(a: Seq<char>, b: Seq<char>)
    requires
        lex_le(a, b),
        lex_le(b, a),
    ensures
        a == b,
    decreases a.len(),
{
    if a.len() == 0 || b.len() == 0 {
        assert(a =~= b);
    } else {
        lemma_lex_antisymmetric(a.drop_first(), b.drop_first());
        assert(a =~= seq![a[0]] + a.drop_first());
        assert(b =~= seq![b[0]] + b.drop_first());
    }
}

/// At most one token type wins.
pub proof fn lemma_winner_unique(
    pre: Map<Seq<char>, int>,
    post: Map<Seq<char>, int>,
    a: Seq<char>,
    b: Seq<char>,
)
    requires
        is_winner(pre, post, a),
        is_winner(pre, post, b),
    ensures
        a == b,
{
    assert(beats(pre, post, a, b));
    assert(beats(pre, post, b, a));
    lemma_lex_antisymmetric(a, b);
}

/// A snapshot lists exactly the token types of its entries.
pub proof fn lemma_snapshot_dom(entries: Seq<TokenBalance>, mint: Seq<char>)
    ensures
        snapshot(entries).dom().contains(mint) <==> exists|j: int|
            0 <= j < entries.len() && #[trigger] entries[j].mint@ == mint,
    decreases entries.len(),
{
    if entries.len() > 0 {
        let front = entries.drop_last();
        lemma_snapshot_dom(front, mint);
        if snapshot(entries).dom().contains(mint) {
            if entries.last().mint@ == mint {
                assert(entries[entries.len() - 1].mint@ == mint);
            } else {
                let j = choose|j: int| 0 <= j < front.len() && #[trigger] front[j].mint@ == mint;
                assert(entries[j].mint@ == mint);
            }
        }
        if exists|j: int| 0 <= j < entries.len() && #[trigger] entries[j].mint@ == mint {
            let j = choose|j: int| 0 <= j < entries.len() && #[trigger] entries[j].mint@ == mint;
            if j < front.len() {
                assert(front[j].mint@ == mint);
            }
        }
    }
}

/// The balance that `entries` report for `mint`.
pub fn lookup(entries: &Vec<TokenBalance>, mint: &str) -> (r: Option<Amount>)
    ensures
        match r {
            Some(a) => snapshot(entries@).dom().contains(mint@) && snapshot(entries@)[mint@]
                == a.units(),
            None => !snapshot(entries@).dom().contains(mint@),
        },
{
    let mut j: usize = entries.len();
    proof {
        assert(entries@.take(j as int) =~= entries@);
    }
    while j > 0
        invariant
            j <= entries.len(),
            snapshot(entries@).dom().contains(mint@) == snapshot(entries@.take(j as int)).dom().contains(
                mint@,
            ),
            snapshot(entries@).dom().contains(mint@) ==> snapshot(entries@)[mint@] == snapshot(
                entries@.take(j as int),
            )[mint@],
        decreases j,
    {
        j -= 1;
        proof {
            assert(entries@.take(j + 1).drop_last() =~= entries@.take(j as int));
            assert(entries@.take(j + 1).last() == entries@[j as int]);
        }
        if str_eq(entries[j].mint.as_str(), mint) {
            return Some(entries[j].ui_amount);
        }
    }
    None
}

/// Whether `a` comes before `b` in dictionary order, or equals it.
pub fn lex_le_exec(a: &str, b: &str) -> (r: bool)
    ensures
        r == lex_le(a@, b@),
{
    let x = chars_of(a);
    let y = chars_of(b);
    let mut i: usize = 0;
    proof {
        assert(x@.skip(0) =~= x@);
        assert(y@.skip(0) =~= y@);
    }
    while i < x.len() && i < y.len() && x[i] == y[i]
        invariant
            i <= x.len(),
            i <= y.len(),
            x@ == a@,
            y@ == b@,
            lex_le(a@, b@) == lex_le(x@.skip(i as int), y@.skip(i as int)),
        decreases x.len() - i,
    {
        proof {
            assert(x@.skip(i as int).drop_first() =~= x@.skip(i + 1));
            assert(y@.skip(i as int).drop_first() =~= y@.skip(i + 1));
        }
        i += 1;
    }
    if i >= x.len() {
        true
    } else if i >= y.len() {
        false
    } else {
        x[i] < y[i]
    }
}

/// Preference among token types carries over.
pub proof fn lemma_beats_transitive(
    pre: Map<Seq<char>, int>,
    post: Map<Seq<char>, int>,
    a: Seq<char>,
    b: Seq<char>,
    c: Seq<char>,
)
    requires
        beats(pre, post, a, b),
        beats(pre, post, b, c),
    ensures
        beats(pre, post, a, c),
{
    if delta(pre, post, a) == delta(pre, post, b) && delta(pre, post, b) == delta(pre, post, c) {
        lemma_lex_transitive(a, b, c);
    }
}

/// Among the first `n` of the token types `mints`, where one of them is a
/// candidate, one is a candidate that is preferred to all of them.
pub proof fn lemma_leader(p: Map<Seq<char>, int>, q: Map<Seq<char>, int>, mints: Seq<Seq<char>>, n: int) -> (b:
    int)
    requires
        0 <= n <= mints.len(),
        exists|j: int| 0 <= j < n && is_candidate(p, q, #[trigger] mints[j]),
    ensures
        0 <= b < n,
        is_candidate(p, q, mints[b]),
        forall|j: int| 0 <= j < n && is_candidate(p, q, #[trigger] mints[j]) ==> beats(p, q, mints[b], mints[j]),
    decreases n,
{
    let last = mints[n - 1];
    lemma_lex_total(last, last);
    if exists|j: int| 0 <= j < n - 1 && is_candidate(p, q, #[trigger] mints[j]) {
        let b0 = lemma_leader(p, q, mints, n - 1);
        let lead = mints[b0];
        if is_candidate(p, q, last) && beats(p, q, last, lead) {
            assert forall|j: int| 0 <= j < n && is_candidate(p, q, #[trigger] mints[j]) implies beats(
                p,
                q,
                last,
                mints[j],
            ) by {
                if j < n - 1 {
                    lemma_beats_transitive(p, q, last, lead, mints[j]);
                }
            }
            n - 1
        } else {
            lemma_lex_total(last, lead);
            b0
        }
    } else {
        n - 1
    }
}

/// Where the token types listed after the transaction all occur in the
/// list `mints`, and one token type is a candidate, one token type wins.
pub proof fn lemma_candidate_has_winner(
    p: Map<Seq<char>, int>,
    q: Map<Seq<char>, int>,
    mints: Seq<Seq<char>>,
    mint: Seq<char>,
)
    requires
        forall|m: Seq<char>| #[trigger]
            q.dom().contains(m) ==> exists|j: int| 0 <= j < mints.len() && #[trigger] mints[j] == m,
        is_candidate(p, q, mint),
    ensures
        best_mint(p, q) is Some,
        is_winner(p, q, best_mint(p, q).unwrap()),
{
    assert(q.dom().contains(mint));
    let at = choose|j: int| 0 <= j < mints.len() && #[trigger] mints[j] == mint;
    assert(is_candidate(p, q, mints[at]));
    let b = lemma_leader(p, q, mints, mints.len() as int);
    let w = mints[b];
    assert forall|m: Seq<char>| #[trigger] is_candidate(p, q, m) implies beats(p, q, w, m) by {
        assert(q.dom().contains(m));
        let j = choose|j: int| 0 <= j < mints.len() && #[trigger] mints[j] == m;
        assert(is_candidate(p, q, mints[j]));
    }
    assert(is_winner(p, q, w));
}

/// Whenever some token type is a candidate among the balances that two
/// lists of entries report, one token type wins.
pub proof fn lemma_candidate_is_answered(pre: Seq<TokenBalance>, post: Seq<TokenBalance>, mint: Seq<char>)
    requires
        is_candidate(snapshot(pre), snapshot(post), mint),
    ensures
        best_mint(snapshot(pre), snapshot(post)) is Some,
        is_winner(snapshot(pre), snapshot(post), best_mint(snapshot(pre), snapshot(post)).unwrap()),
{
    let mints = Seq::new(post.len(), |j: int| post[j].mint@);
    assert forall|m: Seq<char>| #[trigger] snapshot(post).dom().contains(m) implies exists|j: int|
        0 <= j < mints.len() && #[trigger] mints[j] == m by {
        lemma_snapshot_dom(post, m);
        let j = choose|j: int| 0 <= j < post.len() && #[trigger] post[j].mint@ == m;
        assert(mints[j] == m);
    }
    lemma_candidate_has_winner(snapshot(pre), snapshot(post), mints, mint);
}

/// Picks, among the entries of `post`, one for the token type whose
/// purchase the balances suggest.
pub fn select_mint(pre: &Vec<TokenBalance>, post: &Vec<TokenBalance>) -> (r: Option<usize>)
    ensures
        match r {
            Some(i) => i < post.len() && best_mint(snapshot(pre@), snapshot(post@)) == Some(
                post[i as int].mint@,
            ),
            None => best_mint(snapshot(pre@), snapshot(post@)) is None,
        },
        r is None <==> forall|m: Seq<char>| !is_candidate(snapshot(pre@), snapshot(post@), m),
{
    let ghost p = snapshot(pre@);
    let ghost q = snapshot(post@);
    let zero = Amount::zero();
    let threshold = dust_amount();
    let mut best: Option<(usize, Amount, Amount)> = None;
    let mut i: usize = 0;
    while i < post.len()
        invariant
            i <= post.len(),
            p == snapshot(pre@),
            q == snapshot(post@),
            zero.units() == 0,
            threshold.units() == dust(),
            match best {
                None => forall|j: int| 0 <= j < i ==> !is_candidate(p, q, (#[trigger] post@[j]).mint@),
                Some((b, after, before)) => {
                    &&& b < i
                    &&& is_candidate(p, q, post@[b as int].mint@)
                    &&& after.units() - before.units() == delta(p, q, post@[b as int].mint@)
                    &&& forall|j: int|
                        0 <= j < i && is_candidate(p, q, (#[trigger] post@[j]).mint@) ==> beats(
                            p,
                            q,
                            post@[b as int].mint@,
                            post@[j].mint@,
                        )
                },
            },
        decreases post.len() - i,
    {
        let mint = post[i].mint.as_str();
        proof {
            lemma_snapshot_dom(post@, mint@);
            assert(post@[i as int].mint@ == mint@);
            lemma_lex_total(mint@, mint@);
        }
        let before = match lookup(pre, mint) {
            Some(v) => v,
            None => zero,
        };
        match lookup(post, mint) {
            Some(after) => {
                assert(after.units() - before.units() == delta(p, q, mint@));
                match gap_sign(after, before, threshold, zero) {
                    Sign::Positive => {
                        assert(is_candidate(p, q, mint@));
                        match best {
                            None => {
                                best = Some((i, after, before));
                            },
                            Some((b, lead_after, lead_before)) => {
                                let ghost lead = post@[b as int].mint@;
                                let wins = match gap_sign(after, before, lead_after, lead_before) {
                                    Sign::Positive => true,
                                    Sign::Zero => lex_le_exec(mint, post[b].mint.as_str()),
                                    Sign::Negative => false,
                                };
                                if wins {
                                    proof {
                                        assert(beats(p, q, mint@, lead));
                                        assert forall|j: int|
                                            0 <= j < i + 1 && is_candidate(
                                                p,
                                                q,
                                                (#[trigger] post@[j]).mint@,
                                            ) implies beats(p, q, mint@, post@[j].mint@) by {
                                            if j < i {
                                                lemma_beats_transitive(p, q, mint@, lead, post@[j].mint@);
                                            }
                                        }
                                    }
                                    best = Some((i, after, before));
                                } else {
                                    proof {
                                        lemma_lex_total(mint@, lead);
                                        assert(beats(p, q, lead, mint@));
                                    }
                                }
                            },
                        }
                    },
                    _ => {
                        assert(!is_candidate(p, q, mint@));
                    },
                }
            },
            None => {},
        }
        i += 1;
    }
    proof {
        match best {
            None => {
                assert forall|m: Seq<char>| !is_candidate(p, q, m) by {
                    if is_candidate(p, q, m) {
                        lemma_snapshot_dom(post@, m);
                        let j = choose|j: int| 0 <= j < post@.len() && #[trigger] post@[j].mint@ == m;
                        assert(!is_candidate(p, q, post@[j].mint@));
                    }
                }
            },
            Some((b, _, _)) => {
                let w = post@[b as int].mint@;
                assert forall|m: Seq<char>| #[trigger] is_candidate(p, q, m) implies beats(
                    p,
                    q,
                    w,
                    m,
                ) by {
                    lemma_snapshot_dom(post@, m);
                    let j = choose|j: int| 0 <= j < post@.len() && #[trigger] post@[j].mint@ == m;
                    assert(is_candidate(p, q, post@[j].mint@));
                }
                assert(is_winner(p, q, w));
                lemma_winner_unique(p, q, w, choose|m: Seq<char>| is_winner(p, q, m));
            },
        }
    }
    match best {
        Some((b, _, _)) => Some(b),
        None => None,
    }
}

/// Why no intent could be inferred from an event.
#[derive(Debug, Clone, Copy, PartialEq, Eq)]
pub enum InferError {
    /// The token type that was picked is no account identifier.
    MalformedMint(ParseAccountError),
}

/// The transaction result inside an event: under `params`, else at the top.
pub open spec fn tx_result(msg: Json) -> Option<Json> {
    match msg.field("params"@) {
        Some(params) => match params.field("result"@) {
            Some(r) => Some(r),
            None => msg.field("result"@),
        },
        None => msg.field("result"@),
    }
}

/// The numeral that a balance entry gives as its amount; an entry
/// without a text for the token type or without a number for the amount
/// has none.
pub open spec fn entry_numeral(entry: Json) -> Option<Seq<char>> {
    match (entry.field("mint"@), entry.field("uiTokenAmount"@)) {
        (Some(Json::Str(_)), Some(amount)) => match amount.field("uiAmount"@) {
            Some(Json::Number(n)) => Some(n@),
            _ => None,
        },
        _ => None,
    }
}

/// Token type and balance, in units, of one balance entry; an entry
/// without a text for the token type or without an amount has none.
/// The amount is taken exactly as the numeral gives it.
pub open spec fn entry_balance(entry: Json) -> Option<(Seq<char>, int)> {
    match (entry.field("mint"@), entry_numeral(entry)) {
        (Some(Json::Str(mint)), Some(n)) => match amount_of(n) {
            Some(a) => Some((mint@, a.units())),
            None => None,
        },
        _ => None,
    }
}

/// The entry gives a number whose amount cannot be held. Such an entry is
/// not passed over: an event that holds one is not read at all. The
/// numbers of a document that was parsed are 64-bit integers and finite
/// 64-bit floats in their shortest numerals, all of which can be held;
/// only a document that was put together by hand can hold another.
pub open spec fn is_unreadable(entry: Json) -> bool {
    entry_numeral(entry) matches Some(n) && amount_of(n) is None
}

/// No entry of the list is unreadable.
pub open spec fn all_readable(entries: Seq<Json>) -> bool {
    forall|i: int| 0 <= i < entries.len() ==> !is_unreadable(#[trigger] entries[i])
}

/// The balances that a list of balance entries reports.
pub open spec fn entries_snapshot(entries: Seq<Json>) -> Map<Seq<char>, int>
    decreases entries.len(),
{
    if entries.len() == 0 {
        Map::empty()
    } else {
        match entry_balance(entries.last()) {
            Some((mint, amount)) => entries_snapshot(entries.drop_last()).insert(mint, amount),
            None => entries_snapshot(entries.drop_last()),
        }
    }
}

/// No entry listed under `key` in the transaction's metadata is
/// unreadable.
pub open spec fn meta_readable(meta: Json, key: Seq<char>) -> bool {
    match meta.field(key) {
        Some(Json::Array(entries)) => all_readable(entries@),
        _ => true,
    }
}

/// The balances listed under `key` in the transaction's metadata; a
/// missing list, or a value that is no list, counts as empty.
pub open spec fn meta_snapshot(meta: Json, key: Seq<char>) -> Map<Seq<char>, int> {
    match meta.field(key) {
        Some(Json::Array(entries)) => entries_snapshot(entries@),
        _ => Map::empty(),
    }
}

/// The intent that follows once the picked token type has been decoded.
pub open spec fn intent_for_spec(
    decoded: Result<AccountId, ParseAccountError>,
    max_buy_sol: Amount,
) -> Result<Option<MirrorIntent>, InferError> {
    match decoded {
        Ok(id) => Ok(Some(MirrorIntent::Buy { output_mint: id, max_input_sol: max_buy_sol })),
        Err(e) => Err(InferError::MalformedMint(e)),
    }
}

/// The balances before and after the transaction that an event reports;
/// an event without transaction metadata has none, and neither has one
/// with an unreadable entry in either list.
pub open spec fn event_balances(msg: Json) -> Option<(Map<Seq<char>, int>, Map<Seq<char>, int>)> {
    match tx_result(msg) {
        None => None,
        Some(result) => match result.field("meta"@) {
            None => None,
            Some(meta) => if meta_readable(meta, "preTokenBalances"@) && meta_readable(
                meta,
                "postTokenBalances"@,
            ) {
                Some(
                    (
                        meta_snapshot(meta, "preTokenBalances"@),
                        meta_snapshot(meta, "postTokenBalances"@),
                    ),
                )
            } else {
                None
            },
        },
    }
}

/// What inference yields for an event: nothing when the event holds no
/// transaction metadata, when one of its balance entries is unreadable,
/// or when no token type wins; else a buy of the winning
/// token type for the whole of `max_buy_sol`, or an error when that token
/// type is no account identifier.
pub open spec fn infer_spec(msg: Json, max_buy_sol: Amount) -> Result<Option<MirrorIntent>, InferError> {
    match event_balances(msg) {
        None => Ok(None),
        Some((pre, post)) => match best_mint(pre, post) {
            None => Ok(None),
            Some(mint) => intent_for_spec(account_of_text(mint), max_buy_sol),
        },
    }
}

/// What one balance entry holds.
#[derive(Debug, Clone, PartialEq, Eq)]
pub enum Reading {
    /// No token type or no amount: the entry is passed over.
    Absent,
    /// A number that no amount can hold.
    Unreadable,
    /// A token type and its balance.
    Balance(TokenBalance),
}

/// `reading` is what `entry` holds.
pub open spec fn is_reading(entry: Json, reading: Reading) -> bool {
    match reading {
        Reading::Absent => entry_numeral(entry) is None,
        Reading::Unreadable => is_unreadable(entry),
        Reading::Balance(b) => entry_balance(entry) == Some((b.mint@, b.ui_amount.units())),
    }
}

/// Reads one balance entry.
pub fn read_entry(entry: &Json) -> (r: Reading)
    ensures
        is_reading(*entry, r),
{
    let mint = match entry.get("mint") {
        Some(m) => match m.as_str() {
            Some(s) => s,
            None => {
                return Reading::Absent;
            },
        },
        None => {
            return Reading::Absent;
        },
    };
    let amount = match entry.get("uiTokenAmount") {
        Some(a) => a,
        None => {
            return Reading::Absent;
        },
    };
    let number = match amount.get("uiAmount") {
        Some(n) => match n.as_number() {
            Some(t) => t,
            None => {
                return Reading::Absent;
            },
        },
        None => {
            return Reading::Absent;
        },
    };
    match parse_amount(number) {
        Some(v) => Reading::Balance(TokenBalance { mint: mint.to_owned(), ui_amount: v }),
        None => Reading::Unreadable,
    }
}

/// Reads the balances listed under `key` in the transaction's metadata;
/// there are none to be had where an entry is unreadable.
pub fn read_balances(meta: &Json, key: &str) -> (r: Option<Vec<TokenBalance>>)
    ensures
        match r {
            Some(v) => meta_readable(*meta, key@) && snapshot(v@) == meta_snapshot(*meta, key@),
            None => !meta_readable(*meta, key@),
        },
{
    let mut out: Vec<TokenBalance> = Vec::new();
    let entries = match meta.get(key) {
        Some(list) => match list.as_array() {
            Some(entries) => entries,
            None => {
                return Some(out);
            },
        },
        None => {
            return Some(out);
        },
    };
    let mut i: usize = 0;
    proof {
        assert(entries@.take(0) =~= Seq::<Json>::empty());
    }
    while i < entries.len()
        invariant
            i <= entries.len(),
            snapshot(out@) == entries_snapshot(entries@.take(i as int)),
            meta_readable(*meta, key@) == all_readable(entries@),
            forall|j: int| 0 <= j < i ==> !is_unreadable(#[trigger] entries@[j]),
        decreases entries.len() - i,
    {
        proof {
            assert(entries@.take(i + 1).drop_last() =~= entries@.take(i as int));
            assert(entries@.take(i + 1).last() == entries@[i as int]);
        }
        match read_entry(&entries[i]) {
            Reading::Balance(b) => {
                let ghost before = out@;
                out.push(b);
                proof {
                    assert(out@.drop_last() =~= before);
                }
            },
            Reading::Unreadable => {
                assert(is_unreadable(entries@[i as int]));
                return None;
            },
            Reading::Absent => {},
        }
        i += 1;
    }
    proof {
        assert(entries@.take(i as int) =~= entries@);
    }
    Some(out)
}

/// The intent that follows once the picked token type has been decoded.
pub fn intent_for(decoded: Result<AccountId, ParseAccountError>, max_buy_sol: Amount) -> (r: Result<
    Option<MirrorIntent>,
    InferError,
>)
    ensures
        r == intent_for_spec(decoded, max_buy_sol),
{
    match decoded {
        Ok(id) => Ok(Some(MirrorIntent::Buy { output_mint: id, max_input_sol: max_buy_sol })),
        Err(e) => Err(InferError::MalformedMint(e)),
    }
}

/// Infers from an event of the feed whether the target bought a token.
///
/// The token type whose balance rose the most, by more than the dust
/// threshold, is taken as bought; `max_buy_sol` is the amount to spend on
/// it, whatever the size of the rise.
pub fn infer_intent_from_tx(json_msg: &Json, max_buy_sol: Amount) -> (r: Result<
    Option<MirrorIntent>,
    InferError,
>)
    ensures
        r == infer_spec(*json_msg, max_buy_sol),
{
    let from_params = match json_msg.get("params") {
        Some(params) => params.get("result"),
        None => None,
    };
    let result = match from_params {
        Some(r) => r,
        None => match json_msg.get("result") {
            Some(r) => r,
            None => {
                return Ok(None);
            },
        },
    };
    let meta = match result.get("meta") {
        Some(m) => m,
        None => {
            return Ok(None);
        },
    };
    let pre = match read_balances(meta, "preTokenBalances") {
        Some(v) => v,
        None => {
            return Ok(None);
        },
    };
    let post = match read_balances(meta, "postTokenBalances") {
        Some(v) => v,
        None => {
            return Ok(None);
        },
    };
    match select_mint(&pre, &post) {
        Some(i) => intent_for(decode_account(post[i].mint.as_str()), max_buy_sol),
        None => Ok(None),
    }
}

/// An event whose balance entries cannot all be read yields nothing,
/// whatever else it holds.
pub proof fn lemma_unreadable_yields_nothing(msg: Json, max_buy_sol: Amount)
    requires
        tx_result(msg) matches Some(result) && result.field("meta"@) matches Some(meta) && !(
        meta_readable(meta, "preTokenBalances"@) && meta_readable(meta, "postTokenBalances"@)),
    ensures
        event_balances(msg) is None,
        infer_spec(msg, max_buy_sol) == Ok::<Option<MirrorIntent>, InferError>(None),
{
}

/// Where no token type listed after the transaction rose by more than the
/// dust threshold, no token type is picked.
pub proof fn lemma_no_rise_no_pick(pre: Map<Seq<char>, int>, post: Map<Seq<char>, int>)
    requires
        forall|m: Seq<char>| post.dom().contains(m) ==> delta(pre, post, m) <= dust(),
    ensures
        best_mint(pre, post) is None,
{
    assert forall|m: Seq<char>| !is_winner(pre, post, m) by {
        assert(!is_candidate(pre, post, m));
    }
}

/// Inference yields nothing for an event in which no token type listed
/// after the transaction rose by more than the dust threshold, whatever
/// amount is set for purchases.
pub proof fn lemma_no_rise_no_intent(msg: Json, max_buy_sol: Amount)
    requires
        event_balances(msg) matches Some((pre, post)) ==> forall|m: Seq<char>|
            post.dom().contains(m) ==> delta(pre, post, m) <= dust(),
    ensures
        infer_spec(msg, max_buy_sol) == Ok::<Option<MirrorIntent>, InferError>(None),
{
    match event_balances(msg) {
        None => {},
        Some((pre, post)) => {
            lemma_no_rise_no_pick(pre, post);
        },
    }
}

/// The token types of the balances that a list of balance entries
/// reports, as a list.
pub proof fn lemma_entries_listed(entries: Seq<Json>) -> (mints: Seq<Seq<char>>)
    ensures
        forall|m: Seq<char>| #[trigger]
            entries_snapshot(entries).dom().contains(m) ==> exists|j: int|
                0 <= j < mints.len() && #[trigger] mints[j] == m,
    decreases entries.len(),
{
    if entries.len() == 0 {
        assert(entries_snapshot(entries).dom() =~= Set::<Seq<char>>::empty());
        Seq::empty()
    } else {
        let front = lemma_entries_listed(entries.drop_last());
        match entry_balance(entries.last()) {
            Some((mint, _)) => {
                let mints = front.push(mint);
                assert forall|m: Seq<char>| #[trigger]
                    entries_snapshot(entries).dom().contains(m) implies exists|j: int|
                    0 <= j < mints.len() && #[trigger] mints[j] == m by {
                    if m == mint {
                        assert(mints[front.len() as int] == m);
                    } else {
                        assert(entries_snapshot(entries.drop_last()).dom().contains(m));
                        let j = choose|j: int| 0 <= j < front.len() && #[trigger] front[j] == m;
                        assert(mints[j] == m);
                    }
                }
                mints
            },
            None => {
                assert(entries_snapshot(entries) == entries_snapshot(entries.drop_last()));
                front
            },
        }
    }
}

/// A rise above the dust threshold is never answered with nothing: where
/// the balances of an event can be read and some token type listed after
/// the transaction rose by more than the threshold, one token type wins,
/// and inference yields its purchase, or the error that it is no account
/// identifier.
pub proof fn lemma_rise_is_answered(msg: Json, max_buy_sol: Amount, mint: Seq<char>)
    requires
        event_balances(msg) matches Some((pre, post)) && is_candidate(pre, post, mint),
    ensures
        event_balances(msg) matches Some((pre, post)) && best_mint(pre, post) matches Some(w)
            && is_winner(pre, post, w) && infer_spec(msg, max_buy_sol) == intent_for_spec(
            account_of_text(w),
            max_buy_sol,
        ),
        infer_spec(msg, max_buy_sol) != Ok::<Option<MirrorIntent>, InferError>(None),
{
    let (pre, post) = event_balances(msg).unwrap();
    let meta = tx_result(msg).unwrap().field("meta"@).unwrap();
    assert(post == meta_snapshot(meta, "postTokenBalances"@));
    match meta.field("postTokenBalances"@) {
        Some(Json::Array(entries)) => {
            let mints = lemma_entries_listed(entries@);
            lemma_candidate_has_winner(pre, post, mints, mint);
        },
        _ => {
            assert(post.dom().contains(mint));
        },
    }
}

/// Whatever inference yields, the token type it names is one whose
/// balance rose by more than the dust threshold, and by no less than that
/// of any other.
pub proof fn lemma_pick_rose_most(pre: Map<Seq<char>, int>, post: Map<Seq<char>, int>, other: Seq<char>)
    requires
        best_mint(pre, post) is Some,
        post.dom().contains(other),
    ensures
        delta(pre, post, best_mint(pre, post).unwrap()) > dust(),
        delta(pre, post, best_mint(pre, post).unwrap()) >= delta(pre, post, other),
{
    let w = best_mint(pre, post).unwrap();
    assert(is_winner(pre, post, w));
    if is_candidate(pre, post, other) {
        assert(beats(pre, post, w, other));
    }
}

} // verus!
