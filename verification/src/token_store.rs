//! The policy of stored codes (`~/.punch/tokens.json`): which codes may
//! still connect, and how each connection, verification and revocation
//! changes the store. Reading and writing the file is the caller's part.

use vstd::prelude::*;
use crate::text::{decimal, push_all, push_decimal, str_eq};
use crate::time::Timestamp;
use crate::token::{Token, TokenType};

verus! {

/// The kind of a stored code, with its policy state.
#[derive(Clone, Copy, Debug, PartialEq, Eq, Structural)]
pub enum StoredTokenType {
    TNo,
    QNo { remaining: u32 },
    PNo { verified: bool },
}

/// A persisted code.
#[derive(Debug)]
pub struct StoredToken {
    pub code: String,
    pub token_type: StoredTokenType,
    pub created_at: Timestamp,
    pub last_used: Option<Timestamp>,
}

impl Clone for StoredToken {
    fn clone(&self) -> (r: Self)
        ensures
            r == *self,
    {
        StoredToken {
            code: self.code.clone(),
            token_type: self.token_type,
            created_at: self.created_at,
            last_used: self.last_used,
        }
    }
}

/// Whether a stored code may still be used.
pub open spec fn valid_type(t: StoredTokenType) -> bool {
    match t {
        StoredTokenType::TNo => true,
        StoredTokenType::QNo { remaining } => remaining > 0,
        StoredTokenType::PNo { verified } => verified,
    }
}

pub open spec fn status_text(t: StoredTokenType) -> Seq<char> {
    match t {
        StoredTokenType::TNo => "Temporary (single use)"@,
        StoredTokenType::QNo { remaining } =>
            "Quantised ("@ + decimal(remaining as nat) + " uses remaining)"@,
        StoredTokenType::PNo { verified } =>
            if verified { "Permanent (verified)"@ } else { "Permanent (not verified)"@ },
    }
}

pub open spec fn stored_label(t: StoredTokenType) -> Seq<char> {
    match t {
        StoredTokenType::TNo => "T-No"@,
        StoredTokenType::QNo { .. } => "Q-No"@,
        StoredTokenType::PNo { .. } => "P-No"@,
    }
}

impl StoredTokenType {
    /// `T-No`, `Q-No` or `P-No`.
    pub fn type_label(&self) -> (s: &'static str)
        ensures
            s@ == stored_label(*self),
    {
        match self {
            StoredTokenType::TNo => "T-No",
            StoredTokenType::QNo { .. } => "Q-No",
            StoredTokenType::PNo { .. } => "P-No",
        }
    }
}

impl StoredToken {
    /// True if this code can still be used.
    pub fn is_valid(&self) -> (b: bool)
        ensures
            b == valid_type(self.token_type),
    {
        match &self.token_type {
            StoredTokenType::TNo => true,
            StoredTokenType::QNo { remaining } => *remaining > 0,
            StoredTokenType::PNo { verified } => *verified,
        }
    }

    /// Human-readable status.
    pub fn status(&self) -> (s: String)
        ensures
            s@ == status_text(self.token_type),
    {
        let mut s = String::new();
        match &self.token_type {
            StoredTokenType::TNo => push_all(&mut s, "Temporary (single use)"),
            StoredTokenType::QNo { remaining } => {
                push_all(&mut s, "Quantised (");
                push_decimal(&mut s, *remaining as u64);
                push_all(&mut s, " uses remaining)");
            },
            StoredTokenType::PNo { verified } => {
                if *verified {
                    push_all(&mut s, "Permanent (verified)");
                } else {
                    push_all(&mut s, "Permanent (not verified)");
                }
            },
        }
        proof {
            reveal_strlit("Temporary (single use)");
        }
        s
    }
}

/// Why a code was refused or could not be changed.
#[derive(Clone, Copy, Debug, PartialEq, Eq, Structural)]
pub enum TokenError {
    /// The code exists but can no longer be used: its uses are spent, or it
    /// is a permanent code that has not been verified.
    Expired,
    /// No stored code has this text.
    NotFound,
    /// The code is not a permanent one.
    NotPermanent,
}

/// What a permitted connection did to the store.
#[derive(Clone, Copy, Debug, PartialEq, Eq, Structural)]
pub enum ConsumeOutcome {
    /// The code is not in the store; nothing to enforce.
    NotTracked,
    /// A stored temporary code, now removed.
    TemporaryUsed,
    /// The last use of a quantised code, now removed.
    LastUse,
    /// A quantised code with this many uses left.
    UsesLeft(u32),
    /// A verified permanent code; its last use is recorded.
    PermanentUse,
}

/// Index of the first stored code with text `code`, or -1.
pub open spec fn position_of(s: Seq<StoredToken>, code: Seq<char>) -> int
    decreases s.len(),
{
    if s.len() == 0 {
        -1
    } else {
        let p = position_of(s.drop_last(), code);
        if p >= 0 {
            p
        } else if s.last().code@ == code {
            s.len() - 1
        } else {
            -1
        }
    }
}

/// Some stored code has text `code`.
pub open spec fn has_code(s: Seq<StoredToken>, code: Seq<char>) -> bool {
    exists|i: int| 0 <= i < s.len() && s[i].code@ == code
}

/// `position_of` is the first index with the code, or -1 when none has it.
pub proof fn lemma_position_of(s: Seq<StoredToken>, code: Seq<char>)
    ensures
        -1 <= position_of(s, code) < s.len(),
        position_of(s, code) == -1 <==> !has_code(s, code),
        position_of(s, code) >= 0 ==> s[position_of(s, code)].code@ == code,
        forall|j: int| 0 <= j < position_of(s, code) ==> s[j].code@ != code,
        position_of(s, code) == -1 ==> forall|j: int| 0 <= j < s.len() ==> s[j].code@ != code,
    decreases s.len(),
{
    if s.len() > 0 {
        let t = s.drop_last();
        lemma_position_of(t, code);
        assert forall|j: int| 0 <= j < t.len() implies t[j] == s[j] by {}
        if position_of(t, code) == -1 && s.last().code@ != code {
            assert forall|j: int| 0 <= j < s.len() implies s[j].code@ != code by {
                if j < t.len() {
                    assert(t[j] == s[j]);
                }
            }
        }
        if position_of(s, code) >= 0 {
            assert(has_code(s, code));
        }
    }
}

/// The store after one permitted connection with `code`, and the answer.
pub open spec fn consume_spec(s: Seq<StoredToken>, code: Seq<char>, now: Timestamp) -> (
    Result<ConsumeOutcome, TokenError>,
    Seq<StoredToken>,
) {
    let p = position_of(s, code);
    if p < 0 {
        (Ok(ConsumeOutcome::NotTracked), s)
    } else {
        let t = s[p];
        if !valid_type(t.token_type) {
            (Err(TokenError::Expired), s)
        } else {
            match t.token_type {
                StoredTokenType::TNo => (Ok(ConsumeOutcome::TemporaryUsed), s.remove(p)),
                StoredTokenType::QNo { remaining } => if remaining == 1 {
                    (Ok(ConsumeOutcome::LastUse), s.remove(p))
                } else {
                    (
                        Ok(ConsumeOutcome::UsesLeft((remaining - 1) as u32)),
                        s.update(
                            p,
                            StoredToken {
                                token_type: StoredTokenType::QNo { remaining: (remaining - 1) as u32 },
                                last_used: Some(now),
                                ..t
                            },
                        ),
                    )
                },
                StoredTokenType::PNo { .. } => (
                    Ok(ConsumeOutcome::PermanentUse),
                    s.update(p, StoredToken { last_used: Some(now), ..t }),
                ),
            }
        }
    }
}

/// The store after verifying permanent code `code`, and the answer.
pub open spec fn verify_spec(s: Seq<StoredToken>, code: Seq<char>) -> (
    Result<(), TokenError>,
    Seq<StoredToken>,
) {
    let p = position_of(s, code);
    if p < 0 {
        (Err(TokenError::NotFound), s)
    } else {
        match s[p].token_type {
            StoredTokenType::PNo { .. } => (
                Ok(()),
                s.update(p, StoredToken { token_type: StoredTokenType::PNo { verified: true }, ..s[p] }),
            ),
            _ => (Err(TokenError::NotPermanent), s),
        }
    }
}

/// The stored codes other than those with text `code`, in order.
pub open spec fn without_code(s: Seq<StoredToken>, code: Seq<char>) -> Seq<StoredToken>
    decreases s.len(),
{
    if s.len() == 0 {
        s
    } else if s.last().code@ == code {
        without_code(s.drop_last(), code)
    } else {
        without_code(s.drop_last(), code).push(s.last())
    }
}

/// The stored entry that a newly generated code adds, if any.
pub open spec fn stored_form(t: Token, now: Timestamp) -> Option<StoredToken> {
    match t.token_type {
        TokenType::TNo => None,
        TokenType::QNo { remaining } => Some(StoredToken {
            code: t.code,
            token_type: StoredTokenType::QNo { remaining },
            created_at: now,
            last_used: None,
        }),
        TokenType::PNo => Some(StoredToken {
            code: t.code,
            token_type: StoredTokenType::PNo { verified: false },
            created_at: now,
            last_used: None,
        }),
    }
}

/// Index of the first stored code with text `code`.
pub fn find_position(tokens: &Vec<StoredToken>, code: &str) -> (p: Option<usize>)
    ensures
        match p {
            Some(i) => i as int == position_of(tokens@, code@),
            None => position_of(tokens@, code@) == -1,
        },
{
    let mut i: usize = 0;
    while i < tokens.len()
        invariant
            i <= tokens@.len(),
            position_of(tokens@.take(i as int), code@) == -1,
        decreases tokens@.len() - i,
    {
        let ghost pre = tokens@.take(i as int);
        let ghost next = tokens@.take(i + 1);
        assert(next.drop_last() == pre);
        if str_eq(tokens[i].code.as_str(), code) {
            proof {
                lemma_position_prefix(tokens@, code@, i as int);
            }
            return Some(i);
        }
        i = i + 1;
    }
    assert(tokens@.take(tokens@.len() as int) == tokens@);
    None
}

/// When no code in `s[..i]` matches and `s[i]` does, `i` is the position.
proof fn lemma_position_prefix(s: Seq<StoredToken>, code: Seq<char>, i: int)
    requires
        0 <= i < s.len(),
        position_of(s.take(i), code) == -1,
        s[i].code@ == code,
    ensures
        position_of(s, code) == i,
{
    let t = s.take(i + 1);
    assert(t.drop_last() == s.take(i));
    assert(position_of(t, code) == i);
    lemma_position_of(t, code);
    lemma_position_of(s, code);
    if position_of(s, code) < i {
        let p = position_of(s, code);
        if p >= 0 {
            assert(t[p] == s[p]);
        } else {
            assert(s[i].code@ == code);
            assert(has_code(s, code));
        }
    } else if position_of(s, code) > i {
        assert(s[i].code@ != code);
    }
}

/// Adds a newly generated code to the store. Temporary codes are never
/// stored; quantised and permanent ones are appended (permanent ones
/// unverified).
pub fn store_token(tokens: &mut Vec<StoredToken>, token: &Token, now: Timestamp)
    ensures
        match stored_form(*token, now) {
            None => final(tokens)@ == old(tokens)@,
            Some(st) => final(tokens)@ == old(tokens)@.push(st),
        },
{
    match token.token_type {
        TokenType::TNo => {},
        TokenType::QNo { remaining } => {
            tokens.push(StoredToken {
                code: token.code.clone(),
                token_type: StoredTokenType::QNo { remaining },
                created_at: now,
                last_used: None,
            });
        },
        TokenType::PNo => {
            tokens.push(StoredToken {
                code: token.code.clone(),
                token_type: StoredTokenType::PNo { verified: false },
                created_at: now,
                last_used: None,
            });
        },
    }
}

/// Enforces the policy of `code` for one connection: an unknown code is let
/// through untouched; an expired or unverified code is refused and the store
/// left as it was; a temporary code and the last use of a quantised code are
/// removed; a quantised code loses one use; a permanent code records `now`.
pub fn check_and_consume(tokens: &mut Vec<StoredToken>, code: &str, now: Timestamp) -> (r: Result<
    ConsumeOutcome,
    TokenError,
>)
    ensures
        (r, final(tokens)@) == consume_spec(old(tokens)@, code@, now),
{
    let pos = find_position(tokens, code);
    proof {
        lemma_position_of(tokens@, code@);
    }
    match pos {
        None => Ok(ConsumeOutcome::NotTracked),
        Some(i) => {
            if !tokens[i].is_valid() {
                return Err(TokenError::Expired);
            }
            match tokens[i].token_type {
                StoredTokenType::TNo => {
                    tokens.remove(i);
                    Ok(ConsumeOutcome::TemporaryUsed)
                },
                StoredTokenType::QNo { remaining } => {
                    if remaining == 1 {
                        tokens.remove(i);
                        Ok(ConsumeOutcome::LastUse)
                    } else {
                        let updated = StoredToken {
                            code: tokens[i].code.clone(),
                            token_type: StoredTokenType::QNo { remaining: remaining - 1 },
                            created_at: tokens[i].created_at,
                            last_used: Some(now),
                        };
                        tokens.set(i, updated);
                        Ok(ConsumeOutcome::UsesLeft(remaining - 1))
                    }
                },
                StoredTokenType::PNo { .. } => {
                    let updated = StoredToken {
                        code: tokens[i].code.clone(),
                        token_type: tokens[i].token_type,
                        created_at: tokens[i].created_at,
                        last_used: Some(now),
                    };
                    tokens.set(i, updated);
                    Ok(ConsumeOutcome::PermanentUse)
                },
            }
        },
    }
}

/// Marks permanent code `code` as verified.
pub fn verify_pno_token(tokens: &mut Vec<StoredToken>, code: &str) -> (r: Result<(), TokenError>)
    ensures
        (r, final(tokens)@) == verify_spec(old(tokens)@, code@),
{
    let pos = find_position(tokens, code);
    proof {
        lemma_position_of(tokens@, code@);
    }
    match pos {
        None => Err(TokenError::NotFound),
        Some(i) => {
            match tokens[i].token_type {
                StoredTokenType::PNo { .. } => {
                    let updated = StoredToken {
                        code: tokens[i].code.clone(),
                        token_type: StoredTokenType::PNo { verified: true },
                        created_at: tokens[i].created_at,
                        last_used: tokens[i].last_used,
                    };
                    tokens.set(i, updated);
                    Ok(())
                },
                _ => Err(TokenError::NotPermanent),
            }
        },
    }
}

/// Removes every stored code with text `code`; refuses when there is none.
pub fn revoke_token(tokens: &mut Vec<StoredToken>, code: &str) -> (r: Result<(), TokenError>)
    ensures
        final(tokens)@ == without_code(old(tokens)@, code@),
        r is Err <==> !has_code(old(tokens)@, code@),
        r is Err ==> r == Err::<(), TokenError>(TokenError::NotFound),
{
    let before: usize = tokens.len();
    let mut kept: Vec<StoredToken> = Vec::new();
    let mut i: usize = 0;
    while i < tokens.len()
        invariant
            i <= tokens@.len(),
            before == tokens@.len(),
            tokens@ == old(tokens)@,
            kept@ == without_code(tokens@.take(i as int), code@),
            kept@.len() <= i,
        decreases tokens@.len() - i,
    {
        let ghost pre = tokens@.take(i as int);
        assert(tokens@.take(i + 1).drop_last() == pre);
        if !str_eq(tokens[i].code.as_str(), code) {
            kept.push(tokens[i].clone());
        }
        i = i + 1;
    }
    assert(tokens@.take(tokens@.len() as int) == tokens@);
    proof {
        lemma_without_code_len(old(tokens)@, code@);
    }
    let n: usize = kept.len();
    *tokens = kept;
    if n == before {
        Err(TokenError::NotFound)
    } else {
        Ok(())
    }
}

/// `without_code` keeps all entries exactly when none has the code.
proof fn lemma_without_code_len(s: Seq<StoredToken>, code: Seq<char>)
    ensures
        without_code(s, code).len() <= s.len(),
        without_code(s, code).len() == s.len() <==> !has_code(s, code),
        !has_code(without_code(s, code), code),
    decreases s.len(),
{
    if s.len() > 0 {
        let t = s.drop_last();
        lemma_without_code_len(t, code);
        if has_code(t, code) {
            let j = choose|j: int| 0 <= j < t.len() && t[j].code@ == code;
            assert(s[j] == t[j]);
        }
        if !has_code(s, code) {
            assert(s.last() == s[s.len() - 1]);
            assert forall|j: int| 0 <= j < t.len() implies t[j].code@ != code by {
                assert(s[j] == t[j]);
            }
        }
        let w = without_code(t, code);
        if s.last().code@ == code {
            assert(has_code(s, code)) by {
                assert(s[s.len() - 1].code@ == code);
            }
        } else {
            if has_code(s, code) {
                let j = choose|j: int| 0 <= j < s.len() && s[j].code@ == code;
                assert(j < t.len());
                assert(t[j] == s[j]);
                assert(has_code(t, code));
            }
        }
        if s.last().code@ != code {
            assert forall|j: int| 0 <= j < w.push(s.last()).len() implies w.push(s.last())[j].code@ != code by {
                if j < w.len() {
                    assert(w.push(s.last())[j] == w[j]);
                }
            }
        }
    }
}

/// Looks up a stored code before listening on it: unknown codes and codes
/// that can no longer be used are refused; otherwise the index of the entry.
pub fn lookup_for_listen(tokens: &Vec<StoredToken>, code: &str) -> (r: Result<usize, TokenError>)
    ensures
        match r {
            Ok(i) => i as int == position_of(tokens@, code@) && valid_type(tokens@[i as int].token_type),
            Err(e) => (position_of(tokens@, code@) == -1 && e == TokenError::NotFound) || (
                position_of(tokens@, code@) >= 0 && !valid_type(tokens@[position_of(tokens@, code@)].token_type)
                && e == TokenError::Expired),
        },
{
    let pos = find_position(tokens, code);
    proof {
        lemma_position_of(tokens@, code@);
    }
    match pos {
        None => Err(TokenError::NotFound),
        Some(i) => {
            if tokens[i].is_valid() {
                Ok(i)
            } else {
                Err(TokenError::Expired)
            }
        },
    }
}

/// The store after `k` permitted connections with `code`.
pub open spec fn consumed_times(s: Seq<StoredToken>, code: Seq<char>, now: Timestamp, k: nat) -> Seq<StoredToken>
    decreases k,
{
    if k == 0 {
        s
    } else {
        consume_spec(consumed_times(s, code, now, (k - 1) as nat), code, now).1
    }
}

/// `s[p]` is the only stored entry with text `code`.
pub open spec fn only_entry(s: Seq<StoredToken>, code: Seq<char>, p: int) -> bool {
    &&& 0 <= p < s.len()
    &&& s[p].code@ == code
    &&& forall|j: int| 0 <= j < s.len() && j != p ==> s[j].code@ != code
}

proof fn lemma_only_entry_position(s: Seq<StoredToken>, code: Seq<char>, p: int)
    requires
        only_entry(s, code, p),
    ensures
        position_of(s, code) == p,
{
    lemma_position_of(s, code);
    assert(has_code(s, code));
}

proof fn lemma_quantised_step(s: Seq<StoredToken>, code: Seq<char>, now: Timestamp, p: int, r: u32)
    requires
        only_entry(s, code, p),
        s[p].token_type == (StoredTokenType::QNo { remaining: r }),
        r >= 1,
    ensures
        r >= 2 ==> consume_spec(s, code, now).0 == Ok::<ConsumeOutcome, TokenError>(ConsumeOutcome::UsesLeft((r - 1) as u32)),
        r >= 2 ==> only_entry(consume_spec(s, code, now).1, code, p),
        r >= 2 ==> consume_spec(s, code, now).1[p].token_type == (StoredTokenType::QNo { remaining: (r - 1) as u32 }),
        r == 1 ==> consume_spec(s, code, now).0 == Ok::<ConsumeOutcome, TokenError>(ConsumeOutcome::LastUse),
        r == 1 ==> !has_code(consume_spec(s, code, now).1, code),
{
    lemma_only_entry_position(s, code, p);
    let t = consume_spec(s, code, now).1;
    if r == 1 {
        assert(t == s.remove(p));
        if has_code(t, code) {
            let j = choose|j: int| 0 <= j < t.len() && t[j].code@ == code;
            if j < p {
                assert(t[j] == s[j]);
            } else {
                assert(t[j] == s[j + 1]);
            }
        }
    } else {
        assert forall|j: int| 0 <= j < t.len() && j != p implies t[j].code@ != code by {
            assert(t[j] == s[j]);
        }
    }
}

proof fn lemma_quantised_after(s: Seq<StoredToken>, code: Seq<char>, now: Timestamp, p: int, n: u32, k: nat)
    requires
        only_entry(s, code, p),
        s[p].token_type == (StoredTokenType::QNo { remaining: n }),
        k < n,
    ensures
        only_entry(consumed_times(s, code, now, k), code, p),
        consumed_times(s, code, now, k)[p].token_type == (StoredTokenType::QNo { remaining: (n - k) as u32 }),
    decreases k,
{
    if k > 0 {
        lemma_quantised_after(s, code, now, p, n, (k - 1) as nat);
        let prev = consumed_times(s, code, now, (k - 1) as nat);
        lemma_quantised_step(prev, code, now, p, (n - (k - 1)) as u32);
    }
}

/// A quantised code created for `n` uses lets exactly `n` connections
/// through (each one is permitted, none is refused), and after the `n`-th
/// it is gone from the store.
pub proof fn quantised_code_allows_exactly_its_uses(s: Seq<StoredToken>, code: Seq<char>, now: Timestamp, p: int, n: u32)
    requires
        only_entry(s, code, p),
        s[p].token_type == (StoredTokenType::QNo { remaining: n }),
        n >= 1,
    ensures
        forall|k: nat| k < n ==> #[trigger] consume_spec(consumed_times(s, code, now, k), code, now).0 is Ok
            && consume_spec(consumed_times(s, code, now, k), code, now).0 != Ok::<ConsumeOutcome, TokenError>(ConsumeOutcome::NotTracked),
        !has_code(consumed_times(s, code, now, n as nat), code),
{
    assert forall|k: nat| k < n implies #[trigger] consume_spec(consumed_times(s, code, now, k), code, now).0 is Ok
        && consume_spec(consumed_times(s, code, now, k), code, now).0 != Ok::<ConsumeOutcome, TokenError>(ConsumeOutcome::NotTracked) by {
        lemma_quantised_after(s, code, now, p, n, k);
        lemma_quantised_step(consumed_times(s, code, now, k), code, now, p, (n - k) as u32);
    }
    lemma_quantised_after(s, code, now, p, n, (n - 1) as nat);
    lemma_quantised_step(consumed_times(s, code, now, (n - 1) as nat), code, now, p, 1);
    assert(consumed_times(s, code, now, n as nat) == consume_spec(consumed_times(s, code, now, (n - 1) as nat), code, now).1);
}

proof fn lemma_permanent_step(c: Seq<StoredToken>, code: Seq<char>, now: Timestamp, p: int)
    requires
        only_entry(c, code, p),
        c[p].token_type == (StoredTokenType::PNo { verified: true }),
    ensures
        consume_spec(c, code, now).0 == Ok::<ConsumeOutcome, TokenError>(ConsumeOutcome::PermanentUse),
        only_entry(consume_spec(c, code, now).1, code, p),
        consume_spec(c, code, now).1[p].token_type == (StoredTokenType::PNo { verified: true }),
{
    lemma_only_entry_position(c, code, p);
    let t = consume_spec(c, code, now).1;
    assert forall|j: int| 0 <= j < t.len() && j != p implies t[j].code@ != code by {
        assert(t[j] == c[j]);
    }
}

proof fn lemma_permanent_verified_stays(s: Seq<StoredToken>, code: Seq<char>, now: Timestamp, p: int, k: nat)
    requires
        only_entry(s, code, p),
        s[p].token_type == (StoredTokenType::PNo { verified: true }),
    ensures
        only_entry(consumed_times(s, code, now, k), code, p),
        consumed_times(s, code, now, k)[p].token_type == (StoredTokenType::PNo { verified: true }),
        consume_spec(consumed_times(s, code, now, k), code, now).0 == Ok::<ConsumeOutcome, TokenError>(ConsumeOutcome::PermanentUse),
    decreases k,
{
    if k > 0 {
        lemma_permanent_verified_stays(s, code, now, p, (k - 1) as nat);
        lemma_permanent_step(consumed_times(s, code, now, (k - 1) as nat), code, now, p);
    }
    lemma_permanent_step(consumed_times(s, code, now, k), code, now, p);
}

/// A permanent code is refused (and the store left unchanged) until it is
/// verified; once verified, every later connection with it is permitted and
/// the code stays in the store.
pub proof fn permanent_code_needs_verification(s: Seq<StoredToken>, code: Seq<char>, now: Timestamp, p: int)
    requires
        only_entry(s, code, p),
        s[p].token_type == (StoredTokenType::PNo { verified: false }),
    ensures
        consume_spec(s, code, now) == (Err::<ConsumeOutcome, TokenError>(TokenError::Expired), s),
        verify_spec(s, code).0 == Ok::<(), TokenError>(()),
        forall|k: nat| #[trigger] consume_spec(consumed_times(verify_spec(s, code).1, code, now, k), code, now).0
            == Ok::<ConsumeOutcome, TokenError>(ConsumeOutcome::PermanentUse),
        forall|k: nat| has_code(#[trigger] consumed_times(verify_spec(s, code).1, code, now, k), code),
{
    lemma_only_entry_position(s, code, p);
    let v = verify_spec(s, code).1;
    assert forall|j: int| 0 <= j < v.len() && j != p implies v[j].code@ != code by {
        assert(v[j] == s[j]);
    }
    assert(only_entry(v, code, p));
    assert forall|k: nat| #[trigger] consume_spec(consumed_times(v, code, now, k), code, now).0
        == Ok::<ConsumeOutcome, TokenError>(ConsumeOutcome::PermanentUse) by {
        lemma_permanent_verified_stays(v, code, now, p, k);
    }
    assert forall|k: nat| has_code(#[trigger] consumed_times(v, code, now, k), code) by {
        lemma_permanent_verified_stays(v, code, now, p, k);
        assert(consumed_times(v, code, now, k)[p].code@ == code);
    }
}

/// A code that is not in the store is not enforced: the connection is let
/// through and the store is unchanged. In particular this holds right after
/// the code was revoked.
pub proof fn unknown_code_is_not_enforced(s: Seq<StoredToken>, code: Seq<char>, now: Timestamp)
    ensures
        !has_code(s, code) ==> consume_spec(s, code, now) == (Ok::<ConsumeOutcome, TokenError>(ConsumeOutcome::NotTracked), s),
        !has_code(without_code(s, code), code),
        consume_spec(without_code(s, code), code, now)
            == (Ok::<ConsumeOutcome, TokenError>(ConsumeOutcome::NotTracked), without_code(s, code)),
{
    lemma_position_of(s, code);
    lemma_without_code_len(s, code);
    lemma_position_of(without_code(s, code), code);
}

/// Verification is for permanent codes only. Looking the code up as
/// connections do (the first stored entry with its text): when there is no
/// such entry the answer is `NotFound`; when that entry is a temporary or
/// quantised code the answer is `NotPermanent`; either way the store is
/// left as it was. When the entry is a permanent code, that entry becomes a
/// verified permanent code with the same text, creation and last use, and
/// every other entry stays as it was. So verification never turns any other
/// kind of code into a permanent one, and never changes an entry that is
/// not a permanent code or that has another text.
pub proof fn verification_only_touches_permanent_codes(s: Seq<StoredToken>, code: Seq<char>, p: int)
    requires
        0 <= p < s.len(),
        s[p].code@ == code,
        forall|j: int| 0 <= j < p ==> s[j].code@ != code,
    ensures
        !(s[p].token_type is PNo) ==> verify_spec(s, code) == (Err::<(), TokenError>(TokenError::NotPermanent), s),
        s[p].token_type is PNo ==> verify_spec(s, code).0 == Ok::<(), TokenError>(()),
        s[p].token_type is PNo ==> verify_spec(s, code).1[p] == (StoredToken {
            token_type: StoredTokenType::PNo { verified: true },
            ..s[p]
        }),
        verify_spec(s, code).1.len() == s.len(),
        forall|j: int| 0 <= j < s.len() && j != p ==> verify_spec(s, code).1[j] == s[j],
        forall|j: int| 0 <= j < s.len() && !(s[j].token_type is PNo) ==> verify_spec(s, code).1[j] == s[j],
{
    lemma_position_of(s, code);
    if position_of(s, code) != p {
        if position_of(s, code) < p {
        } else {
            assert(s[p].code@ == code);
        }
    }
}

/// Verifying a code that is not stored is refused with `NotFound` and
/// changes nothing.
pub proof fn verifying_unknown_code_is_refused(s: Seq<StoredToken>, code: Seq<char>)
    requires
        forall|j: int| 0 <= j < s.len() ==> s[j].code@ != code,
    ensures
        verify_spec(s, code) == (Err::<(), TokenError>(TokenError::NotFound), s),
{
    lemma_position_of(s, code);
    if position_of(s, code) >= 0 {
        assert(s[position_of(s, code)].code@ == code);
    }
}

/// A refused connection never changes the store.
pub proof fn refusal_leaves_store_unchanged(s: Seq<StoredToken>, code: Seq<char>, now: Timestamp)
    ensures
        consume_spec(s, code, now).0 is Err ==> consume_spec(s, code, now).1 == s,
        verify_spec(s, code).0 is Err ==> verify_spec(s, code).1 == s,
{
}

} // verus!
