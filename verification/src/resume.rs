//! Before a file is sent, the sender is told whether an interrupted
//! transfer could be resumed, judged from the stored codes: a temporary
//! code allows no resume, the last use of a quantised code is a last
//! chance, a quantised code with a few uses left pays one use per resume,
//! and an unverified permanent code will be refused.

use vstd::prelude::*;
use crate::token_store::{StoredToken, StoredTokenType};

verus! {

/// Files above this many MiB get the stronger warnings.
pub const LARGE_FILE_MB: u64 = 500;

/// A size in whole MiB.
pub fn size_mb(total_size: u64) -> (mb: u64)
    ensures
        mb == total_size / 1048576u64,
{
    total_size / 1048576u64
}

/// The size in MiB when it is above the large-file threshold.
pub open spec fn large_mb(total_size: u64) -> Option<u64> {
    if total_size / 1048576u64 > LARGE_FILE_MB {
        Some((total_size / 1048576u64) as u64)
    } else {
        None
    }
}

/// One warning shown before a transfer.
#[derive(Debug)]
pub enum ResumeNotice {
    /// No code is stored: the transfer runs on a temporary code and cannot
    /// be resumed. For a large file (this many MiB), suggest a quantised code.
    NoStoredCode { large_mb: Option<u64> },
    /// A stored temporary code: no resume. For a large file, say it is risky.
    TemporaryCode { large_mb: Option<u64> },
    /// The last use of the quantised code `code`: no resume after a drop.
    LastUse { code: String, large_mb: Option<u64> },
    /// A quantised code with this many (two or three) uses left: a resume
    /// costs one more.
    FewUsesLeft { remaining: u32 },
    /// A permanent code that is not verified: the connection will be refused.
    UnverifiedPermanent,
}

/// The notice for one stored code, if it needs one.
pub open spec fn notice_for(t: StoredToken, total_size: u64) -> Option<ResumeNotice> {
    match t.token_type {
        StoredTokenType::QNo { remaining } => if remaining == 1 {
            Some(ResumeNotice::LastUse { code: t.code, large_mb: large_mb(total_size) })
        } else if remaining <= 3 {
            Some(ResumeNotice::FewUsesLeft { remaining })
        } else {
            None
        },
        StoredTokenType::PNo { verified } => if !verified {
            Some(ResumeNotice::UnverifiedPermanent)
        } else {
            None
        },
        StoredTokenType::TNo => Some(ResumeNotice::TemporaryCode { large_mb: large_mb(total_size) }),
    }
}

/// The views of the notice for one stored code: notices are compared by
/// their code's text.
pub open spec fn same_notice(a: ResumeNotice, b: ResumeNotice) -> bool {
    match (a, b) {
        (ResumeNotice::LastUse { code: c1, large_mb: l1 }, ResumeNotice::LastUse { code: c2, large_mb: l2 }) =>
            c1@ == c2@ && l1 == l2,
        (ResumeNotice::NoStoredCode { large_mb: l1 }, ResumeNotice::NoStoredCode { large_mb: l2 }) => l1 == l2,
        (ResumeNotice::TemporaryCode { large_mb: l1 }, ResumeNotice::TemporaryCode { large_mb: l2 }) => l1 == l2,
        (ResumeNotice::FewUsesLeft { remaining: r1 }, ResumeNotice::FewUsesLeft { remaining: r2 }) => r1 == r2,
        (ResumeNotice::UnverifiedPermanent, ResumeNotice::UnverifiedPermanent) => true,
        _ => false,
    }
}

/// The notices for the stored codes, in store order.
pub open spec fn notices_for(tokens: Seq<StoredToken>, total_size: u64) -> Seq<ResumeNotice>
    decreases tokens.len(),
{
    if tokens.len() == 0 {
        seq![]
    } else {
        let rest = notices_for(tokens.drop_last(), total_size);
        match notice_for(tokens.last(), total_size) {
            Some(n) => rest.push(n),
            None => rest,
        }
    }
}

/// The notice each kind of stored code calls for: a temporary code always
/// warns that no resume is possible; the last use of a quantised code
/// (one use left) warns with the code; a quantised code with no use, two
/// or three uses left says how many; one with more than three says
/// nothing; an unverified permanent code warns that it will be refused,
/// a verified one says nothing. The file size only decides whether the
/// size in MiB (above 500 MiB) is added to the first two warnings.
pub proof fn each_code_gets_its_notice(t: StoredToken, total_size: u64)
    ensures
        t.token_type == StoredTokenType::TNo ==> notice_for(t, total_size) == Some(
            ResumeNotice::TemporaryCode { large_mb: large_mb(total_size) },
        ),
        t.token_type == (StoredTokenType::QNo { remaining: 1 }) ==> notice_for(t, total_size) == Some(
            ResumeNotice::LastUse { code: t.code, large_mb: large_mb(total_size) },
        ),
        forall|r: u32|
            (r == 0 || r == 2 || r == 3) && t.token_type == (StoredTokenType::QNo { remaining: r })
                ==> notice_for(t, total_size) == Some(ResumeNotice::FewUsesLeft { remaining: r }),
        forall|r: u32| r > 3 && t.token_type == (StoredTokenType::QNo { remaining: r }) ==> notice_for(t, total_size) is None,
        t.token_type == (StoredTokenType::PNo { verified: false }) ==> notice_for(t, total_size) == Some(
            ResumeNotice::UnverifiedPermanent,
        ),
        t.token_type == (StoredTokenType::PNo { verified: true }) ==> notice_for(t, total_size) is None,
        large_mb(total_size) == (if total_size / 1048576 > 500 {
            Some((total_size / 1048576) as u64)
        } else {
            None
        }),
{
}

/// No stored code's notice is lost or invented: every stored code that
/// calls for a notice has it among the notices, and there are never more
/// notices than stored codes.
pub proof fn every_needed_notice_is_shown(tokens: Seq<StoredToken>, total_size: u64, i: int)
    requires
        0 <= i < tokens.len(),
    ensures
        notice_for(tokens[i], total_size) matches Some(n) ==> notices_for(tokens, total_size).contains(n),
        notices_for(tokens, total_size).len() <= tokens.len(),
    decreases tokens.len(),
{
    let rest = tokens.drop_last();
    if i < tokens.len() - 1 {
        assert(rest[i] == tokens[i]);
        every_needed_notice_is_shown(rest, total_size, i);
        if let Some(n) = notice_for(tokens[i], total_size) {
            let k = choose|k: int| 0 <= k < notices_for(rest, total_size).len() && notices_for(rest, total_size)[k] == n;
            assert(notices_for(tokens, total_size)[k] == n);
        }
    } else {
        if tokens.len() > 1 {
            every_needed_notice_is_shown(rest, total_size, 0);
        }
        if let Some(n) = notice_for(tokens[i], total_size) {
            assert(notices_for(tokens, total_size).last() == n);
        }
    }
}

/// Two notice lists that agree notice by notice.
pub open spec fn same_notices(a: Seq<ResumeNotice>, b: Seq<ResumeNotice>) -> bool {
    a.len() == b.len() && forall|i: int| 0 <= i < a.len() ==> same_notice(#[trigger] a[i], b[i])
}

fn large_mb_of(total_size: u64) -> (l: Option<u64>)
    ensures
        l == large_mb(total_size),
{
    let mb = size_mb(total_size);
    if mb > LARGE_FILE_MB {
        Some(mb)
    } else {
        None
    }
}

fn notice_of(t: &StoredToken, total_size: u64) -> (n: Option<ResumeNotice>)
    ensures
        match (n, notice_for(*t, total_size)) {
            (Some(a), Some(b)) => same_notice(a, b),
            (None, None) => true,
            _ => false,
        },
{
    match t.token_type {
        StoredTokenType::QNo { remaining } => {
            if remaining == 1 {
                Some(ResumeNotice::LastUse { code: t.code.clone(), large_mb: large_mb_of(total_size) })
            } else if remaining <= 3 {
                Some(ResumeNotice::FewUsesLeft { remaining })
            } else {
                None
            }
        },
        StoredTokenType::PNo { verified } => {
            if !verified {
                Some(ResumeNotice::UnverifiedPermanent)
            } else {
                None
            }
        },
        StoredTokenType::TNo => Some(ResumeNotice::TemporaryCode { large_mb: large_mb_of(total_size) }),
    }
}

/// The warnings to show before sending a file of `total_size` bytes, given
/// the stored codes: with none stored, the temporary-code warning; else one
/// notice per stored code that needs one, in store order.
pub fn resume_notices(total_size: u64, tokens: &Vec<StoredToken>) -> (out: Vec<ResumeNotice>)
    ensures
        tokens@.len() == 0 ==> out@.len() == 1 && same_notice(
            out@[0],
            ResumeNotice::NoStoredCode { large_mb: large_mb(total_size) },
        ),
        tokens@.len() > 0 ==> same_notices(out@, notices_for(tokens@, total_size)),
{
    let mut out: Vec<ResumeNotice> = Vec::new();
    if tokens.len() == 0 {
        out.push(ResumeNotice::NoStoredCode { large_mb: large_mb_of(total_size) });
        return out;
    }
    let mut i: usize = 0;
    while i < tokens.len()
        invariant
            i <= tokens@.len(),
            same_notices(out@, notices_for(tokens@.take(i as int), total_size)),
        decreases tokens@.len() - i,
    {
        let ghost before = out@;
        let n = notice_of(&tokens[i], total_size);
        proof {
            assert(tokens@.take(i + 1).drop_last() == tokens@.take(i as int));
            assert(tokens@.take(i + 1).last() == tokens@[i as int]);
        }
        match n {
            Some(x) => {
                out.push(x);
            },
            None => {},
        }
        i = i + 1;
        proof {
            let want = notices_for(tokens@.take(i as int), total_size);
            let prev = notices_for(tokens@.take(i - 1), total_size);
            assert forall|k: int| 0 <= k < out@.len() implies same_notice(#[trigger] out@[k], want[k]) by {
                if k < before.len() {
                    assert(out@[k] == before[k]);
                    assert(want[k] == prev[k]);
                }
            }
        }
    }
    assert(tokens@.take(tokens@.len() as int) == tokens@);
    out
}

} // verus!
