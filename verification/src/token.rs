//! Connection codes and the access policy each kind of code carries.

use vstd::prelude::*;
use rand::Rng;
use crate::text::{decimal, zero_pad, push_decimal, push_all};

verus! {

/// The kind of access a code grants.
#[derive(Clone, Copy, Debug, PartialEq, Eq, Structural)]
pub enum TokenType {
    /// Temporary: one session, then gone.
    TNo,
    /// Quantised: expires after `remaining` more connections.
    QNo { remaining: u32 },
    /// Permanent: kept until revoked; must be verified before first use.
    PNo,
}

/// The kind of code asked for by `--uses N` / `--permanent`.
pub open spec fn requested_type(uses: Option<u32>, permanent: bool) -> TokenType {
    if permanent {
        TokenType::PNo
    } else {
        match uses {
            Some(n) => TokenType::QNo { remaining: n },
            None => TokenType::TNo,
        }
    }
}

/// The label of a kind of code.
pub open spec fn type_label_spec(t: TokenType) -> Seq<char> {
    match t {
        TokenType::TNo => "T-No"@,
        TokenType::QNo { .. } => "Q-No"@,
        TokenType::PNo => "P-No"@,
    }
}

/// Text that names a kind of code (what `Display` writes for it).
pub open spec fn type_text(t: TokenType) -> Seq<char> {
    match t {
        TokenType::TNo => "T-No"@,
        TokenType::QNo { remaining } => "Q-No ("@ + decimal(remaining as nat) + "x remaining)"@,
        TokenType::PNo => "P-No"@,
    }
}

impl TokenType {
    /// `T-No`, `Q-No (Nx remaining)` or `P-No`.
    pub fn display_text(&self) -> (s: String)
        ensures
            s@ == type_text(*self),
    {
        let mut s = String::new();
        match self {
            TokenType::TNo => push_all(&mut s, "T-No"),
            TokenType::QNo { remaining } => {
                push_all(&mut s, "Q-No (");
                push_decimal(&mut s, *remaining as u64);
                push_all(&mut s, "x remaining)");
            },
            TokenType::PNo => push_all(&mut s, "P-No"),
        }
        proof {
            reveal_strlit("T-No");
        }
        s
    }
}

/// A generated connection code and its kind.
#[derive(Debug)]
pub struct Token {
    pub code: String,
    pub token_type: TokenType,
}

impl Clone for Token {
    fn clone(&self) -> (r: Self)
        ensures
            r == *self,
    {
        Token { code: self.code.clone(), token_type: self.token_type }
    }
}

/// Lowest and one past the highest number a random code is drawn from.
pub const CODE_LOW: u32 = 1000;
pub const CODE_HIGH: u32 = 9999;

/// Draws a number with `rand::thread_rng().gen_range(low..high)`. The
/// contract claims only the range that `gen_range` documents: `low`
/// included, `high` excluded; an empty range (which panics) is ruled out.
#[verifier::external_body]
fn random_in_range(low: u32, high: u32) -> (n: u32)
    requires
        low < high,
    ensures
        low <= n < high,
{
    rand::thread_rng().gen_range(low..high)
}

/// The text of code number `n`: at least four digits, zero-padded.
pub open spec fn code_text(n: nat) -> Seq<char> {
    zero_pad(decimal(n), 4)
}

impl Token {
    /// A token of the requested kind for code number `n`.
    pub fn with_code_number(n: u32, uses: Option<u32>, permanent: bool) -> (t: Token)
        ensures
            t.code@ == code_text(n as nat),
            t.token_type == requested_type(uses, permanent),
    {
        let mut digits = String::new();
        push_decimal(&mut digits, n as u64);
        let mut code = String::new();
        let mut k: usize = if n < 10 { 3 } else if n < 100 { 2 } else if n < 1000 { 1 } else { 0 };
        proof {
            lemma_decimal_len(n as nat);
            assert(digits@ =~= decimal(n as nat));
        }
        let ghost pad = k;
        while k > 0
            invariant
                k <= pad <= 3,
                code@ == Seq::new((pad - k) as nat, |i: int| '0'),
            decreases k,
        {
            code.push('0');
            k = k - 1;
            assert(code@ =~= Seq::new((pad - k) as nat, |i: int| '0'));
        }
        let mut i: usize = 0;
        let d = crate::text::chars_of(digits.as_str());
        while i < d.len()
            invariant
                i <= d@.len(),
                d@ == decimal(n as nat),
                code@ == Seq::new(pad as nat, |j: int| '0') + d@.take(i as int),
            decreases d@.len() - i,
        {
            code.push(d[i]);
            i = i + 1;
            assert(d@.take(i as int) == d@.take(i - 1).push(d@[i - 1]));
            assert(code@ =~= Seq::new(pad as nat, |j: int| '0') + d@.take(i as int));
        }
        proof {
            assert(d@.take(d@.len() as int) == d@);
            if pad == 0 {
                assert(code@ =~= decimal(n as nat));
            }
        }
        let token_type = if permanent {
            TokenType::PNo
        } else {
            match uses {
                Some(r) => TokenType::QNo { remaining: r },
                None => TokenType::TNo,
            }
        };
        Token { code, token_type }
    }

    /// A new token with a random four-digit code.
    pub fn generate(uses: Option<u32>, permanent: bool) -> (t: Token)
        ensures
            exists|n: nat| CODE_LOW <= n < CODE_HIGH && t.code@ == code_text(n),
            t.token_type == requested_type(uses, permanent),
    {
        let n = random_in_range(CODE_LOW, CODE_HIGH);
        let t = Token::with_code_number(n, uses, permanent);
        assert(CODE_LOW <= n as nat && (n as nat) < CODE_HIGH && t.code@ == code_text(n as nat));
        t
    }

    /// Whether this token still allows a connection.
    pub fn can_connect(&self) -> (b: bool)
        ensures
            b == match self.token_type {
                TokenType::QNo { remaining } => remaining > 0,
                _ => true,
            },
    {
        match &self.token_type {
            TokenType::TNo => true,
            TokenType::QNo { remaining } => *remaining > 0,
            TokenType::PNo => true,
        }
    }

    /// `T-No`, `Q-No` or `P-No`.
    pub fn display_label(&self) -> (s: &'static str)
        ensures
            s@ == type_label_spec(self.token_type),
    {
        match &self.token_type {
            TokenType::TNo => "T-No",
            TokenType::QNo { .. } => "Q-No",
            TokenType::PNo => "P-No",
        }
    }
}

/// Number of digits of `n`.
proof fn lemma_decimal_len(n: nat)
    ensures
        n < 10 ==> decimal(n).len() == 1,
        10 <= n < 100 ==> decimal(n).len() == 2,
        100 <= n < 1000 ==> decimal(n).len() == 3,
        n >= 1000 ==> decimal(n).len() >= 4,
    decreases n,
{
    if n >= 10 {
        lemma_decimal_len(n / 10);
    }
}

} // verus!
