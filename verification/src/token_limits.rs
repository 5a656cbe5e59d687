use crate::errors::{WalletError, WalletResult};
use vstd::prelude::*;

verus! {

/// The share of an available balance that one approved transfer may withdraw.
#[derive(Debug, Clone, Copy, PartialEq, Eq, PartialOrd, Ord, Structural)]
pub enum TokenLimit {
    Third,
    Quarter,
    Half,
    TwoThirds,
    All,
}

impl TokenLimit {
    /// The byte that stands for this limit on the wire.
    pub open spec fn wire_code(self) -> u8 {
        match self {
            TokenLimit::Third => 0,
            TokenLimit::Quarter => 1,
            TokenLimit::Half => 2,
            TokenLimit::TwoThirds => 3,
            TokenLimit::All => 4,
        }
    }

    /// The limit that a wire byte stands for, if any.
    pub open spec fn from_wire_code(code: u8) -> Option<TokenLimit> {
        if code == 0 {
            Some(TokenLimit::Third)
        } else if code == 1 {
            Some(TokenLimit::Quarter)
        } else if code == 2 {
            Some(TokenLimit::Half)
        } else if code == 3 {
            Some(TokenLimit::TwoThirds)
        } else if code == 4 {
            Some(TokenLimit::All)
        } else {
            None
        }
    }

    /// Numerator of the fraction of the balance that may be withdrawn.
    pub open spec fn numerator(self) -> int {
        match self {
            TokenLimit::TwoThirds => 2,
            _ => 1,
        }
    }

    /// Denominator of the fraction of the balance that may be withdrawn.
    pub open spec fn denominator(self) -> int {
        match self {
            TokenLimit::Third => 3,
            TokenLimit::Quarter => 4,
            TokenLimit::Half => 2,
            TokenLimit::TwoThirds => 3,
            TokenLimit::All => 1,
        }
    }

    /// The withdrawal ceiling: the least whole number of tokens that is not
    /// below `available * numerator / denominator`.
    pub open spec fn allotment(self, available: int) -> int {
        (available * self.numerator() + self.denominator() - 1) / self.denominator()
    }

    /// Encodes the limit as its wire byte.
    pub fn pack(&self) -> (code: u8)
        ensures
            code == self.wire_code(),
    {
        match self {
            TokenLimit::Third => 0,
            TokenLimit::Quarter => 1,
            TokenLimit::Half => 2,
            TokenLimit::TwoThirds => 3,
            TokenLimit::All => 4,
        }
    }

    /// Decodes a wire byte; any byte that is no wire code is refused.
    pub fn unpack(value: u8) -> (decoded: WalletResult<TokenLimit>)
        ensures
            match Self::from_wire_code(value) {
                Some(limit) => decoded == Ok::<TokenLimit, WalletError>(limit),
                None => decoded == Err::<TokenLimit, WalletError>(
                    WalletError::TokenLimitNotApplicable,
                ),
            },
    {
        match value {
            0 => Ok(TokenLimit::Third),
            1 => Ok(TokenLimit::Quarter),
            2 => Ok(TokenLimit::Half),
            3 => Ok(TokenLimit::TwoThirds),
            4 => Ok(TokenLimit::All),
            _ => Err(WalletError::TokenLimitNotApplicable),
        }
    }

    /// The most that may be withdrawn from `tokens_available`, rounded up to
    /// a whole token. The arithmetic is exact for every balance.
    pub fn calculate_token(&self, tokens_available: u64) -> (allotment: u64)
        ensures
            allotment == self.allotment(tokens_available as int),
    {
        match self {
            TokenLimit::Third => tokens_available / 3 + if tokens_available % 3 == 0 {
                0
            } else {
                1
            },
            TokenLimit::Quarter => tokens_available / 4 + if tokens_available % 4 == 0 {
                0
            } else {
                1
            },
            TokenLimit::Half => tokens_available / 2 + tokens_available % 2,
            TokenLimit::TwoThirds => tokens_available - tokens_available / 3,
            TokenLimit::All => tokens_available,
        }
    }
}

impl Default for TokenLimit {
    fn default() -> (limit: Self)
        ensures
            limit == TokenLimit::Third,
    {
        TokenLimit::Third
    }
}

/// Packing a limit and unpacking the byte gives the limit back, and the wire
/// codes are exactly the bytes 0 to 4.
pub proof fn lemma_wire_code_round_trip(limit: TokenLimit, code: u8)
    ensures
        TokenLimit::from_wire_code(limit.wire_code()) == Some(limit),
        limit.wire_code() <= 4,
        TokenLimit::from_wire_code(code) is Some <==> code <= 4,
        TokenLimit::from_wire_code(code) matches Some(l) ==> l.wire_code() == code,
{
}

/// The allotment is the least whole number of tokens that is not below the
/// limit's fraction of the balance, and never more than the balance.
pub proof fn lemma_allotment_is_ceiling(limit: TokenLimit, available: nat)
    ensures
        limit.allotment(available as int) * limit.denominator() >= available
            * limit.numerator(),
        (limit.allotment(available as int) - 1) * limit.denominator() < available
            * limit.numerator(),
        0 <= limit.allotment(available as int) <= available,
{
    let share = available * limit.numerator();
    let parts = limit.denominator();
    let allotment = limit.allotment(available as int);
    assert(share == available || share == 2 * available) by (nonlinear_arith)
        requires
            share == available * limit.numerator(),
            limit.numerator() == 1 || limit.numerator() == 2,
    ;
    assert(allotment * parts >= share && (allotment - 1) * parts < share) by (nonlinear_arith)
        requires
            allotment == (share + parts - 1) / parts,
            1 <= parts <= 4,
    ;
}

} // verus!
