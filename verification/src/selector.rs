//! The closed set of modes and the tokens that select them.

use vstd::prelude::*;
use vstd::string::StrSliceExecFns;
use crate::block::padded_len;
use crate::failure::Failure;

verus! {

/// A mode of operation.
#[derive(Clone, Copy, Debug, PartialEq, Eq, Structural)]
pub enum Mode {
    /// Electronic codebook.
    Ecb,
    /// Cipher block chaining.
    Cbc,
    /// Cipher feedback, full block.
    Cfb,
    /// Counter.
    Ctr,
}

/// The mode that `token` selects, if any. The four tokens are `ECB`, `CBC`,
/// `CFB` and `CTR`, matched exactly and in upper case.
pub open spec fn mode_named(token: Seq<char>) -> Option<Mode> {
    if token =~= seq!['E', 'C', 'B'] {
        Some(Mode::Ecb)
    } else if token =~= seq!['C', 'B', 'C'] {
        Some(Mode::Cbc)
    } else if token =~= seq!['C', 'F', 'B'] {
        Some(Mode::Cfb)
    } else if token =~= seq!['C', 'T', 'R'] {
        Some(Mode::Ctr)
    } else {
        None
    }
}

impl Mode {
    /// Whether the mode starts from an initialization vector that is drawn
    /// afresh for every message. ECB has none and CTR derives its nonce.
    pub open spec fn draws_iv(self) -> bool {
        self == Mode::Cbc || self == Mode::Cfb
    }

    /// The length of the ciphertext of `n` bytes: `n` itself in counter
    /// mode, `n` rounded up to whole blocks in the padding modes.
    pub open spec fn output_len(self, n: nat) -> nat {
        if self == Mode::Ctr {
            n
        } else {
            padded_len(n)
        }
    }

    /// Reads a mode token. Anything but the four known tokens is a
    /// configuration failure.
    pub fn from_token(token: &str) -> (r: Result<Mode, Failure>)
        ensures
            r == match mode_named(token@) {
                Some(mode) => Ok::<Mode, Failure>(mode),
                None => Err::<Mode, Failure>(Failure::Config),
            },
    {
        if token.unicode_len() != 3 {
            return Err(Failure::Config);
        }
        let a = token.get_char(0);
        let b = token.get_char(1);
        let c = token.get_char(2);
        assert(token@ =~= seq![a, b, c]);
        if a == 'E' && b == 'C' && c == 'B' {
            Ok(Mode::Ecb)
        } else if a == 'C' && b == 'B' && c == 'C' {
            Ok(Mode::Cbc)
        } else if a == 'C' && b == 'F' && c == 'B' {
            Ok(Mode::Cfb)
        } else if a == 'C' && b == 'T' && c == 'R' {
            Ok(Mode::Ctr)
        } else {
            Err(Failure::Config)
        }
    }
}

} // verus!
