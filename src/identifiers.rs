//! The enclave and shard a client addresses, from their base58 text.
use vstd::prelude::*;
use base58::FromBase58;
use vstd::string::StringSliceAdditionalSpecFns;
use crate::stf::ShardIdentifier;

verus! {

/// The bytes that `base58::FromBase58` decodes from a text, or `None` where it refuses it.
pub uninterp spec fn base58_decoded_of(s: Seq<char>) -> Option<Seq<u8>>;

/// Why the identifiers could not be read.
#[derive(Clone, Copy, Debug, PartialEq, Eq, Structural)]
pub enum IdentifierError {
    /// No enclave identity was given.
    MissingMrenclave,
    /// The enclave identity is not base58 text of 32 bytes.
    InvalidMrenclave,
    /// The shard is not base58 text of 32 bytes.
    InvalidShard,
}

/// Relies on base58's `FromBase58::from_base58` for `str`: the decoded bytes depend on the
/// text alone; an error where it is not base58. It decodes into a 132-byte buffer and
/// subtracts the count of leading '1's from that buffer's leading zeros, which cannot
/// underflow for text of at most 132 bytes.
#[verifier::external_body]
fn from_base58(s: &str) -> (r: Option<Vec<u8>>)
    requires
        vstd::utf8::encode_utf8(s@).len() <= 132,
    ensures
        r matches Some(v) ==> base58_decoded_of(s@) == Some(v@),
        r is None ==> base58_decoded_of(s@) is None,
{
    s.from_base58().ok()
}

/// Base58 text of 32 bytes has at most 44 characters; longer text is refused unread.
pub const MAX_ID_TEXT_LEN: usize = 44;

/// The 32 bytes that `s` encodes, where it encodes exactly 32 and is at most 44 bytes long.
pub open spec fn id32_spec(s: Seq<char>) -> Option<Seq<u8>> {
    if vstd::utf8::encode_utf8(s).len() > MAX_ID_TEXT_LEN {
        None
    } else {
        match base58_decoded_of(s) {
            Some(b) => if b.len() == 32 {
                Some(b)
            } else {
                None
            },
            None => None,
        }
    }
}

fn id32(s: &str) -> (r: Option<[u8; 32]>)
    ensures
        r matches Some(a) ==> id32_spec(s@) == Some(a@),
        r is None ==> id32_spec(s@) is None,
{
    let n = s.as_bytes().len();
    assert(n as int == s.spec_bytes().len());
    if n > MAX_ID_TEXT_LEN {
        return None;
    }
    match from_base58(s) {
        None => None,
        Some(b) => {
            if b.len() != 32 {
                return None;
            }
            let mut a = [0u8; 32];
            let mut i: usize = 0;
            while i < 32
                invariant
                    i <= 32,
                    b@.len() == 32,
                    forall|j: int| 0 <= j < i ==> a@[j] == b@[j],
                decreases 32 - i,
            {
                a[i] = b[i];
                i = i + 1;
            }
            assert(a@ =~= b@);
            Some(a)
        },
    }
}

/// The enclave identity and the shard: the shard given, or by default the enclave's own.
pub fn get_identifiers(mrenclave: Option<&str>, shard: Option<&str>) -> (r: Result<
    ([u8; 32], ShardIdentifier),
    IdentifierError,
>)
    ensures
        mrenclave is None ==> r == Err::<([u8; 32], ShardIdentifier), IdentifierError>(
            IdentifierError::MissingMrenclave,
        ),
        mrenclave matches Some(m) ==> match id32_spec(m@) {
            None => r == Err::<([u8; 32], ShardIdentifier), IdentifierError>(
                IdentifierError::InvalidMrenclave,
            ),
            Some(mb) => match shard {
                None => r matches Ok((e, s)) && e@ == mb && s@ == mb,
                Some(sh) => match id32_spec(sh@) {
                    None => r == Err::<([u8; 32], ShardIdentifier), IdentifierError>(
                        IdentifierError::InvalidShard,
                    ),
                    Some(sb) => r matches Ok((e, s)) && e@ == mb && s@ == sb,
                },
            },
        },
{
    let m = match mrenclave {
        None => {
            return Err(IdentifierError::MissingMrenclave);
        },
        Some(m) => m,
    };
    let enclave = match id32(m) {
        None => {
            return Err(IdentifierError::InvalidMrenclave);
        },
        Some(a) => a,
    };
    match shard {
        None => Ok((enclave, enclave)),
        Some(sh) => match id32(sh) {
            None => Err(IdentifierError::InvalidShard),
            Some(s) => Ok((enclave, s)),
        },
    }
}

} // verus!
