//! Requests to compile pages, and the keys by which compiled pages are found again.
use hex::FromHexError;
use sha2::{Digest, Sha256};
use vstd::prelude::*;

verus! {

/// The number of requests that can wait.
pub const MAX_REQUESTS: usize = 4096;

/// The number of bytes that compiled pages may take.
pub const MAX_CACHE_SIZE: u64 = 0x4000_0000;

/// A digest of what a page was compiled from.
#[derive(Copy, Clone, Debug)]
pub struct HashKey(pub [u8; 32]);

/// What becomes of a request.
#[derive(Copy, Clone, Debug, PartialEq, Eq, Structural)]
pub enum RequestAction {
    /// The page was compiled before.
    SendCached,
    /// The page is not among those that may be compiled.
    Skip,
    Compile,
}

/// The SHA-256 digest of some bytes.
pub uninterp spec fn sha256_of(data: Seq<u8>) -> Seq<u8>;

/// Calls `sha2::Sha256::digest`. The result is the digest of the bytes.
#[verifier::external_body]
fn sha256(data: &Vec<u8>) -> (r: [u8; 32])
    ensures
        r@ == sha256_of(data@),
{
    Sha256::digest(data).into()
}

#[verifier::external_type_specification]
#[verifier::external_body]
pub struct ExFromHexError(FromHexError);

/// The value of a hexadecimal digit.
pub open spec fn digit_value(c: char) -> Option<int> {
    if '0' <= c && c <= '9' {
        Some(c as u32 - '0' as u32)
    } else if 'a' <= c && c <= 'f' {
        Some(c as u32 - 'a' as u32 + 10)
    } else if 'A' <= c && c <= 'F' {
        Some(c as u32 - 'A' as u32 + 10)
    } else {
        None
    }
}

/// Whether a text consists of pairs of hexadecimal digits.
pub open spec fn is_hex(text: Seq<char>) -> bool {
    &&& text.len() % 2 == 0
    &&& forall|i: int| 0 <= i < text.len() ==> digit_value(#[trigger] text[i]) is Some
}

/// The bytes that pairs of hexadecimal digits stand for.
pub open spec fn hex_bytes(text: Seq<char>) -> Seq<u8> {
    Seq::new(
        text.len() / 2,
        |i: int|
            (digit_value(text[2 * i])->Some_0 * 16 + digit_value(text[2 * i + 1])->Some_0) as u8,
    )
}

/// Calls `hex::decode`. Pairs of hexadecimal digits, in either case, become bytes. Anything else is
/// refused.
#[verifier::external_body]
fn hex_decode(text: &str) -> (r: Result<Vec<u8>, FromHexError>)
    ensures
        r is Ok <==> is_hex(text@),
        r matches Ok(bytes) ==> bytes@ == hex_bytes(text@),
{
    hex::decode(text)
}

impl HashKey {
    pub open spec fn view(&self) -> Seq<u8> {
        self.0@
    }

    /// The key of a request, from the bytes of its instructions.
    pub fn of(data: &Vec<u8>) -> (r: HashKey)
        ensures
            r@ == sha256_of(data@),
    {
        HashKey(sha256(data))
    }

    /// Reads a key that is written in hexadecimal digits.
    pub fn parse(text: &str) -> (r: Option<HashKey>)
        ensures
            r is Some <==> is_hex(text@) && text@.len() == 64,
            r matches Some(key) ==> key@ == hex_bytes(text@),
    {
        match hex_decode(text) {
            Ok(bytes) => {
                if bytes.len() != 32 {
                    return None;
                }
                let mut key: [u8; 32] = [0u8;32];
                let mut i: usize = 0;
                while i < 32
                    invariant
                        i <= 32,
                        bytes.len() == 32,
                        forall|k: int| 0 <= k < i ==> #[trigger] key[k] == bytes[k],
                    decreases 32 - i,
                {
                    key[i] = bytes[i];
                    i += 1;
                }
                assert(key@ =~= bytes@);
                Some(HashKey(key))
            },
            Err(_) => None,
        }
    }

    /// Whether two keys are equal.
    pub fn same(&self, other: &HashKey) -> (r: bool)
        ensures
            r == (self@ == other@),
    {
        let mut i: usize = 0;
        while i < 32
            invariant
                i <= 32,
                forall|k: int| 0 <= k < i ==> #[trigger] self.0[k] == other.0[k],
            decreases 32 - i,
        {
            if self.0[i] != other.0[i] {
                assert(self@[i as int] != other@[i as int]);
                return false;
            }
            i += 1;
        }
        assert(self@ =~= other@);
        true
    }
}

/// Whether a key is in a list.
pub open spec fn lists_key(keys: Seq<HashKey>, key: HashKey) -> bool {
    exists|i: int| 0 <= i < keys.len() && (#[trigger] keys[i])@ == key@
}

/// What becomes of a request with a key. Where a list of allowed keys is given, only these are
/// compiled.
pub fn request_action(key: &HashKey, cached: bool, allowed: &Option<Vec<HashKey>>) -> (r:
    RequestAction)
    ensures
        r == if cached {
            RequestAction::SendCached
        } else if allowed is Some && !lists_key(allowed->Some_0@, *key) {
            RequestAction::Skip
        } else {
            RequestAction::Compile
        },
{
    if cached {
        return RequestAction::SendCached;
    }
    match allowed {
        Some(keys) => {
            let mut i: usize = 0;
            while i < keys.len()
                invariant
                    !cached,
                    *allowed == Some(*keys),
                    i <= keys.len(),
                    forall|k: int| 0 <= k < i ==> (#[trigger] keys[k])@ != key@,
                decreases keys.len() - i,
            {
                if keys[i].same(key) {
                    assert(keys@[i as int]@ == key@);
                    return RequestAction::Compile;
                }
                i += 1;
            }
            RequestAction::Skip
        },
        None => RequestAction::Compile,
    }
}

/// Whether compiled pages of these sizes fit into the cache.
pub fn cache_fits(sizes: &Vec<u64>) -> (r: bool)
    ensures
        r == (total(sizes@) <= MAX_CACHE_SIZE),
{
    let mut sum: u64 = 0;
    let mut i: usize = 0;
    while i < sizes.len()
        invariant
            i <= sizes.len(),
            sum == total(sizes@.take(i as int)),
            sum <= MAX_CACHE_SIZE,
        decreases sizes.len() - i,
    {
        assert(sizes@.take(i + 1).drop_last() =~= sizes@.take(i as int));
        assert(sizes@.take(sizes.len() as int) =~= sizes@);
        if sizes[i] > MAX_CACHE_SIZE - sum {
            proof {
                lemma_total_grows(sizes@, i + 1);
            }
            return false;
        }
        sum += sizes[i];
        i += 1;
    }
    assert(sizes@.take(i as int) =~= sizes@);
    true
}

/// The sum of sizes.
pub open spec fn total(sizes: Seq<u64>) -> int
    decreases sizes.len(),
{
    if sizes.len() == 0 {
        0
    } else {
        total(sizes.drop_last()) + sizes.last()
    }
}

proof fn lemma_total_grows(sizes: Seq<u64>, n: int)
    requires
        0 <= n <= sizes.len(),
    ensures
        total(sizes.take(n)) <= total(sizes),
    decreases sizes.len() - n,
{
    if n < sizes.len() {
        lemma_total_grows(sizes, n + 1);
        assert(sizes.take(n + 1).drop_last() =~= sizes.take(n));
    } else {
        assert(sizes.take(n) =~= sizes);
    }
}

} // verus!
