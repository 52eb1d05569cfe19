use vstd::prelude::*;

use vstd::utf8::encode_utf8;

use crate::utils::{join_path, joined};

verus! {

/// How long before a token expires it is renewed, in milliseconds.
pub const RENEW_AHEAD_MS: u64 = 600000;

/// The first wait after a failed renewal, in milliseconds.
pub const RETRY_DELAY_MIN_MS: u64 = 1000;

/// The longest wait after failed renewals, in milliseconds.
pub const RETRY_DELAY_MAX_MS: u64 = 60000;

/// The wait before renewing a token that lives `ttl` milliseconds: ten
/// minutes before it expires, but never before half its life.
pub open spec fn refresh_delay_spec(ttl: u64) -> int {
    let ahead = ttl as int - RENEW_AHEAD_MS as int;
    let half = ttl as int / 2;
    if ahead > half {
        ahead
    } else {
        half
    }
}

/// See `refresh_delay_spec`.
pub fn refresh_delay(ttl: u64) -> (r: u64)
    ensures
        r as int == refresh_delay_spec(ttl),
{
    let half = ttl / 2;
    if ttl > RENEW_AHEAD_MS && ttl - RENEW_AHEAD_MS > half {
        ttl - RENEW_AHEAD_MS
    } else {
        half
    }
}

/// The digits of base sixteen, lower case.
pub open spec fn hex_digits() -> Seq<char> {
    seq!['0', '1', '2', '3', '4', '5', '6', '7', '8', '9', 'a', 'b', 'c', 'd', 'e', 'f']
}

/// Each byte as two lower-case hex digits, the high one first.
pub open spec fn hex_of(b: Seq<u8>) -> Seq<char>
    decreases b.len(),
{
    if b.len() == 0 {
        Seq::empty()
    } else {
        hex_of(b.drop_last()) + seq![
            hex_digits()[b.last() as int / 16],
            hex_digits()[b.last() as int % 16],
        ]
    }
}

/// Relies on `hex::encode`: two lower-case digits per byte, high nibble first.
#[verifier::external_body]
fn hex_encode(b: &[u8]) -> (r: String)
    ensures
        r@ == hex_of(b@),
{
    hex::encode(b)
}

/// The HMAC-SHA256 tag of the UTF-8 bytes of `message` under the UTF-8 bytes
/// of `key`.
pub uninterp spec fn hmac_sha256_of(key: Seq<char>, message: Seq<char>) -> Seq<u8>;

/// The UTF-8 encoding of the text is shorter than 2^60 bytes, well inside
/// what the digest accepts.
pub open spec fn fits_digest(s: Seq<char>) -> bool {
    encode_utf8(s).len() < 0x1000_0000_0000_0000
}

/// Relies on `ring::hmac::sign` with a `ring::hmac::Key` for `HMAC_SHA256`:
/// the tag is a function of key and message, 32 bytes long. Inputs near
/// 2^61 bytes make ring panic and are left out.
#[verifier::external_body]
fn hmac_sha256(key: &str, message: &str) -> (r: Vec<u8>)
    requires
        fits_digest(key@),
        fits_digest(message@),
    ensures
        r@ == hmac_sha256_of(key@, message@),
        r@.len() == 32,
{
    let k = ring::hmac::Key::new(ring::hmac::HMAC_SHA256, key.as_bytes());
    ring::hmac::sign(&k, message.as_bytes()).as_ref().to_vec()
}

/// The signature that proves knowledge of `secret` for `challenge`.
pub open spec fn signature_of(secret: Seq<char>, challenge: Seq<char>) -> Seq<char> {
    hex_of(hmac_sha256_of(secret, challenge))
}

/// The body of a first token request.
#[derive(Clone, Debug)]
pub struct TokenRequest {
    pub cluster_id: String,
    pub challenge: String,
    pub signature: String,
}

/// The body of a renewal request.
#[derive(Clone, Debug)]
pub struct RenewalRequest {
    pub cluster_id: String,
    pub token: String,
}

/// The path of the hub's challenge endpoint (the cluster id goes in the
/// `clusterId` query parameter).
pub open spec fn challenge_path() -> Seq<char> {
    seq![
        '/', 'o', 'p', 'e', 'n', 'b', 'm', 'c', 'l', 'a', 'p', 'i', '-', 'a', 'g', 'e', 'n', 't',
        '/', 'c', 'h', 'a', 'l', 'l', 'e', 'n', 'g', 'e',
    ]
}

/// The path of the hub's token endpoint.
pub open spec fn token_path() -> Seq<char> {
    seq![
        '/', 'o', 'p', 'e', 'n', 'b', 'm', 'c', 'l', 'a', 'p', 'i', '-', 'a', 'g', 'e', 'n', 't',
        '/', 't', 'o', 'k', 'e', 'n',
    ]
}

/// The credential of the cluster: its identity, the current token, and the
/// wait before the next renewal attempt after a failure.
pub struct TokenManager {
    pub cluster_id: String,
    pub cluster_secret: String,
    pub base_url: String,
    pub token: Option<String>,
    pub retry_delay: u64,
}

impl TokenManager {
    pub open spec fn wf(&self) -> bool {
        RETRY_DELAY_MIN_MS <= self.retry_delay <= RETRY_DELAY_MAX_MS
    }

    /// A manager that holds no token yet.
    pub fn new(cluster_id: String, cluster_secret: String, base_url: String) -> (r: TokenManager)
        ensures
            r.wf(),
            r.cluster_id == cluster_id,
            r.cluster_secret == cluster_secret,
            r.base_url == base_url,
            r.token is None,
            r.retry_delay == RETRY_DELAY_MIN_MS,
    {
        TokenManager { cluster_id, cluster_secret, base_url, token: None, retry_delay: RETRY_DELAY_MIN_MS }
    }

    /// The current token, if one was obtained.
    pub fn get_token(&self) -> (r: Option<String>)
        ensures
            r == self.token,
    {
        match &self.token {
            Some(t) => Some(t.clone()),
            None => None,
        }
    }

    /// Where to ask for a challenge.
    pub fn challenge_url(&self) -> (r: String)
        ensures
            r@ == joined(self.base_url@, challenge_path()),
    {
        proof {
            reveal_strlit("/openbmclapi-agent/challenge");
        }
        join_path(self.base_url.as_str(), "/openbmclapi-agent/challenge")
    }

    /// Where to ask for a token.
    pub fn token_url(&self) -> (r: String)
        ensures
            r@ == joined(self.base_url@, token_path()),
    {
        proof {
            reveal_strlit("/openbmclapi-agent/token");
        }
        join_path(self.base_url.as_str(), "/openbmclapi-agent/token")
    }

    /// The hex-encoded HMAC-SHA256 of `challenge` under the cluster secret.
    pub fn sign_challenge(&self, challenge: &str) -> (r: String)
        requires
            fits_digest(self.cluster_secret@),
            fits_digest(challenge@),
        ensures
            r@ == signature_of(self.cluster_secret@, challenge@),
            r@.len() == 64,
    {
        let tag = hmac_sha256(self.cluster_secret.as_str(), challenge);
        proof {
            lemma_hex_len(tag@);
        }
        hex_encode(tag.as_slice())
    }

    /// The first token request, answering `challenge`.
    pub fn token_request(&self, challenge: String) -> (r: TokenRequest)
        requires
            fits_digest(self.cluster_secret@),
            fits_digest(challenge@),
        ensures
            r.cluster_id@ == self.cluster_id@,
            r.challenge@ == challenge@,
            r.signature@ == signature_of(self.cluster_secret@, challenge@),
    {
        let signature = self.sign_challenge(challenge.as_str());
        TokenRequest { cluster_id: self.cluster_id.clone(), challenge, signature }
    }

    /// The renewal request for the current token; none while there is no token.
    pub fn renewal_request(&self) -> (r: Option<RenewalRequest>)
        ensures
            r is Some <==> self.token is Some,
            r matches Some(q) ==> q.cluster_id@ == self.cluster_id@ && q.token@
                == self.token->0@,
    {
        match &self.token {
            Some(t) => Some(RenewalRequest { cluster_id: self.cluster_id.clone(), token: t.clone() }),
            None => None,
        }
    }

    /// Takes the token the hub granted for `ttl` milliseconds as the current
    /// one, and returns the wait before renewing it.
    pub fn accept_token(&mut self, token: String, ttl: u64) -> (delay: u64)
        requires
            old(self).wf(),
        ensures
            final(self).wf(),
            final(self).token == Some(token),
            final(self).retry_delay == RETRY_DELAY_MIN_MS,
            final(self).cluster_id == old(self).cluster_id,
            final(self).cluster_secret == old(self).cluster_secret,
            final(self).base_url == old(self).base_url,
            delay as int == refresh_delay_spec(ttl),
    {
        self.token = Some(token);
        self.retry_delay = RETRY_DELAY_MIN_MS;
        refresh_delay(ttl)
    }

    /// Notes a failed renewal. The current token is kept; the returned wait
    /// comes before the next attempt, and each failure doubles the wait that
    /// follows, up to a bound.
    pub fn renewal_failed(&mut self) -> (delay: u64)
        requires
            old(self).wf(),
        ensures
            final(self).wf(),
            delay == old(self).retry_delay,
            final(self).retry_delay as int == if 2 * old(self).retry_delay <= RETRY_DELAY_MAX_MS {
                2 * old(self).retry_delay
            } else {
                RETRY_DELAY_MAX_MS as int
            },
            final(self).token == old(self).token,
            final(self).cluster_id == old(self).cluster_id,
            final(self).cluster_secret == old(self).cluster_secret,
            final(self).base_url == old(self).base_url,
    {
        let delay = self.retry_delay;
        self.retry_delay = if delay <= RETRY_DELAY_MAX_MS / 2 {
            delay * 2
        } else {
            RETRY_DELAY_MAX_MS
        };
        delay
    }
}

/// Hex text has two digits per byte.
pub proof fn lemma_hex_len(b: Seq<u8>)
    ensures
        hex_of(b).len() == 2 * b.len(),
    decreases b.len(),
{
    if b.len() > 0 {
        lemma_hex_len(b.drop_last());
    }
}

} // verus!
