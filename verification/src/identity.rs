//! Agent Identity: `did:agent:` identifiers, nonces, signed event envelopes,
//! live-write replay checks and request JWTs.

use vstd::prelude::*;

use crate::codec::{
    base64url_decode, base64url_decoding, base64url_encode, base64url_encoding, json_member_i64, json_member_int,
    json_member_str, json_member_string,
};
use crate::error::{fails_with, ErrorView, Result, SdkError};
use crate::text::{has_prefix, skip_chars, starts_with, str_eq};

verus! {

pub const AGENT_ID_PREFIX: &'static str = "did:agent:";

pub const DEFAULT_LIVE_WRITE_WINDOW_MS: i64 = 300_000;

pub const DEFAULT_NONCE_TTL_MS: i64 = 300_000;

pub const DEFAULT_REQUEST_JWT_TTL_SECS: i64 = 300;

pub const MAX_NONCE_HEADER: &'static str = "Max-Seen-Nonce";

/// Largest nonce accepted: `Number.MAX_SAFE_INTEGER`, so that JavaScript
/// clients can hold every nonce exactly.
pub const MAX_SAFE_NONCE: u64 = 0x1FFFFFFFFFFFFF;

/// An agent identifier: `did:agent:` followed by the unpadded URL-safe base64
/// of a 32-byte Ed25519 public key.
#[derive(Debug, Hash, PartialOrd, Ord)]
pub struct AgentId(String);

impl PartialEq for AgentId {
    fn eq(&self, other: &Self) -> (r: bool) {
        str_eq(self.0.as_str(), other.0.as_str())
    }
}

impl vstd::std_specs::cmp::PartialEqSpecImpl for AgentId {
    open spec fn obeys_eq_spec() -> bool {
        true
    }

    open spec fn eq_spec(&self, other: &Self) -> bool {
        self@ == other@
    }
}

impl Eq for AgentId {
}

impl View for AgentId {
    type V = Seq<char>;

    closed spec fn view(&self) -> Seq<char> {
        self.0@
    }
}

/// The identifier text for a public key.
pub open spec fn agent_id_text(public_key: Seq<u8>) -> Seq<char> {
    AGENT_ID_PREFIX@ + base64url_encoding(public_key)
}

/// What `public_key_bytes` gives for an identifier text.
pub open spec fn agent_key_result(id: Seq<char>) -> core::result::Result<Seq<u8>, SdkError> {
    if !has_prefix(id, AGENT_ID_PREFIX@) {
        Err(SdkError::InvalidAgentIdPrefix)
    } else {
        match base64url_decoding(id.skip(AGENT_ID_PREFIX@.len() as int)) {
            None => Err(SdkError::Base64),
            Some(bytes) => if bytes.len() == 32 {
                Ok(bytes)
            } else {
                Err(SdkError::InvalidPublicKeyLength(bytes.len() as usize))
            },
        }
    }
}

/// An identifier text names a public key.
pub open spec fn valid_agent_id(id: Seq<char>) -> bool {
    agent_key_result(id) is Ok
}

pub proof fn lemma_prefix_len()
    ensures
        AGENT_ID_PREFIX@.len() == 10,
{
    reveal_strlit("did:agent:");
}

/// Reads the public key an identifier text names.
pub fn key_bytes_of(text: &str) -> (res: Result<[u8; 32]>)
    ensures
        match res {
            Ok(key) => agent_key_result(text@) == Ok::<Seq<u8>, SdkError>(key@),
            Err(e) => agent_key_result(text@) == Err::<Seq<u8>, SdkError>(e),
        },
{
    proof {
        lemma_prefix_len();
    }
    if !starts_with(text, AGENT_ID_PREFIX) {
        return Err(SdkError::InvalidAgentIdPrefix);
    }
    let encoded = skip_chars(text, 10);
    match base64url_decode(encoded.as_str()) {
        Err(_) => Err(SdkError::Base64),
        Ok(bytes) => {
            if bytes.len() == 32 {
                Ok(crate::crypto::array32(bytes.as_slice()))
            } else {
                Err(SdkError::InvalidPublicKeyLength(bytes.len()))
            }
        },
    }
}

impl Clone for AgentId {
    fn clone(&self) -> (r: Self)
        ensures
            r@ == self@,
    {
        proof {
            use_type_invariant(self);
        }
        AgentId(self.0.clone())
    }
}

impl AgentId {
    /// The identifier of a public key; reading its key back gives the key.
    pub fn from_public_key(public_key: &[u8; 32]) -> (id: AgentId)
        ensures
            id@ == agent_id_text(public_key@),
            agent_key_result(id@) == Ok::<Seq<u8>, SdkError>(public_key@),
    {
        let mut text = AGENT_ID_PREFIX.to_owned();
        let encoded = base64url_encode(public_key.as_slice());
        text.append(encoded.as_str());
        proof {
            lemma_prefix_len();
            assert(text@.take(10) =~= AGENT_ID_PREFIX@);
            assert(text@.skip(10) =~= encoded@);
        }
        AgentId(text)
    }

    pub fn as_str(&self) -> (s: &str)
        ensures
            s@ == self@,
    {
        self.0.as_str()
    }

    /// Every identifier names a public key.
    #[verifier::type_invariant]
    spec fn names_a_key(self) -> bool {
        valid_agent_id(self.0@)
    }

    /// The public key the identifier names.
    pub fn public_key_bytes(&self) -> (res: Result<[u8; 32]>)
        ensures
            res is Ok,
            match res {
                Ok(key) => agent_key_result(self@) == Ok::<Seq<u8>, SdkError>(key@),
                Err(e) => agent_key_result(self@) == Err::<Seq<u8>, SdkError>(e),
            },
    {
        proof {
            use_type_invariant(self);
        }
        key_bytes_of(self.0.as_str())
    }

    pub fn verifying_key(&self) -> (res: Result<ed25519_dalek::VerifyingKey>)
        ensures
            res is Ok <==> (agent_key_result(self@) matches Ok(key)
                && crate::crypto::ed25519_key_decodes(key)),
            agent_key_result(self@) matches Err(e) ==> res == Err::<ed25519_dalek::VerifyingKey, SdkError>(e),
            (agent_key_result(self@) is Ok && res is Err) ==> res == Err::<ed25519_dalek::VerifyingKey, SdkError>(SdkError::Ed25519),
    {
        let key = self.public_key_bytes()?;
        match crate::crypto::verifying_key_from_bytes(&key) {
            Ok(verifying) => Ok(verifying),
            Err(_) => Err(SdkError::Ed25519),
        }
    }

    /// Reads an identifier: it must start with `did:agent:` and name a
    /// 32-byte public key.
    pub fn parse(value: &str) -> (res: Result<AgentId>)
        ensures
            match res {
                Ok(id) => id@ == value@ && valid_agent_id(value@),
                Err(e) => agent_key_result(value@) == Err::<Seq<u8>, SdkError>(e),
            },
    {
        match key_bytes_of(value) {
            Ok(_) => Ok(AgentId(value.to_owned())),
            Err(e) => Err(e),
        }
    }

    /// Whether two identifiers are the same text.
    pub fn same_as(&self, other: &AgentId) -> (r: bool)
        ensures
            r == (self@ == other@),
    {
        self.0 == other.0
    }
}

impl core::str::FromStr for AgentId {
    type Err = SdkError;

    fn from_str(value: &str) -> (res: Result<AgentId>)
        ensures
            match res {
                Ok(id) => id@ == value@ && valid_agent_id(value@),
                Err(e) => agent_key_result(value@) == Err::<Seq<u8>, SdkError>(e),
            },
    {
        AgentId::parse(value)
    }
}

impl TryFrom<String> for AgentId {
    type Error = SdkError;

    fn try_from(value: String) -> Result<AgentId> {
        match key_bytes_of(value.as_str()) {
            Ok(_) => Ok(AgentId(value)),
            Err(e) => Err(e),
        }
    }
}

impl vstd::std_specs::convert::TryFromSpecImpl<String> for AgentId {
    open spec fn obeys_try_from_spec() -> bool {
        true
    }

    closed spec fn try_from_spec(value: String) -> Result<AgentId> {
        match agent_key_result(value@) {
            Ok(_) => Ok(AgentId(value)),
            Err(e) => Err(e),
        }
    }
}

/// The error of a nonce out of range.
pub open spec fn nonce_range_error() -> ErrorView {
    ErrorView::InvalidNonce("nonce must be a positive integer less than or equal to 9007199254740991"@)
}

pub fn validate_nonce(nonce: u64) -> (res: Result<()>)
    ensures
        res is Ok <==> valid_nonce(nonce),
        res matches Err(e) ==> e@ == nonce_range_error(),
{
    if nonce == 0 || nonce > MAX_SAFE_NONCE {
        Err(SdkError::InvalidNonce(
            "nonce must be a positive integer less than or equal to 9007199254740991".to_owned(),
        ))
    } else {
        Ok(())
    }
}

/// A nonce is valid when it is positive and at most [`MAX_SAFE_NONCE`].
pub open spec fn valid_nonce(nonce: u64) -> bool {
    0 < nonce <= MAX_SAFE_NONCE
}

/// Absolute difference of two integers.
pub open spec fn abs_diff(a: int, b: int) -> int {
    if a >= b { a - b } else { b - a }
}

/// A write time is acceptable when it lies within `window_ms` of `now_ms`.
pub open spec fn within_window(created_at: i64, now_ms: i64, window_ms: i64) -> bool {
    window_ms >= 0 && abs_diff(created_at as int, now_ms as int) <= window_ms as int
}

pub fn verify_timestamp(created_at: i64, now_ms: i64, window_ms: i64) -> (res: Result<()>)
    ensures
        res is Ok <==> within_window(created_at, now_ms, window_ms),
        res is Err ==> res == Err::<(), SdkError>(SdkError::TimestampOutOfWindow),
{
    let a = created_at as i128;
    let b = now_ms as i128;
    let diff: i128 = if a >= b { a - b } else { b - a };
    if window_ms < 0 || diff > window_ms as i128 {
        Err(SdkError::TimestampOutOfWindow)
    } else {
        Ok(())
    }
}

/// `a + b` clamped to the `i64` range.
pub open spec fn saturating_add_i64(a: i64, b: i64) -> i64 {
    if a + b > i64::MAX {
        i64::MAX
    } else if a + b < i64::MIN {
        i64::MIN
    } else {
        (a + b) as i64
    }
}

pub fn saturating_add(a: i64, b: i64) -> (r: i64)
    ensures
        r == saturating_add_i64(a, b),
{
    let s = a as i128 + b as i128;
    if s > i64::MAX as i128 {
        i64::MAX
    } else if s < i64::MIN as i128 {
        i64::MIN
    } else {
        s as i64
    }
}

#[derive(Clone, Copy, Debug, PartialEq, Eq, Structural)]
pub struct NonceRecord {
    pub max_nonce: u64,
    pub expires_at: i64,
}

/// Replay protection for live writes: one record per actor.
pub trait NonceStore {
    fn check_and_update(&mut self, actor: &AgentId, nonce: u64, now_ms: i64, ttl_ms: i64) -> Result<u64>;

    fn max_nonce(&self, actor: &AgentId, now_ms: i64) -> Option<u64>;
}

/// A nonce store held in memory: at most one record per actor.
pub struct MemoryNonceStore {
    records: Vec<(AgentId, NonceRecord)>,
}

/// No two records share an actor.
pub open spec fn distinct_actors(records: Seq<(Seq<char>, NonceRecord)>) -> bool {
    forall|i: int, j: int|
        0 <= i < records.len() && 0 <= j < records.len() && i != j ==> #[trigger] records[i].0
            != #[trigger] records[j].0
}

/// The records as a map from actor to record.
pub open spec fn records_map(records: Seq<(Seq<char>, NonceRecord)>) -> Map<Seq<char>, NonceRecord> {
    Map::new(
        |actor: Seq<char>| exists|i: int| 0 <= i < records.len() && #[trigger] records[i].0 == actor,
        |actor: Seq<char>|
            records[choose|i: int| 0 <= i < records.len() && #[trigger] records[i].0 == actor].1,
    )
}

/// What an actor's record allows: a nonce must exceed an unexpired maximum.
pub open spec fn nonce_fresh(record: Option<NonceRecord>, nonce: u64, now_ms: i64) -> bool {
    match record {
        Some(r) => !(r.expires_at > now_ms && nonce <= r.max_nonce),
        None => true,
    }
}

/// The maximum an unexpired record holds.
pub open spec fn live_max(record: Option<NonceRecord>, now_ms: i64) -> Option<u64> {
    match record {
        Some(r) => if r.expires_at > now_ms { Some(r.max_nonce) } else { None },
        None => None,
    }
}

/// Each stored record with its actor's identifier text.
pub open spec fn entry_view(records: Seq<(AgentId, NonceRecord)>) -> Seq<(Seq<char>, NonceRecord)> {
    records.map_values(|e: (AgentId, NonceRecord)| (e.0@, e.1))
}

pub proof fn lemma_records_map_get(records: Seq<(Seq<char>, NonceRecord)>, i: int)
    requires
        distinct_actors(records),
        0 <= i < records.len(),
    ensures
        records_map(records).contains_key(records[i].0),
        records_map(records)[records[i].0] == records[i].1,
{
    let actor = records[i].0;
    let j = choose|j: int| 0 <= j < records.len() && #[trigger] records[j].0 == actor;
    assert(records[j].0 == actor);
}

pub proof fn lemma_records_map_update(
    records: Seq<(Seq<char>, NonceRecord)>,
    i: int,
    actor: Seq<char>,
    record: NonceRecord,
)
    requires
        distinct_actors(records),
        0 <= i < records.len(),
        records[i].0 == actor,
    ensures
        distinct_actors(records.update(i, (actor, record))),
        records_map(records.update(i, (actor, record))) == records_map(records).insert(actor, record),
{
    let after = records.update(i, (actor, record));
    assert forall|a: int, b: int|
        0 <= a < after.len() && 0 <= b < after.len() && a != b implies #[trigger] after[a].0
        != #[trigger] after[b].0 by {
        assert(after[a].0 == records[a].0);
        assert(after[b].0 == records[b].0);
    }
    let expected = records_map(records).insert(actor, record);
    assert forall|k: Seq<char>| #[trigger] records_map(after).contains_key(k) <==> expected.contains_key(k) by {
        if records_map(after).contains_key(k) {
            let j = choose|j: int| 0 <= j < after.len() && #[trigger] after[j].0 == k;
            assert(records[j].0 == k);
        }
        if expected.contains_key(k) && k != actor {
            let j = choose|j: int| 0 <= j < records.len() && #[trigger] records[j].0 == k;
            assert(after[j].0 == k);
        }
        if k == actor {
            assert(after[i].0 == k);
        }
    }
    assert forall|k: Seq<char>| #[trigger] records_map(after).contains_key(k)
        implies records_map(after)[k] == expected[k] by {
        let j = choose|j: int| 0 <= j < after.len() && #[trigger] after[j].0 == k;
        lemma_records_map_get(after, j);
        if j != i {
            lemma_records_map_get(records, j);
        }
    }
    assert(records_map(after) =~= expected);
}

pub proof fn lemma_records_map_push(records: Seq<(Seq<char>, NonceRecord)>, actor: Seq<char>, record: NonceRecord)
    requires
        distinct_actors(records),
        forall|i: int| 0 <= i < records.len() ==> #[trigger] records[i].0 != actor,
    ensures
        distinct_actors(records.push((actor, record))),
        records_map(records.push((actor, record))) == records_map(records).insert(actor, record),
{
    let after = records.push((actor, record));
    let n = records.len() as int;
    assert forall|a: int, b: int|
        0 <= a < after.len() && 0 <= b < after.len() && a != b implies #[trigger] after[a].0
        != #[trigger] after[b].0 by {
        if a < n && b < n {
            assert(after[a].0 == records[a].0);
            assert(after[b].0 == records[b].0);
        } else if a < n {
            assert(after[a].0 == records[a].0);
        } else if b < n {
            assert(after[b].0 == records[b].0);
        }
    }
    let expected = records_map(records).insert(actor, record);
    assert forall|k: Seq<char>| #[trigger] records_map(after).contains_key(k) <==> expected.contains_key(k) by {
        if records_map(after).contains_key(k) && k != actor {
            let j = choose|j: int| 0 <= j < after.len() && #[trigger] after[j].0 == k;
            assert(j < n);
            assert(records[j].0 == k);
        }
        if expected.contains_key(k) && k != actor {
            let j = choose|j: int| 0 <= j < records.len() && #[trigger] records[j].0 == k;
            assert(after[j].0 == k);
        }
        if k == actor {
            assert(after[n].0 == k);
        }
    }
    assert forall|k: Seq<char>| #[trigger] records_map(after).contains_key(k)
        implies records_map(after)[k] == expected[k] by {
        let j = choose|j: int| 0 <= j < after.len() && #[trigger] after[j].0 == k;
        lemma_records_map_get(after, j);
        if j != n {
            lemma_records_map_get(records, j);
        }
    }
    assert(records_map(after) =~= expected);
}

impl MemoryNonceStore {
    pub closed spec fn entries(self) -> Seq<(Seq<char>, NonceRecord)> {
        entry_view(self.records@)
    }

    #[verifier::type_invariant]
    closed spec fn inv(self) -> bool {
        distinct_actors(self.entries())
    }

    /// The store's content: the record of each actor it has seen.
    pub closed spec fn records(self) -> Map<Seq<char>, NonceRecord> {
        records_map(self.entries())
    }

    pub fn new() -> (store: Self)
        ensures
            store.records() == Map::<Seq<char>, NonceRecord>::empty(),
    {
        let store = MemoryNonceStore { records: Vec::new() };
        assert(store.records() =~= Map::<Seq<char>, NonceRecord>::empty());
        store
    }

    fn find(&self, actor: &AgentId) -> (r: Option<usize>)
        ensures
            match r {
                Some(i) => i < self.entries().len() && self.entries()[i as int].0 == actor@,
                None => forall|i: int| 0 <= i < self.entries().len() ==> #[trigger] self.entries()[i].0 != actor@,
            },
    {
        let mut i: usize = 0;
        while i < self.records.len()
            invariant
                i <= self.records@.len(),
                forall|j: int| 0 <= j < i ==> #[trigger] self.entries()[j].0 != actor@,
            decreases self.records@.len() - i,
        {
            if self.records[i].0.same_as(actor) {
                return Some(i);
            }
            i += 1;
        }
        None
    }

    proof fn lemma_lookup(self, i: int)
        requires
            distinct_actors(self.entries()),
            0 <= i < self.entries().len(),
        ensures
            self.records().contains_key(self.entries()[i].0),
            self.records()[self.entries()[i].0] == self.entries()[i].1,
    {
        lemma_records_map_get(self.entries(), i);
    }

    /// The record kept for `actor`, if any.
    pub fn record(&self, actor: &AgentId) -> (r: Option<NonceRecord>)
        ensures
            r == (if self.records().contains_key(actor@) { Some(self.records()[actor@]) } else { None::<NonceRecord> }),
    {
        proof {
            use_type_invariant(self);
        }
        match self.find(actor) {
            Some(i) => {
                proof {
                    self.lemma_lookup(i as int);
                }
                Some(self.records[i].1)
            },
            None => {
                assert(!self.records().contains_key(actor@));
                None
            },
        }
    }

    /// Accepts `nonce` for `actor` when it is valid and exceeds the actor's
    /// unexpired maximum; the actor's record then holds `nonce` until
    /// `now_ms + ttl_ms`.
    pub fn check_and_update(&mut self, actor: &AgentId, nonce: u64, now_ms: i64, ttl_ms: i64) -> (res: Result<u64>)
        ensures
            !valid_nonce(nonce) ==> (res matches Err(e) && e@ == nonce_range_error()),
            valid_nonce(nonce) && ttl_ms < 0 ==> (res matches Err(e) && e@ == ErrorView::InvalidNonce(
                "nonce cache ttl must be non-negative"@,
            )),
            valid_nonce(nonce) && ttl_ms >= 0 && !nonce_fresh(old(self).records().get(actor@), nonce, now_ms)
                ==> res == Err::<u64, SdkError>(SdkError::NonceNotGreater { max_nonce: old(self).records()[actor@].max_nonce }),
            res is Ok <==> (valid_nonce(nonce) && ttl_ms >= 0 && nonce_fresh(old(self).records().get(actor@), nonce, now_ms)),
            res is Ok ==> res == Ok::<u64, SdkError>(nonce) && final(self).records() == old(self).records().insert(
                actor@,
                NonceRecord { max_nonce: nonce, expires_at: saturating_add_i64(now_ms, ttl_ms) },
            ),
            res is Err ==> final(self).records() == old(self).records(),
    {
        proof {
            use_type_invariant(&*self);
        }
        validate_nonce(nonce)?;
        if ttl_ms < 0 {
            return Err(SdkError::InvalidNonce("nonce cache ttl must be non-negative".to_owned()));
        }
        let found = self.find(actor);
        if let Some(i) = found {
            proof {
                self.lemma_lookup(i as int);
            }
            let record = self.records[i].1;
            if record.expires_at > now_ms && nonce <= record.max_nonce {
                return Err(SdkError::NonceNotGreater { max_nonce: record.max_nonce });
            }
        } else {
            assert(!old(self).records().contains_key(actor@));
        }
        let record = NonceRecord { max_nonce: nonce, expires_at: saturating_add(now_ms, ttl_ms) };
        let ghost before = self.entries();
        match found {
            Some(i) => {
                let key = actor.clone();
                let mut records: Vec<(AgentId, NonceRecord)> = Vec::new();
                core::mem::swap(&mut records, &mut self.records);
                records.set(i, (key, record));
                proof {
                    assert(entry_view(records@) =~= before.update(i as int, (actor@, record)));
                    lemma_records_map_update(before, i as int, actor@, record);
                }
                self.records = records;
            },
            None => {
                let mut records: Vec<(AgentId, NonceRecord)> = Vec::new();
                core::mem::swap(&mut records, &mut self.records);
                records.push((actor.clone(), record));
                proof {
                    assert(entry_view(records@) =~= before.push((actor@, record)));
                    lemma_records_map_push(before, actor@, record);
                }
                self.records = records;
            },
        }
        Ok(nonce)
    }

    /// The unexpired maximum nonce accepted from `actor`.
    pub fn max_nonce(&self, actor: &AgentId, now_ms: i64) -> (r: Option<u64>)
        ensures
            r == live_max(self.records().get(actor@), now_ms),
    {
        match self.record(actor) {
            Some(record) => if record.expires_at > now_ms { Some(record.max_nonce) } else { None },
            None => None,
        }
    }
}

impl NonceStore for MemoryNonceStore {
    fn check_and_update(&mut self, actor: &AgentId, nonce: u64, now_ms: i64, ttl_ms: i64) -> (res: Result<u64>)
        ensures
            !valid_nonce(nonce) ==> (res matches Err(e) && e@ == nonce_range_error()),
            valid_nonce(nonce) && ttl_ms < 0 ==> (res matches Err(e) && e@ == ErrorView::InvalidNonce(
                "nonce cache ttl must be non-negative"@,
            )),
            valid_nonce(nonce) && ttl_ms >= 0 && !nonce_fresh(old(self).records().get(actor@), nonce, now_ms)
                ==> res == Err::<u64, SdkError>(SdkError::NonceNotGreater { max_nonce: old(self).records()[actor@].max_nonce }),
            res is Ok <==> (valid_nonce(nonce) && ttl_ms >= 0 && nonce_fresh(old(self).records().get(actor@), nonce, now_ms)),
            res is Ok ==> res == Ok::<u64, SdkError>(nonce) && final(self).records() == old(self).records().insert(
                actor@,
                NonceRecord { max_nonce: nonce, expires_at: saturating_add_i64(now_ms, ttl_ms) },
            ),
            res is Err ==> final(self).records() == old(self).records(),
    {
        MemoryNonceStore::check_and_update(self, actor, nonce, now_ms, ttl_ms)
    }

    fn max_nonce(&self, actor: &AgentId, now_ms: i64) -> (r: Option<u64>)
        ensures
            r == live_max(self.records().get(actor@), now_ms),
    {
        MemoryNonceStore::max_nonce(self, actor, now_ms)
    }
}

} // verus!

verus! {

/// Hands out increasing nonces for one client.
pub struct ClientNonceManager {
    next_nonce: u64,
}

impl ClientNonceManager {
    /// The nonce the next call to `next_nonce` hands out.
    pub closed spec fn next(self) -> u64 {
        self.next_nonce
    }

    pub fn new() -> (manager: Self)
        ensures
            manager.next() == 1,
    {
        ClientNonceManager { next_nonce: 1 }
    }

    pub fn with_next(next_nonce: u64) -> (res: Result<Self>)
        ensures
            res is Ok <==> valid_nonce(next_nonce),
            res matches Ok(manager) ==> manager.next() == next_nonce,
            res matches Err(e) ==> e@ == nonce_range_error(),
    {
        validate_nonce(next_nonce)?;
        Ok(ClientNonceManager { next_nonce })
    }

    pub fn peek(&self) -> (nonce: u64)
        ensures
            nonce == self.next(),
    {
        self.next_nonce
    }

    /// Hands out the current nonce and moves past it.
    pub fn next_nonce(&mut self) -> (res: Result<u64>)
        ensures
            res is Ok <==> valid_nonce(old(self).next()),
            res matches Ok(nonce) ==> nonce == old(self).next() && final(self).next() == old(self).next() + 1,
            res is Err ==> final(self).next() == old(self).next(),
            res matches Err(e) ==> e@ == nonce_range_error(),
    {
        let nonce = self.next_nonce;
        validate_nonce(nonce)?;
        self.next_nonce = nonce + 1;
        Ok(nonce)
    }

    /// Moves past a maximum the server reports as already accepted.
    pub fn observe_max_nonce(&mut self, max_nonce: u64)
        ensures
            final(self).next() == if max_nonce >= old(self).next() {
                if max_nonce == u64::MAX { u64::MAX } else { (max_nonce + 1) as u64 }
            } else {
                old(self).next()
            },
    {
        if max_nonce >= self.next_nonce {
            self.next_nonce = if max_nonce == u64::MAX { u64::MAX } else { max_nonce + 1 };
        }
    }

    /// Reads a `Max-Seen-Nonce` header value and observes it.
    pub fn observe_max_nonce_header(&mut self, value: &str) -> (res: Result<()>)
        ensures
            res is Ok <==> (parsed_u64(value@) matches Some(n) && valid_nonce(n)),
            res matches Err(e) ==> e@ == if parsed_u64(value@) is None {
                ErrorView::InvalidNonce("invalid max nonce header"@)
            } else {
                nonce_range_error()
            },
            res is Err ==> final(self).next() == old(self).next(),
            res is Ok ==> (parsed_u64(value@) matches Some(n) && final(self).next() == if n >= old(self).next() {
                (n + 1) as u64
            } else {
                old(self).next()
            }),
    {
        let max_nonce = match parse_u64(value) {
            Some(n) => n,
            None => {
                return Err(SdkError::InvalidNonce("invalid max nonce header".to_owned()));
            },
        };
        validate_nonce(max_nonce)?;
        self.observe_max_nonce(max_nonce);
        Ok(())
    }
}

impl Default for ClientNonceManager {
    fn default() -> (manager: Self)
        ensures
            manager.next() == 1,
    {
        ClientNonceManager::new()
    }
}

/// Whether every character is an ASCII decimal digit.
pub open spec fn all_digits(d: Seq<char>) -> bool {
    forall|i: int| 0 <= i < d.len() ==> '0' <= #[trigger] d[i] <= '9'
}

/// The number decimal digits write.
pub open spec fn digits_value(d: Seq<char>) -> int
    decreases d.len(),
{
    if d.len() == 0 {
        0
    } else {
        digits_value(d.drop_last()) * 10 + (d.last() as int - '0' as int)
    }
}

/// What `str::parse::<u64>` gives for the text: an optional `+`, then one
/// or more decimal digits whose value fits in `u64`; `None` otherwise.
pub open spec fn parsed_u64(text: Seq<char>) -> Option<u64> {
    let d = if text.len() > 0 && text[0] == '+' {
        text.drop_first()
    } else {
        text
    };
    if d.len() > 0 && all_digits(d) && digits_value(d) <= u64::MAX {
        Some(digits_value(d) as u64)
    } else {
        None
    }
}

/// Longer runs of digits are worth at least as much.
proof fn lemma_digits_grow(d: Seq<char>, i: int, j: int)
    requires
        all_digits(d),
        0 <= i <= j <= d.len(),
    ensures
        0 <= digits_value(d.take(i)) <= digits_value(d.take(j)),
    decreases j - i,
{
    if i < j {
        lemma_digits_grow(d, i, j - 1);
        assert(d.take(j).drop_last() =~= d.take(j - 1));
        assert(d.take(j).last() == d[j - 1]);
    } else {
        lemma_digits_nonneg(d.take(i));
    }
}

proof fn lemma_digits_nonneg(d: Seq<char>)
    requires
        all_digits(d),
    ensures
        digits_value(d) >= 0,
    decreases d.len(),
{
    if d.len() > 0 {
        assert(all_digits(d.drop_last()));
        lemma_digits_nonneg(d.drop_last());
    }
}

/// Reads a decimal `u64` as `str::parse` does.
pub fn parse_u64(text: &str) -> (r: Option<u64>)
    ensures
        r == parsed_u64(text@),
{
    let v = crate::text::chars_of(text);
    let start: usize = if v.len() > 0 && v[0] == '+' {
        1
    } else {
        0
    };
    let ghost d = if text@.len() > 0 && text@[0] == '+' {
        text@.drop_first()
    } else {
        text@
    };
    assert(d =~= v@.skip(start as int));
    if v.len() == start {
        return None;
    }
    let mut value: u64 = 0;
    let mut i: usize = start;
    while i < v.len()
        invariant
            start <= i <= v@.len(),
            v@ == text@,
            d == v@.skip(start as int),
            d == (if text@.len() > 0 && text@[0] == '+' {
                text@.drop_first()
            } else {
                text@
            }),
            all_digits(d.take(i - start)),
            value as int == digits_value(d.take(i - start)),
        decreases v@.len() - i,
    {
        let c = v[i];
        assert(d[i - start] == c);
        if !('0' <= c && c <= '9') {
            assert(!all_digits(d));
            return None;
        }
        let digit = (c as u32 - '0' as u32) as u64;
        assert(d.take(i - start + 1).drop_last() =~= d.take(i - start));
        assert(all_digits(d.take(i - start + 1)));
        if value > (u64::MAX - digit) / 10 {
            proof {
                assert(digits_value(d.take(i - start + 1)) > u64::MAX) by (nonlinear_arith)
                    requires
                        value > (u64::MAX - digit) / 10,
                        digits_value(d.take(i - start + 1)) == value * 10 + digit,
                        digit <= 9,
                ;
                if all_digits(d) {
                    lemma_digits_grow(d, i - start + 1, d.len() as int);
                    assert(d.take(d.len() as int) =~= d);
                }
            }
            return None;
        }
        value = value * 10 + digit;
        i += 1;
    }
    assert(d.take(d.len() as int) =~= d);
    Some(value)
}

/// `SystemTime::elapsed` of the Unix epoch: the time since it, when the
/// clock reads later. Nothing is claimed of the clock.
#[verifier::external_body]
fn epoch_elapsed() -> Option<core::time::Duration> {
    std::time::UNIX_EPOCH.elapsed().ok()
}

/// `Duration::as_millis`. Nothing is claimed of the value.
#[verifier::external_body]
fn duration_millis(d: &core::time::Duration) -> u128 {
    d.as_millis()
}

/// Milliseconds since the Unix epoch, clamped to `i64`; `0` when the clock
/// reads earlier than the epoch.
pub fn unix_ms() -> (ms: i64)
    ensures
        ms >= 0,
{
    match epoch_elapsed() {
        Some(elapsed) => {
            let ms = duration_millis(&elapsed);
            if ms > i64::MAX as u128 {
                i64::MAX
            } else {
                ms as i64
            }
        },
        None => 0,
    }
}

/// Seconds since the Unix epoch.
pub fn unix_secs() -> (secs: i64)
    ensures
        secs >= 0,
{
    unix_ms() / 1000
}

} // verus!

verus! {

/// A protocol event. The payload is carried as `P`; the signed form of the
/// event is built from the payload's JSON text, which signing and
/// verification take beside the event. `extra` holds further top-level
/// members as `(name, JSON text)` pairs.
pub struct Event<P> {
    pub protocol: String,
    pub kind: String,
    pub actor: AgentId,
    pub created_at: i64,
    pub nonce: u64,
    pub room_id: Option<String>,
    pub payload: P,
    pub extra: Vec<(String, String)>,
}

/// A signed event: the event, the base64url SHA3-256 of its canonical JSON,
/// and the base64url Ed25519 signature over that canonical JSON.
pub struct Envelope<P> {
    pub hash: String,
    pub event: Event<P>,
    pub signature: String,
}

impl<P> Event<P> {
    pub fn new(protocol: &str, kind: &str, actor: AgentId, created_at: i64, nonce: u64, payload: P) -> (event: Self)
        ensures
            event.protocol@ == protocol@,
            event.kind@ == kind@,
            event.actor == actor,
            event.created_at == created_at,
            event.nonce == nonce,
            event.room_id is None,
            event.payload == payload,
            event.extra@.len() == 0,
    {
        Event {
            protocol: protocol.to_owned(),
            kind: kind.to_owned(),
            actor,
            created_at,
            nonce,
            room_id: None,
            payload,
            extra: Vec::new(),
        }
    }

    pub fn with_room_id(self, room_id: &str) -> (event: Self)
        ensures
            event.room_id matches Some(r) && r@ == room_id@,
            event.protocol == self.protocol,
            event.kind == self.kind,
            event.actor == self.actor,
            event.created_at == self.created_at,
            event.nonce == self.nonce,
            event.payload == self.payload,
            event.extra == self.extra,
    {
        let mut event = self;
        event.room_id = Some(room_id.to_owned());
        event
    }
}

/// The JSON text of a string: a JSON string literal.
pub open spec fn q(s: Seq<char>) -> Seq<char> {
    crate::codec::json_string_literal(s)
}

/// The `extra` members of an event, each written `,"name":value`.
pub open spec fn extra_members_json(extra: Seq<(Seq<char>, Seq<char>)>) -> Seq<char>
    decreases extra.len(),
{
    if extra.len() == 0 {
        Seq::empty()
    } else {
        extra_members_json(extra.drop_last()) + ","@ + q(extra.last().0) + ":"@ + extra.last().1
    }
}

/// The extra members as plain character sequences.
pub open spec fn extra_view(extra: Seq<(String, String)>) -> Seq<(Seq<char>, Seq<char>)> {
    extra.map_values(|m: (String, String)| (m.0@, m.1@))
}

/// The JSON text of an event whose payload has the JSON text `payload_json`.
/// Canonicalization (RFC 8785) orders the members, so only their content
/// matters.
pub open spec fn event_json<P>(event: Event<P>, payload_json: Seq<char>) -> Seq<char> {
    "{\"protocol\":"@ + q(event.protocol@) + ",\"type\":"@ + q(event.kind@) + ",\"actor\":"@ + q(
        event.actor@,
    ) + ",\"created_at\":"@ + crate::codec::decimal(event.created_at as int) + ",\"nonce\":"@
        + crate::codec::decimal(event.nonce as int) + match event.room_id {
        Some(r) => ",\"room_id\":"@ + q(r@),
        None => Seq::empty(),
    } + ",\"payload\":"@ + payload_json + extra_members_json(extra_view(event.extra@)) + "}"@
}

/// The canonical bytes of an event, when its JSON text is JSON.
pub open spec fn canonical_event<P>(event: Event<P>, payload_json: Seq<char>) -> Option<Seq<u8>> {
    crate::codec::jcs_canonical(event_json(event, payload_json))
}

/// The hash text of canonical bytes: base64url of their SHA3-256 digest.
pub open spec fn digest_text(bytes: Seq<u8>) -> Seq<char> {
    base64url_encoding(crate::crypto::sha3_256(bytes))
}

fn extra_json(extra: &Vec<(String, String)>) -> (text: String)
    ensures
        text@ == extra_members_json(extra_view(extra@)),
{
    let mut text = String::new();
    let mut i: usize = 0;
    while i < extra.len()
        invariant
            i <= extra@.len(),
            text@ == extra_members_json(extra_view(extra@.take(i as int))),
        decreases extra@.len() - i,
    {
        let ghost before = text@;
        crate::text::push_str(&mut text, ",");
        let key = crate::codec::json_quote(extra[i].0.as_str());
        crate::text::push_str(&mut text, key.as_str());
        crate::text::push_str(&mut text, ":");
        crate::text::push_str(&mut text, extra[i].1.as_str());
        proof {
            let t = extra_view(extra@.take(i + 1));
            assert(t.drop_last() =~= extra_view(extra@.take(i as int)));
            assert(t.last() == (extra@[i as int].0@, extra@[i as int].1@));
        }
        i += 1;
    }
    assert(extra@.take(extra@.len() as int) =~= extra@);
    text
}

/// Writes the JSON text of an event around its payload's JSON text.
pub fn event_json_text<P>(event: &Event<P>, payload_json: &str) -> (text: String)
    ensures
        text@ == event_json(*event, payload_json@),
{
    let mut text = "{\"protocol\":".to_owned();
    let t = crate::codec::json_quote(event.protocol.as_str());
    crate::text::push_str(&mut text, t.as_str());
    crate::text::push_str(&mut text, ",\"type\":");
    let t = crate::codec::json_quote(event.kind.as_str());
    crate::text::push_str(&mut text, t.as_str());
    crate::text::push_str(&mut text, ",\"actor\":");
    let t = crate::codec::json_quote(event.actor.as_str());
    crate::text::push_str(&mut text, t.as_str());
    crate::text::push_str(&mut text, ",\"created_at\":");
    let t = crate::codec::i64_decimal(event.created_at);
    crate::text::push_str(&mut text, t.as_str());
    crate::text::push_str(&mut text, ",\"nonce\":");
    let t = crate::codec::u64_decimal(event.nonce);
    crate::text::push_str(&mut text, t.as_str());
    let ghost before_room = text@;
    match &event.room_id {
        Some(r) => {
            crate::text::push_str(&mut text, ",\"room_id\":");
            let t = crate::codec::json_quote(r.as_str());
            crate::text::push_str(&mut text, t.as_str());
        },
        None => {},
    }
    crate::text::push_str(&mut text, ",\"payload\":");
    crate::text::push_str(&mut text, payload_json);
    let t = extra_json(&event.extra);
    crate::text::push_str(&mut text, t.as_str());
    crate::text::push_str(&mut text, "}");
    assert(text@ =~= event_json(*event, payload_json@));
    text
}

/// The error of an event that cannot be canonicalized.
pub open spec fn event_json_error<P>(event: Event<P>, payload_json: Seq<char>) -> ErrorView {
    ErrorView::CanonicalJson(crate::codec::jcs_error(event_json(event, payload_json)))
}

/// The RFC 8785 canonical bytes of the event.
pub fn canonical_event_bytes<P>(event: &Event<P>, payload_json: &str) -> (res: Result<Vec<u8>>)
    ensures
        match canonical_event(*event, payload_json@) {
            Some(bytes) => res matches Ok(v) && v@ == bytes,
            None => res matches Err(e) && e@ == event_json_error(*event, payload_json@),
        },
{
    let text = event_json_text(event, payload_json);
    match crate::codec::jcs_canonicalize(text.as_str()) {
        Ok(bytes) => Ok(bytes),
        Err(message) => Err(SdkError::CanonicalJson(message)),
    }
}

/// What `event_hash` gives: the nonce must be valid and the event canonical.
pub open spec fn event_hash_result<P>(event: Event<P>, payload_json: Seq<char>) -> Option<Seq<char>> {
    if !valid_nonce(event.nonce) {
        None
    } else {
        match canonical_event(event, payload_json) {
            Some(bytes) => Some(digest_text(bytes)),
            None => None,
        }
    }
}

pub fn event_hash<P>(event: &Event<P>, payload_json: &str) -> (res: Result<String>)
    ensures
        !valid_nonce(event.nonce) ==> (res matches Err(e) && e@ == nonce_range_error()),
        valid_nonce(event.nonce) && canonical_event(*event, payload_json@) is None ==> (res matches Err(e) && e@
            == event_json_error(*event, payload_json@)),
        res is Ok <==> event_hash_result(*event, payload_json@) is Some,
        res matches Ok(h) ==> event_hash_result(*event, payload_json@) == Some(h@),
{
    validate_nonce(event.nonce)?;
    let bytes = canonical_event_bytes(event, payload_json)?;
    let digest = crate::crypto::sha3_256_digest(bytes.as_slice());
    Ok(base64url_encode(digest.as_slice()))
}

/// What `sign_event` gives: the base64url signature over the canonical bytes.
pub open spec fn event_signature_result<P>(seed: Seq<u8>, event: Event<P>, payload_json: Seq<char>) -> Option<Seq<char>> {
    if !valid_nonce(event.nonce) {
        None
    } else {
        match canonical_event(event, payload_json) {
            Some(bytes) => Some(base64url_encoding(crate::crypto::ed25519_signature(seed, bytes))),
            None => None,
        }
    }
}

/// Signs an event with the signing key made from `signing_key` (its seed).
pub fn sign_event<P>(signing_key: &[u8; 32], event: &Event<P>, payload_json: &str) -> (res: Result<String>)
    ensures
        !valid_nonce(event.nonce) ==> (res matches Err(e) && e@ == nonce_range_error()),
        valid_nonce(event.nonce) && canonical_event(*event, payload_json@) is None ==> (res matches Err(e) && e@
            == event_json_error(*event, payload_json@)),
        res is Ok <==> event_signature_result(signing_key@, *event, payload_json@) is Some,
        res matches Ok(s) ==> event_signature_result(signing_key@, *event, payload_json@) == Some(s@),
        match res {
            Ok(text) => match canonical_event(*event, payload_json@) {
                Some(bytes) => {
                    let signature = crate::crypto::ed25519_signature(signing_key@, bytes);
                    &&& signature.len() == 64
                    &&& base64url_decoding(text@) == Some(signature)
                    &&& signature.subrange(0, 32) != crate::crypto::ed25519_identity_bytes()
                        ==> crate::crypto::ed25519_strict_accepts(
                        crate::crypto::ed25519_public_key(signing_key@),
                        bytes,
                        signature,
                    )
                },
                None => false,
            },
            Err(_) => true,
        },
{
    validate_nonce(event.nonce)?;
    let bytes = canonical_event_bytes(event, payload_json)?;
    let signature = crate::crypto::sign_with_seed(signing_key, bytes.as_slice());
    Ok(base64url_encode(signature.as_slice()))
}

/// Whether signing the event with `seed` gives a signature whose nonce point
/// is the identity, the one case `verify_strict` refuses.
pub open spec fn signed_with_identity_nonce<P>(seed: Seq<u8>, event: Event<P>, payload_json: Seq<char>) -> bool {
    canonical_event(event, payload_json) matches Some(bytes) && crate::crypto::ed25519_signature(seed, bytes).subrange(
        0,
        32,
    ) == crate::crypto::ed25519_identity_bytes()
}

/// An envelope's hash matches its event.
pub open spec fn hash_matches<P>(envelope: Envelope<P>, payload_json: Seq<char>) -> bool {
    event_hash_result(envelope.event, payload_json) == Some(envelope.hash@)
}

pub fn verify_event_hash<P>(envelope: &Envelope<P>, payload_json: &str) -> (res: Result<()>)
    ensures
        res is Ok <==> hash_matches(*envelope, payload_json@),
        !valid_nonce(envelope.event.nonce) ==> (res matches Err(e) && e@ == nonce_range_error()),
        valid_nonce(envelope.event.nonce) && canonical_event(envelope.event, payload_json@) is None ==> (res matches Err(e)
            && e@ == event_json_error(envelope.event, payload_json@)),
        match event_hash_result(envelope.event, payload_json@) {
            Some(h) => h != envelope.hash@ ==> (res matches Err(e) && e@ == ErrorView::InvalidEventHash {
                expected: h,
                actual: envelope.hash@,
            }),
            None => res is Err,
        },
{
    let expected = event_hash(&envelope.event, payload_json)?;
    if expected == envelope.hash {
        Ok(())
    } else {
        Err(SdkError::InvalidEventHash { expected, actual: envelope.hash.clone() })
    }
}

/// An envelope's signature is a valid Ed25519 signature by its actor over the
/// canonical event.
pub open spec fn signature_valid<P>(envelope: Envelope<P>, payload_json: Seq<char>) -> bool {
    &&& canonical_event(envelope.event, payload_json) matches Some(bytes)
    &&& base64url_decoding(envelope.signature@) matches Some(signature)
    &&& signature.len() == 64
    &&& agent_key_result(envelope.event.actor@) matches Ok(key)
    &&& crate::crypto::ed25519_strict_accepts(key, bytes, signature)
}

pub fn verify_signature<P>(envelope: &Envelope<P>, payload_json: &str) -> (res: Result<()>)
    ensures
        res is Ok <==> signature_valid(*envelope, payload_json@),
        canonical_event(envelope.event, payload_json@) is None ==> (res matches Err(e) && e@ == event_json_error(
            envelope.event,
            payload_json@,
        )),
        canonical_event(envelope.event, payload_json@) is Some ==> match base64url_decoding(envelope.signature@) {
            None => res == Err::<(), SdkError>(SdkError::Base64),
            Some(s) => s.len() != 64 ==> res == Err::<(), SdkError>(SdkError::InvalidSignatureLength(s.len() as usize)),
        },
        canonical_event(envelope.event, payload_json@) is Some ==> (base64url_decoding(envelope.signature@) matches Some(s)
            && s.len() == 64 ==> match agent_key_result(envelope.event.actor@) {
            Err(e) => res == Err::<(), SdkError>(e),
            Ok(_) => res is Err ==> res == Err::<(), SdkError>(SdkError::Ed25519),
        }),
{
    let bytes = canonical_event_bytes(&envelope.event, payload_json)?;
    let signature_bytes = match base64url_decode(envelope.signature.as_str()) {
        Ok(b) => b,
        Err(_) => {
            return Err(SdkError::Base64);
        },
    };
    if signature_bytes.len() != 64 {
        return Err(SdkError::InvalidSignatureLength(signature_bytes.len()));
    }
    let signature = crate::crypto::array64(signature_bytes.as_slice());
    let key = envelope.event.actor.public_key_bytes()?;
    if crate::crypto::verify_strict(&key, bytes.as_slice(), &signature) {
        Ok(())
    } else {
        Err(SdkError::Ed25519)
    }
}

/// The first check of an envelope that fails, in the order `verify_envelope` makes them.
pub open spec fn envelope_failure<P>(envelope: Envelope<P>, payload_json: Seq<char>) -> Option<ErrorView> {
    if !valid_nonce(envelope.event.nonce) {
        Some(nonce_range_error())
    } else {
        match canonical_event(envelope.event, payload_json) {
            None => Some(event_json_error(envelope.event, payload_json)),
            Some(bytes) => if digest_text(bytes) != envelope.hash@ {
                Some(ErrorView::InvalidEventHash { expected: digest_text(bytes), actual: envelope.hash@ })
            } else {
                match base64url_decoding(envelope.signature@) {
                    None => Some(ErrorView::Base64),
                    Some(signature) => if signature.len() != 64 {
                        Some(ErrorView::InvalidSignatureLength(signature.len() as usize))
                    } else {
                        match agent_key_result(envelope.event.actor@) {
                            Err(e) => Some(e@),
                            Ok(key) => if crate::crypto::ed25519_strict_accepts(key, bytes, signature) {
                                None
                            } else {
                                Some(ErrorView::Ed25519)
                            },
                        }
                    },
                }
            },
        }
    }
}

/// Both the hash and the signature of the envelope check out.
pub open spec fn envelope_valid<P>(envelope: Envelope<P>, payload_json: Seq<char>) -> bool {
    hash_matches(envelope, payload_json) && signature_valid(envelope, payload_json)
}

pub fn verify_envelope<P>(envelope: &Envelope<P>, payload_json: &str) -> (res: Result<()>)
    ensures
        res is Ok <==> envelope_valid(*envelope, payload_json@),
        fails_with(res, envelope_failure(*envelope, payload_json@)),
        envelope_valid(*envelope, payload_json@) <==> envelope_failure(*envelope, payload_json@) is None,
{
    verify_event_hash(envelope, payload_json)?;
    verify_signature(envelope, payload_json)
}

/// Holds the seed of an Ed25519 signing key.
pub struct AgentSigner {
    seed: [u8; 32],
}

impl AgentSigner {
    /// The seed of the signing key.
    pub closed spec fn key_seed(self) -> Seq<u8> {
        self.seed@
    }

    pub fn generate() -> (signer: Self) {
        AgentSigner::from_seed(crate::crypto::random_seed())
    }

    pub fn from_seed(seed: [u8; 32]) -> (signer: Self)
        ensures
            signer.key_seed() == seed@,
    {
        AgentSigner { seed }
    }

    pub fn agent_id(&self) -> (id: AgentId)
        ensures
            id@ == agent_id_text(crate::crypto::ed25519_public_key(self.key_seed())),
            agent_key_result(id@) == Ok::<Seq<u8>, SdkError>(crate::crypto::ed25519_public_key(self.key_seed())),
    {
        let key = crate::crypto::public_key_of_seed(&self.seed);
        AgentId::from_public_key(&key)
    }

    pub fn verifying_key(&self) -> ed25519_dalek::VerifyingKey {
        crate::crypto::verifying_key_of_seed(&self.seed)
    }

    /// Hashes and signs an event; `payload_json` is the JSON text of its payload.
    pub fn sign_event<P>(&self, event: Event<P>, payload_json: &str) -> (res: Result<Envelope<P>>)
        ensures
            !valid_nonce(event.nonce) ==> (res matches Err(e) && e@ == nonce_range_error()),
            res is Ok <==> event_hash_result(event, payload_json@) is Some,
            res matches Ok(envelope) ==> {
                &&& envelope.event == event
                &&& event_hash_result(event, payload_json@) == Some(envelope.hash@)
                &&& event_signature_result(self.key_seed(), event, payload_json@) == Some(envelope.signature@)
            },
            match res {
                Ok(envelope) => agent_key_result(event.actor@) == Ok::<Seq<u8>, SdkError>(
                    crate::crypto::ed25519_public_key(self.key_seed()),
                ) && !signed_with_identity_nonce(self.key_seed(), event, payload_json@) ==> envelope_failure(
                    envelope,
                    payload_json@,
                ) is None,
                Err(_) => true,
            },
    {
        let hash = event_hash(&event, payload_json)?;
        let signature = sign_event(&self.seed, &event, payload_json)?;
        Ok(Envelope { hash, event, signature })
    }
}

} // verus!

verus! {

/// The clock and windows of a live write check.
pub struct LiveWriteOptions {
    pub now_ms: i64,
    pub window_ms: i64,
    pub nonce_ttl_ms: i64,
}

impl Default for LiveWriteOptions {
    fn default() -> (options: Self)
        ensures
            options.now_ms >= 0,
            options.window_ms == DEFAULT_LIVE_WRITE_WINDOW_MS,
            options.nonce_ttl_ms == DEFAULT_NONCE_TTL_MS,
    {
        LiveWriteOptions {
            now_ms: unix_ms(),
            window_ms: DEFAULT_LIVE_WRITE_WINDOW_MS,
            nonce_ttl_ms: DEFAULT_NONCE_TTL_MS,
        }
    }
}

/// Verifies a live write: hash and signature, then the time window, then the
/// actor's nonce against the store. The store is consulted only when the
/// first two pass; what it answers is its own.
pub fn verify_live_envelope<P, S: NonceStore>(
    envelope: &Envelope<P>,
    payload_json: &str,
    options: &LiveWriteOptions,
    nonce_store: &mut S,
) -> (res: Result<u64>)
    ensures
        !envelope_valid(*envelope, payload_json@) ==> res is Err && *final(nonce_store) == *old(nonce_store),
        envelope_valid(*envelope, payload_json@) && !within_window(envelope.event.created_at, options.now_ms, options.window_ms)
            ==> res == Err::<u64, SdkError>(SdkError::TimestampOutOfWindow) && *final(nonce_store) == *old(nonce_store),
{
    verify_envelope(envelope, payload_json)?;
    verify_timestamp(envelope.event.created_at, options.now_ms, options.window_ms)?;
    nonce_store.check_and_update(&envelope.event.actor, envelope.event.nonce, options.now_ms, options.nonce_ttl_ms)
}

/// [`verify_live_envelope`] against a [`MemoryNonceStore`], whose answer is known.
pub fn verify_live_envelope_in_memory<P>(
    envelope: &Envelope<P>,
    payload_json: &str,
    options: &LiveWriteOptions,
    nonce_store: &mut MemoryNonceStore,
) -> (res: Result<u64>)
    ensures
        res is Ok <==> (envelope_valid(*envelope, payload_json@)
            && within_window(envelope.event.created_at, options.now_ms, options.window_ms)
            && options.nonce_ttl_ms >= 0
            && nonce_fresh(old(nonce_store).records().get(envelope.event.actor@), envelope.event.nonce, options.now_ms)),
        envelope_valid(*envelope, payload_json@) && within_window(envelope.event.created_at, options.now_ms, options.window_ms)
            && options.nonce_ttl_ms >= 0
            && !nonce_fresh(old(nonce_store).records().get(envelope.event.actor@), envelope.event.nonce, options.now_ms)
            ==> res == Err::<u64, SdkError>(SdkError::NonceNotGreater {
                max_nonce: old(nonce_store).records()[envelope.event.actor@].max_nonce,
            }),
        res is Ok ==> res == Ok::<u64, SdkError>(envelope.event.nonce) && final(nonce_store).records()
            == old(nonce_store).records().insert(
            envelope.event.actor@,
            NonceRecord {
                max_nonce: envelope.event.nonce,
                expires_at: saturating_add_i64(options.now_ms, options.nonce_ttl_ms),
            },
        ),
        res is Err ==> final(nonce_store).records() == old(nonce_store).records(),
{
    proof {
        if envelope_valid(*envelope, payload_json@) {
            assert(valid_nonce(envelope.event.nonce));
        }
    }
    verify_envelope(envelope, payload_json)?;
    verify_timestamp(envelope.event.created_at, options.now_ms, options.window_ms)?;
    nonce_store.check_and_update(&envelope.event.actor, envelope.event.nonce, options.now_ms, options.nonce_ttl_ms)
}

/// A nonce once accepted for an actor is refused when replayed while its
/// record is live: within the TTL of the first acceptance, a second check of
/// any nonce not above it fails with `NonceNotGreater`.
pub proof fn lemma_nonce_replay_rejected(
    before: Map<Seq<char>, NonceRecord>,
    actor: Seq<char>,
    nonce: u64,
    now_ms: i64,
    ttl_ms: i64,
    replay_nonce: u64,
    replay_now_ms: i64,
)
    requires
        ttl_ms >= 0,
        replay_nonce <= nonce,
        replay_now_ms < saturating_add_i64(now_ms, ttl_ms),
    ensures
        !nonce_fresh(
            before.insert(actor, NonceRecord { max_nonce: nonce, expires_at: saturating_add_i64(now_ms, ttl_ms) }).get(actor),
            replay_nonce,
            replay_now_ms,
        ),
{
}

/// The header of a request JWT.
pub struct RequestJwtHeader {
    pub alg: String,
    pub typ: String,
    pub kid: AgentId,
}

/// The claims of a request JWT.
pub struct RequestJwtClaims {
    pub iss: AgentId,
    pub sub: AgentId,
    pub aud: String,
    pub iat: i64,
    pub exp: i64,
}

pub struct RequestBinding {
    pub audience: String,
}

impl RequestBinding {
    pub fn new(audience: &str) -> (binding: Self)
        ensures
            binding.audience@ == audience@,
    {
        RequestBinding { audience: audience.to_owned() }
    }
}

impl RequestJwtClaims {
    pub fn new(agent_id: AgentId, binding: RequestBinding, issued_at: i64, ttl_secs: i64) -> (claims: Self)
        requires
            i64::MIN <= issued_at + ttl_secs <= i64::MAX,
        ensures
            claims.iss@ == agent_id@,
            claims.sub@ == agent_id@,
            claims.aud == binding.audience,
            claims.iat == issued_at,
            claims.exp == issued_at + ttl_secs,
    {
        RequestJwtClaims {
            iss: agent_id.clone(),
            sub: agent_id,
            aud: binding.audience,
            iat: issued_at,
            exp: issued_at + ttl_secs,
        }
    }
}

/// What a service expects of request JWTs.
pub struct RequestAuthContext {
    pub audience: String,
    pub now_secs: i64,
    pub max_ttl_secs: i64,
}

impl RequestAuthContext {
    pub fn new(audience: &str) -> (context: Self)
        ensures
            context.audience@ == audience@,
            context.now_secs >= 0,
            context.max_ttl_secs == DEFAULT_REQUEST_JWT_TTL_SECS,
    {
        let binding = RequestBinding::new(audience);
        RequestAuthContext {
            audience: binding.audience,
            now_secs: unix_secs(),
            max_ttl_secs: DEFAULT_REQUEST_JWT_TTL_SECS,
        }
    }
}

/// The compact JSON of a JWT header, as `serde_json` writes the struct.
pub open spec fn jwt_header_json(alg: Seq<char>, typ: Seq<char>, kid: Seq<char>) -> Seq<char> {
    "{\"alg\":"@ + q(alg) + ",\"typ\":"@ + q(typ) + ",\"kid\":"@ + q(kid) + "}"@
}

/// The compact JSON of JWT claims, as `serde_json` writes the struct.
pub open spec fn jwt_claims_json(claims: RequestJwtClaims) -> Seq<char> {
    "{\"iss\":"@ + q(claims.iss@) + ",\"sub\":"@ + q(claims.sub@) + ",\"aud\":"@ + q(claims.aud@)
        + ",\"iat\":"@ + crate::codec::decimal(claims.iat as int) + ",\"exp\":"@
        + crate::codec::decimal(claims.exp as int) + "}"@
}

/// UTF-8 bytes of a character sequence.
pub open spec fn utf8(s: Seq<char>) -> Seq<u8> {
    vstd::utf8::encode_utf8(s)
}

/// The signing input of a request JWT made by the key with `seed`.
pub open spec fn jwt_signing_input(seed: Seq<u8>, claims: RequestJwtClaims) -> Seq<char> {
    let kid = agent_id_text(crate::crypto::ed25519_public_key(seed));
    base64url_encoding(utf8(jwt_header_json("EdDSA"@, "JWT"@, kid))) + "."@ + base64url_encoding(
        utf8(jwt_claims_json(claims)),
    )
}

/// The compact request JWT the key with `seed` writes for `claims`.
pub open spec fn jwt_token(seed: Seq<u8>, claims: RequestJwtClaims) -> Seq<char> {
    let input = jwt_signing_input(seed, claims);
    input + "."@ + base64url_encoding(crate::crypto::ed25519_signature(seed, utf8(input)))
}

fn bytes_of(s: &String) -> (b: Vec<u8>)
    ensures
        b@ == utf8(s@),
{
    crate::text::str_bytes(s.as_str())
}

impl AgentSigner {
    /// Writes a compact EdDSA JWT for claims whose issuer and subject are this signer.
    pub fn sign_request_jwt(&self, claims: &RequestJwtClaims) -> (res: Result<String>)
        ensures
            res is Ok <==> (claims.iss@ == agent_id_text(crate::crypto::ed25519_public_key(self.key_seed()))
                && claims.sub@ == agent_id_text(crate::crypto::ed25519_public_key(self.key_seed()))),
            res is Err ==> res == Err::<String, SdkError>(SdkError::InvalidJwtClaim("iss/sub")),
            res matches Ok(token) ==> token@ == jwt_token(self.key_seed(), *claims),
    {
        let agent_id = self.agent_id();
        if !claims.iss.same_as(&agent_id) || !claims.sub.same_as(&agent_id) {
            return Err(SdkError::InvalidJwtClaim("iss/sub"));
        }
        let mut header = "{\"alg\":".to_owned();
        let t = crate::codec::json_quote("EdDSA");
        crate::text::push_str(&mut header, t.as_str());
        crate::text::push_str(&mut header, ",\"typ\":");
        let t = crate::codec::json_quote("JWT");
        crate::text::push_str(&mut header, t.as_str());
        crate::text::push_str(&mut header, ",\"kid\":");
        let t = crate::codec::json_quote(agent_id.as_str());
        crate::text::push_str(&mut header, t.as_str());
        crate::text::push_str(&mut header, "}");
        assert(header@ =~= jwt_header_json("EdDSA"@, "JWT"@, agent_id@));

        let mut body = "{\"iss\":".to_owned();
        let t = crate::codec::json_quote(claims.iss.as_str());
        crate::text::push_str(&mut body, t.as_str());
        crate::text::push_str(&mut body, ",\"sub\":");
        let t = crate::codec::json_quote(claims.sub.as_str());
        crate::text::push_str(&mut body, t.as_str());
        crate::text::push_str(&mut body, ",\"aud\":");
        let t = crate::codec::json_quote(claims.aud.as_str());
        crate::text::push_str(&mut body, t.as_str());
        crate::text::push_str(&mut body, ",\"iat\":");
        let t = crate::codec::i64_decimal(claims.iat);
        crate::text::push_str(&mut body, t.as_str());
        crate::text::push_str(&mut body, ",\"exp\":");
        let t = crate::codec::i64_decimal(claims.exp);
        crate::text::push_str(&mut body, t.as_str());
        crate::text::push_str(&mut body, "}");
        assert(body@ =~= jwt_claims_json(*claims));

        let header_bytes = bytes_of(&header);
        let body_bytes = bytes_of(&body);
        let mut input = base64url_encode(header_bytes.as_slice());
        crate::text::push_str(&mut input, ".");
        let t = base64url_encode(body_bytes.as_slice());
        crate::text::push_str(&mut input, t.as_str());
        assert(input@ =~= jwt_signing_input(self.key_seed(), *claims));
        let input_bytes = bytes_of(&input);
        let signature = crate::crypto::sign_with_seed(&self.seed, input_bytes.as_slice());
        let mut token = input;
        crate::text::push_str(&mut token, ".");
        let t = base64url_encode(signature.as_slice());
        crate::text::push_str(&mut token, t.as_str());
        assert(token@ =~= jwt_token(self.key_seed(), *claims));
        Ok(token)
    }
}

} // verus!

verus! {

impl Clone for RequestJwtClaims {
    fn clone(&self) -> (r: Self)
        ensures
            r.iss@ == self.iss@,
            r.sub@ == self.sub@,
            r.aud@ == self.aud@,
            r.iat == self.iat,
            r.exp == self.exp,
    {
        RequestJwtClaims { iss: self.iss.clone(), sub: self.sub.clone(), aud: self.aud.clone(), iat: self.iat, exp: self.exp }
    }
}

/// The three dot-separated segments of a compact JWS, when it has exactly three.
pub open spec fn jws_segments(token: Seq<char>) -> Option<(Seq<char>, Seq<char>, Seq<char>)> {
    let i = crate::text::first_index_of(token, '.');
    let rest = token.skip(i + 1);
    let j = crate::text::first_index_of(rest, '.');
    let last = rest.skip(j + 1);
    if i < token.len() && j < rest.len() && crate::text::first_index_of(last, '.') == last.len() {
        Some((token.take(i), rest.take(j), last))
    } else {
        None
    }
}

/// Splits a compact JWS into its three segments.
pub fn split_jws(token: &str) -> (res: Option<(String, String, String)>)
    ensures
        match jws_segments(token@) {
            Some(parts) => res matches Some(r) && r.0@ == parts.0 && r.1@ == parts.1 && r.2@ == parts.2,
            None => res is None,
        },
{
    let v = crate::text::chars_of(token);
    let i = crate::text::find_char(v.as_slice(), '.');
    if i >= v.len() {
        return None;
    }
    let (first, tail) = v.as_slice().split_at(i);
    let (_, rest) = tail.split_at(1);
    assert(rest@ =~= token@.skip(i + 1));
    let j = crate::text::find_char(rest, '.');
    if j >= rest.len() {
        return None;
    }
    let (second, tail2) = rest.split_at(j);
    let (_, last) = tail2.split_at(1);
    assert(last@ =~= rest@.skip(j + 1));
    let k = crate::text::find_char(last, '.');
    if k < last.len() {
        return None;
    }
    assert(first@ =~= token@.take(i as int));
    assert(second@ =~= rest@.take(j as int));
    proof {
        crate::text::lemma_first_index_of(last@, '.');
        assert(crate::text::first_index_of(last@, '.') == last@.len());
        assert(jws_segments(token@) == Some((first@, second@, last@)));
    }
    Some((
        crate::text::string_from_chars(first),
        crate::text::string_from_chars(second),
        crate::text::string_from_chars(last),
    ))
}

/// The text a JWT segment's bytes decode to, when they are UTF-8.
pub open spec fn segment_text(bytes: Seq<u8>) -> Option<Seq<char>> {
    if vstd::utf8::valid_utf8(bytes) {
        Some(vstd::utf8::decode_utf8(bytes))
    } else {
        None
    }
}

/// The header a request JWT's first segment holds, as its `alg`, `typ` and
/// `kid` texts: a JSON object with these string members, `kid` an agent id.
pub open spec fn jwt_header_of(bytes: Seq<u8>) -> Option<(Seq<char>, Seq<char>, Seq<char>)> {
    match segment_text(bytes) {
        None => None,
        Some(t) => match (json_member_string(t, "alg"@), json_member_string(t, "typ"@), json_member_string(t, "kid"@)) {
            (Some(alg), Some(typ), Some(kid)) => if valid_agent_id(kid) {
                Some((alg, typ, kid))
            } else {
                None
            },
            _ => None,
        },
    }
}

/// The claims a request JWT's second segment holds, as `(iss, sub, aud, iat,
/// exp)`: a JSON object with string members `iss`, `sub` (agent ids) and
/// `aud`, and integer members `iat` and `exp`.
pub open spec fn jwt_claims_of(bytes: Seq<u8>) -> Option<(Seq<char>, Seq<char>, Seq<char>, i64, i64)> {
    match segment_text(bytes) {
        None => None,
        Some(t) => match (
            json_member_string(t, "iss"@),
            json_member_string(t, "sub"@),
            json_member_string(t, "aud"@),
            json_member_int(t, "iat"@),
            json_member_int(t, "exp"@),
        ) {
            (Some(iss), Some(sub), Some(aud), Some(iat), Some(exp)) => if valid_agent_id(iss) && valid_agent_id(sub) {
                Some((iss, sub, aud, iat, exp))
            } else {
                None
            },
            _ => None,
        },
    }
}

/// What verifying a request JWT gives: the claims its token carries, or the
/// first check that fails. The token must have three segments; the header
/// and claims segments must decode and parse, to the header and claims the
/// caller read from them; the signature segment must
/// decode to 64 bytes; the header must say `EdDSA` and `JWT` and name the
/// issuer, who is the subject; the signature must verify under the issuer's
/// key; and the claims must be for the audience, with `iat < exp`, current,
/// and no longer-lived than allowed.
pub open spec fn request_jwt_outcome(
    token: Seq<char>,
    given_header: RequestJwtHeader,
    given_claims: RequestJwtClaims,
    context: RequestAuthContext,
) -> core::result::Result<(Seq<char>, Seq<char>, Seq<char>, i64, i64), ErrorView> {
    match jws_segments(token) {
        None => Err(ErrorView::InvalidJwt("expected three compact JWS parts"@)),
        Some(parts) => match base64url_decoding(parts.0) {
            None => Err(ErrorView::Base64),
            Some(header_bytes) => match jwt_header_of(header_bytes) {
                None => Err(ErrorView::Json("invalid request JWT header"@)),
                Some(header) => match base64url_decoding(parts.1) {
                    None => Err(ErrorView::Base64),
                    Some(claims_bytes) => match jwt_claims_of(claims_bytes) {
                        None => Err(ErrorView::Json("invalid request JWT claims"@)),
                        Some(claims) => if header != (given_header.alg@, given_header.typ@, given_header.kid@)
                            || claims != (
                            given_claims.iss@,
                            given_claims.sub@,
                            given_claims.aud@,
                            given_claims.iat,
                            given_claims.exp,
                        ) {
                            Err(ErrorView::InvalidJwt("header or claims do not match the token"@))
                        } else {
                            jwt_checks(parts, header, claims, context)
                        },
                    },
                },
            },
        },
    }
}

/// The checks of a request JWT once its header and claims are read: the
/// signature's length, the header, the signature over the first two
/// segments, then the audience and times.
pub open spec fn jwt_checks(
    parts: (Seq<char>, Seq<char>, Seq<char>),
    header: (Seq<char>, Seq<char>, Seq<char>),
    claims: (Seq<char>, Seq<char>, Seq<char>, i64, i64),
    context: RequestAuthContext,
) -> core::result::Result<(Seq<char>, Seq<char>, Seq<char>, i64, i64), ErrorView> {
    match base64url_decoding(parts.2) {
        None => Err(ErrorView::Base64),
        Some(signature) => if signature.len() != 64 {
            Err(ErrorView::InvalidSignatureLength(signature.len() as usize))
        } else if header.0 != "EdDSA"@ {
            Err(ErrorView::InvalidJwtClaim("alg"@))
        } else if header.1 != "JWT"@ {
            Err(ErrorView::InvalidJwtClaim("typ"@))
        } else if header.2 != claims.0 || claims.0 != claims.1 {
            Err(ErrorView::InvalidJwtClaim("kid/iss/sub"@))
        } else {
            match agent_key_result(header.2) {
                Err(e) => Err(e@),
                Ok(key) => if !crate::crypto::ed25519_strict_accepts(key, utf8(parts.0 + "."@ + parts.1), signature) {
                    Err(ErrorView::Ed25519)
                } else if claims.2 != context.audience@ {
                    Err(ErrorView::InvalidJwtClaim("aud"@))
                } else if claims.4 <= claims.3 {
                    Err(ErrorView::InvalidJwtClaim("exp/iat"@))
                } else if claims.3 > context.now_secs || claims.4 < context.now_secs {
                    Err(ErrorView::InvalidJwtClaim("iat/exp"@))
                } else if claims.4 - claims.3 > context.max_ttl_secs {
                    Err(ErrorView::InvalidJwtClaim("ttl"@))
                } else {
                    Ok(claims)
                },
            }
        },
    }
}

/// Reads the header segment of a request JWT.
fn read_jwt_header(segment: &str) -> (res: Result<RequestJwtHeader>)
    ensures
        match base64url_decoding(segment@) {
            None => res == Err::<RequestJwtHeader, SdkError>(SdkError::Base64),
            Some(bytes) => match jwt_header_of(bytes) {
                None => res matches Err(e) && e@ == ErrorView::Json("invalid request JWT header"@),
                Some(h) => res matches Ok(r) && r.alg@ == h.0 && r.typ@ == h.1 && r.kid@ == h.2,
            },
        },
{
    let bytes = match base64url_decode(segment) {
        Ok(b) => b,
        Err(_) => {
            return Err(SdkError::Base64);
        },
    };
    let invalid = SdkError::Json("invalid request JWT header".to_owned());
    let text = match crate::text::utf8_text(bytes.as_slice()) {
        Some(t) => t,
        None => {
            return Err(invalid);
        },
    };
    let alg = json_member_str(text.as_str(), "alg");
    let typ = json_member_str(text.as_str(), "typ");
    let kid = json_member_str(text.as_str(), "kid");
    match (alg, typ, kid) {
        (Some(alg), Some(typ), Some(kid)) => match AgentId::parse(kid.as_str()) {
            Ok(kid) => Ok(RequestJwtHeader { alg, typ, kid }),
            Err(_) => Err(invalid),
        },
        _ => Err(invalid),
    }
}

/// Reads the claims segment of a request JWT.
fn read_jwt_claims(segment: &str) -> (res: Result<RequestJwtClaims>)
    ensures
        match base64url_decoding(segment@) {
            None => res == Err::<RequestJwtClaims, SdkError>(SdkError::Base64),
            Some(bytes) => match jwt_claims_of(bytes) {
                None => res matches Err(e) && e@ == ErrorView::Json("invalid request JWT claims"@),
                Some(c) => res matches Ok(r) && r.iss@ == c.0 && r.sub@ == c.1 && r.aud@ == c.2 && r.iat == c.3
                    && r.exp == c.4,
            },
        },
{
    let bytes = match base64url_decode(segment) {
        Ok(b) => b,
        Err(_) => {
            return Err(SdkError::Base64);
        },
    };
    let invalid = SdkError::Json("invalid request JWT claims".to_owned());
    let text = match crate::text::utf8_text(bytes.as_slice()) {
        Some(t) => t,
        None => {
            return Err(invalid);
        },
    };
    let iss = json_member_str(text.as_str(), "iss");
    let sub = json_member_str(text.as_str(), "sub");
    let aud = json_member_str(text.as_str(), "aud");
    let iat = json_member_i64(text.as_str(), "iat");
    let exp = json_member_i64(text.as_str(), "exp");
    match (iss, sub, aud, iat, exp) {
        (Some(iss), Some(sub), Some(aud), Some(iat), Some(exp)) => {
            let iss = match AgentId::parse(iss.as_str()) {
                Ok(id) => id,
                Err(_) => {
                    return Err(invalid);
                },
            };
            let sub = match AgentId::parse(sub.as_str()) {
                Ok(id) => id,
                Err(_) => {
                    return Err(invalid);
                },
            };
            Ok(RequestJwtClaims { iss, sub, aud, iat, exp })
        },
        _ => Err(invalid),
    }
}

/// Verifies a compact request JWT whose header and claims the caller has
/// parsed: reads them again from the token itself and refuses a header or
/// claims other than those, checks the signature over its first two
/// segments with the issuer's key, then the audience and times; gives the
/// claims the token carries.
pub fn verify_request_jwt(
    token: &str,
    header: &RequestJwtHeader,
    claims: &RequestJwtClaims,
    context: &RequestAuthContext,
) -> (res: Result<RequestJwtClaims>)
    ensures
        match request_jwt_outcome(token@, *header, *claims, *context) {
            Ok(c) => res matches Ok(r) && r.iss@ == c.0 && r.sub@ == c.1 && r.aud@ == c.2 && r.iat == c.3
                && r.exp == c.4,
            Err(e) => res matches Err(f) && f@ == e,
        },
{
    let (first, second, third) = match split_jws(token) {
        Some(parts) => parts,
        None => {
            return Err(SdkError::InvalidJwt("expected three compact JWS parts".to_owned()));
        },
    };
    let read_header = read_jwt_header(first.as_str())?;
    let read_claims = read_jwt_claims(second.as_str())?;
    if !(str_eq(read_header.alg.as_str(), header.alg.as_str()) && str_eq(read_header.typ.as_str(), header.typ.as_str())
        && read_header.kid.same_as(&header.kid) && read_claims.iss.same_as(&claims.iss) && read_claims.sub.same_as(
        &claims.sub,
    ) && str_eq(read_claims.aud.as_str(), claims.aud.as_str()) && read_claims.iat == claims.iat && read_claims.exp
        == claims.exp) {
        return Err(SdkError::InvalidJwt("header or claims do not match the token".to_owned()));
    }
    let header = read_header;
    let claims = read_claims;
    let signature_bytes = match base64url_decode(third.as_str()) {
        Ok(b) => b,
        Err(_) => {
            return Err(SdkError::Base64);
        },
    };
    if signature_bytes.len() != 64 {
        return Err(SdkError::InvalidSignatureLength(signature_bytes.len()));
    }
    let signature = crate::crypto::array64(signature_bytes.as_slice());
    if !str_eq(header.alg.as_str(), "EdDSA") {
        return Err(SdkError::InvalidJwtClaim("alg"));
    }
    if !str_eq(header.typ.as_str(), "JWT") {
        return Err(SdkError::InvalidJwtClaim("typ"));
    }
    if !header.kid.same_as(&claims.iss) || !claims.iss.same_as(&claims.sub) {
        return Err(SdkError::InvalidJwtClaim("kid/iss/sub"));
    }
    let key = header.kid.public_key_bytes()?;
    let mut input = first;
    crate::text::push_str(&mut input, ".");
    crate::text::push_str(&mut input, second.as_str());
    let input_bytes = bytes_of(&input);
    if !crate::crypto::verify_strict(&key, input_bytes.as_slice(), &signature) {
        return Err(SdkError::Ed25519);
    }
    if !str_eq(claims.aud.as_str(), context.audience.as_str()) {
        return Err(SdkError::InvalidJwtClaim("aud"));
    }
    if claims.exp <= claims.iat {
        return Err(SdkError::InvalidJwtClaim("exp/iat"));
    }
    if claims.iat > context.now_secs || claims.exp < context.now_secs {
        return Err(SdkError::InvalidJwtClaim("iat/exp"));
    }
    if claims.exp as i128 - claims.iat as i128 > context.max_ttl_secs as i128 {
        return Err(SdkError::InvalidJwtClaim("ttl"));
    }
    Ok(claims)
}

} // verus!
