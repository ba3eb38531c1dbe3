//! Server records: the host's hash chain over the envelopes of a room.

use vstd::prelude::*;

use crate::codec::{decimal, i64_decimal, jcs_canonical, jcs_canonicalize, json_quote, u64_decimal};
use crate::error::{fails_with, invalid_payload, ErrorView, Result, SdkError};
use crate::identity::{digest_text, event_json, event_json_text, q, Envelope};
use crate::text::{opt_str, opt_view, push_str, str_eq};

verus! {

pub struct ServerRecord<P> {
    pub room_id: String,
    pub seq: u64,
    pub pre_hash: Option<String>,
    pub hash: String,
    pub received_at: i64,
    pub envelope: Envelope<P>,
}

pub struct ServerRecordHashPayload {
    pub room_id: String,
    pub seq: u64,
    pub pre_hash: Option<String>,
    pub envelope_hash: String,
    pub received_at: i64,
}

pub fn server_record_hash_payload(
    room_id: &str,
    seq: u64,
    pre_hash: Option<&str>,
    envelope_hash: &str,
    received_at: i64,
) -> (p: ServerRecordHashPayload)
    ensures
        p.room_id@ == room_id@,
        p.seq == seq,
        opt_view(p.pre_hash) == opt_str(pre_hash),
        p.envelope_hash@ == envelope_hash@,
        p.received_at == received_at,
{
    ServerRecordHashPayload {
        room_id: room_id.to_owned(),
        seq,
        pre_hash: match pre_hash {
            Some(h) => Some(h.to_owned()),
            None => None,
        },
        envelope_hash: envelope_hash.to_owned(),
        received_at,
    }
}

/// The JSON text of an optional string: the string literal, or `null`.
pub open spec fn opt_json(o: Option<Seq<char>>) -> Seq<char> {
    match o {
        Some(s) => q(s),
        None => "null"@,
    }
}

/// The JSON text of a record's hash payload.
pub open spec fn record_hash_json(
    room_id: Seq<char>,
    seq: u64,
    pre_hash: Option<Seq<char>>,
    envelope_hash: Seq<char>,
    received_at: i64,
) -> Seq<char> {
    "{\"room_id\":"@ + q(room_id) + ",\"seq\":"@ + decimal(seq as int) + ",\"pre_hash\":"@ + opt_json(pre_hash)
        + ",\"envelope_hash\":"@ + q(envelope_hash) + ",\"received_at\":"@ + decimal(received_at as int) + "}"@
}

/// A record hash: base64url SHA3-256 of the canonical hash payload.
pub open spec fn record_hash_result(
    room_id: Seq<char>,
    seq: u64,
    pre_hash: Option<Seq<char>>,
    envelope_hash: Seq<char>,
    received_at: i64,
) -> Option<Seq<char>> {
    match jcs_canonical(record_hash_json(room_id, seq, pre_hash, envelope_hash, received_at)) {
        Some(bytes) => Some(digest_text(bytes)),
        None => None,
    }
}

fn push_opt_json(text: &mut String, o: Option<&str>)
    ensures
        final(text)@ == old(text)@ + opt_json(opt_str(o)),
{
    match o {
        Some(s) => {
            let t = json_quote(s);
            push_str(text, t.as_str());
        },
        None => push_str(text, "null"),
    }
}

/// The error of a JSON text that cannot be canonicalized for hashing.
pub open spec fn value_json_error(text: Seq<char>) -> ErrorView {
    ErrorView::CanonicalJson(crate::codec::jcs_error(text))
}

fn hash_text(text: &str) -> (res: Result<String>)
    ensures
        match jcs_canonical(text@) {
            Some(bytes) => res matches Ok(h) && h@ == digest_text(bytes),
            None => res matches Err(e) && e@ == value_json_error(text@),
        },
        res matches Ok(h) ==> h@.len() == 43,
{
    match jcs_canonicalize(text) {
        Ok(bytes) => {
            let digest = crate::crypto::sha3_256_digest(bytes.as_slice());
            Ok(crate::codec::base64url_encode(digest.as_slice()))
        },
        Err(message) => Err(SdkError::CanonicalJson(message)),
    }
}

pub fn server_record_hash(
    room_id: &str,
    seq: u64,
    pre_hash: Option<&str>,
    envelope_hash: &str,
    received_at: i64,
) -> (res: Result<String>)
    ensures
        match record_hash_result(room_id@, seq, opt_str(pre_hash), envelope_hash@, received_at) {
            Some(h) => res matches Ok(s) && s@ == h,
            None => res matches Err(e) && e@ == value_json_error(
                record_hash_json(room_id@, seq, opt_str(pre_hash), envelope_hash@, received_at),
            ),
        },
        res matches Ok(h) ==> h@.len() == 43,
{
    let mut text = "{\"room_id\":".to_owned();
    let t = json_quote(room_id);
    push_str(&mut text, t.as_str());
    push_str(&mut text, ",\"seq\":");
    let t = u64_decimal(seq);
    push_str(&mut text, t.as_str());
    push_str(&mut text, ",\"pre_hash\":");
    push_opt_json(&mut text, pre_hash);
    push_str(&mut text, ",\"envelope_hash\":");
    let t = json_quote(envelope_hash);
    push_str(&mut text, t.as_str());
    push_str(&mut text, ",\"received_at\":");
    let t = i64_decimal(received_at);
    push_str(&mut text, t.as_str());
    push_str(&mut text, "}");
    assert(text@ =~= record_hash_json(room_id@, seq, opt_str(pre_hash), envelope_hash@, received_at));
    hash_text(text.as_str())
}

/// The hash a record's fields give.
pub open spec fn record_hash_of<P>(r: ServerRecord<P>) -> Option<Seq<char>> {
    record_hash_result(r.room_id@, r.seq, opt_view(r.pre_hash), r.envelope.hash@, r.received_at)
}

fn opt_as_str(o: &Option<String>) -> (r: Option<&str>)
    ensures
        opt_str(r) == opt_view(*o),
{
    match o {
        Some(s) => Some(s.as_str()),
        None => None,
    }
}

pub fn build_server_record<P>(
    room_id: &str,
    seq: u64,
    pre_hash: Option<String>,
    received_at: i64,
    envelope: Envelope<P>,
) -> (res: Result<ServerRecord<P>>)
    ensures
        match record_hash_result(room_id@, seq, opt_view(pre_hash), envelope.hash@, received_at) {
            Some(h) => res matches Ok(r) && r.hash@ == h,
            None => res matches Err(e) && e@ == value_json_error(
                record_hash_json(room_id@, seq, opt_view(pre_hash), envelope.hash@, received_at),
            ),
        },
        res matches Ok(r) ==> {
            &&& r.room_id@ == room_id@
            &&& r.seq == seq
            &&& r.pre_hash == pre_hash
            &&& r.received_at == received_at
            &&& r.envelope == envelope
            &&& r.hash@.len() == 43
        },
{
    let hash = server_record_hash(room_id, seq, opt_as_str(&pre_hash), envelope.hash.as_str(), received_at)?;
    Ok(ServerRecord { room_id: room_id.to_owned(), seq, pre_hash, hash, received_at, envelope })
}

/// The failure of a record's own hash.
pub open spec fn record_failure<P>(r: ServerRecord<P>) -> Option<ErrorView> {
    match record_hash_of(r) {
        None => Some(
            value_json_error(
                record_hash_json(r.room_id@, r.seq, opt_view(r.pre_hash), r.envelope.hash@, r.received_at),
            ),
        ),
        Some(h) => if h != r.hash@ {
            Some(ErrorView::InvalidEventHash { expected: h, actual: r.hash@ })
        } else {
            None
        },
    }
}

pub fn verify_server_record<P>(record: &ServerRecord<P>) -> (res: Result<()>)
    ensures
        fails_with(res, record_failure(*record)),
{
    let expected = server_record_hash(
        record.room_id.as_str(),
        record.seq,
        opt_as_str(&record.pre_hash),
        record.envelope.hash.as_str(),
        record.received_at,
    )?;
    if str_eq(record.hash.as_str(), expected.as_str()) {
        Ok(())
    } else {
        Err(SdkError::InvalidEventHash { expected, actual: record.hash.clone() })
    }
}

/// A record continues the chain: the first has seq 1 and no previous hash,
/// each later one the next seq and the previous record's hash.
pub open spec fn links<P>(r: ServerRecord<P>, previous: Option<ServerRecord<P>>) -> bool {
    match previous {
        Some(p) => r.seq == p.seq + 1 && opt_view(r.pre_hash) == Some(p.hash@),
        None => r.seq == 1 && r.pre_hash is None,
    }
}

/// The first failure along a chain of records.
pub open spec fn chain_failure<P>(s: Seq<ServerRecord<P>>) -> Option<ErrorView>
    decreases s.len(),
{
    if s.len() == 0 {
        None
    } else if chain_failure(s.drop_last()) is Some {
        chain_failure(s.drop_last())
    } else if record_failure(s.last()) is Some {
        record_failure(s.last())
    } else if !links(s.last(), if s.len() > 1 { Some(s[s.len() - 2]) } else { None }) {
        link_failure(s.last(), if s.len() > 1 { Some(s[s.len() - 2]) } else { None })
    } else {
        None
    }
}

/// Why a record does not continue the chain after `previous`, if it does not.
pub open spec fn link_failure<P>(r: ServerRecord<P>, previous: Option<ServerRecord<P>>) -> Option<ErrorView> {
    match previous {
        Some(p) => if r.seq != p.seq + 1 {
            Some(invalid_payload("seq must increase by 1"@))
        } else if opt_view(r.pre_hash) != Some(p.hash@) {
            Some(invalid_payload("pre_hash mismatch"@))
        } else {
            None
        },
        None => if r.seq != 1 {
            Some(invalid_payload("first seq must be 1"@))
        } else if r.pre_hash is Some {
            Some(invalid_payload("first pre_hash must be null"@))
        } else {
            None
        },
    }
}

/// A valid chain: every record's hash is its own, seqs count up from 1, and
/// each record names the hash of the one before it.
pub open spec fn chain_valid<P>(s: Seq<ServerRecord<P>>) -> bool {
    &&& forall|i: int| 0 <= i < s.len() ==> record_failure(#[trigger] s[i]) is None
    &&& s.len() > 0 ==> links(s[0], None)
    &&& forall|i: int| 0 < i < s.len() ==> links(#[trigger] s[i], Some(s[i - 1]))
}

/// A chain passes exactly when it is valid.
pub proof fn lemma_chain_failure_valid<P>(s: Seq<ServerRecord<P>>)
    ensures
        chain_failure(s) is None <==> chain_valid(s),
    decreases s.len(),
{
    if s.len() > 0 {
        let t = s.drop_last();
        lemma_chain_failure_valid(t);
        if chain_valid(s) {
            assert(chain_valid(t)) by {
                assert forall|i: int| 0 <= i < t.len() implies record_failure(#[trigger] t[i]) is None by {
                    assert(t[i] == s[i]);
                }
                assert forall|i: int| 0 < i < t.len() implies links(#[trigger] t[i], Some(t[i - 1])) by {
                    assert(t[i] == s[i] && t[i - 1] == s[i - 1]);
                }
            }
            assert(record_failure(s[s.len() - 1]) is None);
            if s.len() > 1 {
                assert(links(s[s.len() - 1], Some(s[s.len() - 2])));
            }
        }
        if chain_failure(s) is None {
            assert forall|i: int| 0 <= i < s.len() implies record_failure(#[trigger] s[i]) is None by {
                if i < t.len() {
                    assert(t[i] == s[i]);
                }
            }
            assert forall|i: int| 0 < i < s.len() implies links(#[trigger] s[i], Some(s[i - 1])) by {
                if i < t.len() {
                    assert(t[i] == s[i] && t[i - 1] == s[i - 1]);
                }
            }
            if s.len() > 1 {
                assert(t[0] == s[0]);
            }
        }
    }
}

/// An accepted chain is linked by hash: the first record has seq 1 and no
/// previous hash, and every later record names the hash of the record just
/// before it and carries the next seq.
pub proof fn lemma_accepted_chain_links_by_hash<P>(s: Seq<ServerRecord<P>>)
    ensures
        chain_failure(s) is None ==> forall|i: int|
            0 < i < s.len() ==> #[trigger] opt_view(s[i].pre_hash) == Some(s[i - 1].hash@) && s[i].seq
                == s[i - 1].seq + 1,
        chain_failure(s) is None && s.len() > 0 ==> s[0].seq == 1 && s[0].pre_hash is None,
        (exists|i: int| 0 < i < s.len() && #[trigger] opt_view(s[i].pre_hash) != Some(s[i - 1].hash@))
            ==> chain_failure(s) is Some,
{
    lemma_chain_failure_valid(s);
    if chain_failure(s) is None {
        assert forall|i: int| 0 < i < s.len() implies #[trigger] opt_view(s[i].pre_hash) == Some(
            s[i - 1].hash@,
        ) && s[i].seq == s[i - 1].seq + 1 by {
            assert(links(s[i], Some(s[i - 1])));
        }
        if s.len() > 0 {
            assert(links(s[0], None));
        }
    }
}

pub fn verify_server_record_chain<P>(records: &[ServerRecord<P>]) -> (res: Result<()>)
    ensures
        fails_with(res, chain_failure(records@)),
        res is Ok <==> chain_valid(records@),
{
    proof {
        lemma_chain_failure_valid(records@);
    }
    let mut i: usize = 0;
    assert(records@.take(0) =~= Seq::<ServerRecord<P>>::empty());
    while i < records.len()
        invariant
            i <= records@.len(),
            chain_failure(records@.take(i as int)) is None,
        decreases records@.len() - i,
    {
        let ghost prefix = records@.take(i + 1);
        proof {
            assert(prefix.drop_last() =~= records@.take(i as int));
            assert(prefix.last() == records@[i as int]);
            if i > 0 {
                assert(prefix[prefix.len() - 2] == records@[i - 1]);
            }
        }
        let record = &records[i];
        match verify_server_record(record) {
            Ok(()) => {},
            Err(e) => {
                proof {
                    lemma_chain_stops(records@, i + 1);
                }
                return Err(e);
            },
        }
        let previous = if i > 0 {
            Some(&records[i - 1])
        } else {
            None
        };
        match check_link(record, previous) {
            Ok(()) => {},
            Err(e) => {
                proof {
                    lemma_chain_stops(records@, i + 1);
                }
                return Err(e);
            },
        }
        i += 1;
    }
    assert(records@.take(records@.len() as int) =~= records@);
    Ok(())
}

fn check_link<P>(record: &ServerRecord<P>, previous: Option<&ServerRecord<P>>) -> (res: Result<()>)
    ensures
        fails_with(
            res,
            link_failure(
                *record,
                match previous {
                    Some(p) => Some(*p),
                    None => None,
                },
            ),
        ),
        res is Ok <==> links(
            *record,
            match previous {
                Some(p) => Some(*p),
                None => None,
            },
        ),
{
    match previous {
        Some(p) => {
            if p.seq == u64::MAX || record.seq != p.seq + 1 {
                return Err(SdkError::InvalidPayload("seq must increase by 1".to_owned()));
            }
            let same = match &record.pre_hash {
                Some(h) => str_eq(h.as_str(), p.hash.as_str()),
                None => false,
            };
            if !same {
                return Err(SdkError::InvalidPayload("pre_hash mismatch".to_owned()));
            }
        },
        None => {
            if record.seq != 1 {
                return Err(SdkError::InvalidPayload("first seq must be 1".to_owned()));
            }
            if record.pre_hash.is_some() {
                return Err(SdkError::InvalidPayload("first pre_hash must be null".to_owned()));
            }
        },
    }
    Ok(())
}

proof fn lemma_chain_stops<P>(s: Seq<ServerRecord<P>>, n: int)
    requires
        0 <= n <= s.len(),
        chain_failure(s.take(n)) is Some,
    ensures
        chain_failure(s) == chain_failure(s.take(n)),
    decreases s.len() - n,
{
    if n < s.len() {
        assert(s.take(n + 1).drop_last() =~= s.take(n));
        lemma_chain_stops(s, n + 1);
    } else {
        assert(s.take(n) =~= s);
    }
}

/// The JSON text of an envelope around its payload's JSON text.
pub open spec fn envelope_json<P>(e: Envelope<P>, payload_json: Seq<char>) -> Seq<char> {
    "{\"hash\":"@ + q(e.hash@) + ",\"event\":"@ + event_json(e.event, payload_json) + ",\"signature\":"@ + q(
        e.signature@,
    ) + "}"@
}

/// The JSON text of a server record around its payload's JSON text.
pub open spec fn record_json<P>(r: ServerRecord<P>, payload_json: Seq<char>) -> Seq<char> {
    "{\"room_id\":"@ + q(r.room_id@) + ",\"seq\":"@ + decimal(r.seq as int) + ",\"pre_hash\":"@ + opt_json(
        opt_view(r.pre_hash),
    ) + ",\"hash\":"@ + q(r.hash@) + ",\"received_at\":"@ + decimal(r.received_at as int) + ",\"envelope\":"@
        + envelope_json(r.envelope, payload_json) + "}"@
}

/// The records' JSON texts separated by commas.
pub open spec fn records_body<P>(rs: Seq<ServerRecord<P>>, payloads: Seq<Seq<char>>) -> Seq<char>
    decreases rs.len(),
{
    if rs.len() == 0 {
        Seq::empty()
    } else if rs.len() == 1 {
        record_json(rs[0], payloads[0])
    } else {
        records_body(rs.drop_last(), payloads.drop_last()) + ","@ + record_json(rs.last(), payloads[rs.len() - 1])
    }
}

fn record_json_text<P>(r: &ServerRecord<P>, payload_json: &str) -> (text: String)
    ensures
        text@ == record_json(*r, payload_json@),
{
    let mut text = "{\"room_id\":".to_owned();
    let t = json_quote(r.room_id.as_str());
    push_str(&mut text, t.as_str());
    push_str(&mut text, ",\"seq\":");
    let t = u64_decimal(r.seq);
    push_str(&mut text, t.as_str());
    push_str(&mut text, ",\"pre_hash\":");
    push_opt_json(&mut text, opt_as_str(&r.pre_hash));
    push_str(&mut text, ",\"hash\":");
    let t = json_quote(r.hash.as_str());
    push_str(&mut text, t.as_str());
    push_str(&mut text, ",\"received_at\":");
    let t = i64_decimal(r.received_at);
    push_str(&mut text, t.as_str());
    push_str(&mut text, ",\"envelope\":");
    push_str(&mut text, "{\"hash\":");
    let t = json_quote(r.envelope.hash.as_str());
    push_str(&mut text, t.as_str());
    push_str(&mut text, ",\"event\":");
    let t = event_json_text(&r.envelope.event, payload_json);
    push_str(&mut text, t.as_str());
    push_str(&mut text, ",\"signature\":");
    let t = json_quote(r.envelope.signature.as_str());
    push_str(&mut text, t.as_str());
    push_str(&mut text, "}");
    push_str(&mut text, "}");
    assert(text@ =~= record_json(*r, payload_json@));
    text
}

/// The digest of an archive: base64url SHA3-256 of the canonical JSON array
/// of the records.
pub open spec fn archive_digest<P>(rs: Seq<ServerRecord<P>>, payloads: Seq<Seq<char>>) -> Option<Seq<char>> {
    match jcs_canonical("["@ + records_body(rs, payloads) + "]"@) {
        Some(bytes) => Some(digest_text(bytes)),
        None => None,
    }
}

/// Digest of an archive of records; `payload_jsons[i]` is the JSON text of
/// the payload of `records[i]`.
pub fn archive_events_digest<P>(records: &[ServerRecord<P>], payload_jsons: &[String]) -> (res: Result<String>)
    requires
        payload_jsons@.len() == records@.len(),
    ensures
        match archive_digest(records@, crate::text::views(payload_jsons@)) {
            Some(h) => res matches Ok(s) && s@ == h,
            None => res matches Err(e) && e@ == value_json_error("["@ + records_body(
                records@,
                crate::text::views(payload_jsons@),
            ) + "]"@),
        },
{
    let ghost payloads = crate::text::views(payload_jsons@);
    let mut body = String::new();
    let mut i: usize = 0;
    while i < records.len()
        invariant
            i <= records@.len(),
            payload_jsons@.len() == records@.len(),
            payloads == crate::text::views(payload_jsons@),
            body@ == records_body(records@.take(i as int), payloads.take(i as int)),
        decreases records@.len() - i,
    {
        proof {
            assert(records@.take(i + 1).drop_last() =~= records@.take(i as int));
            assert(payloads.take(i + 1).drop_last() =~= payloads.take(i as int));
            assert(payloads[i as int] == payload_jsons@[i as int]@);
        }
        if i > 0 {
            push_str(&mut body, ",");
        }
        let t = record_json_text(&records[i], payload_jsons[i].as_str());
        push_str(&mut body, t.as_str());
        i += 1;
    }
    assert(records@.take(records@.len() as int) =~= records@);
    assert(payloads.take(payloads.len() as int) =~= payloads);
    let mut text = "[".to_owned();
    push_str(&mut text, body.as_str());
    push_str(&mut text, "]");
    hash_text(text.as_str())
}

} // verus!

verus! {

/// A record built by `build_server_record` carries its own hash.
pub proof fn lemma_built_record_verifies<P>(
    room_id: Seq<char>,
    seq: u64,
    pre_hash: Option<String>,
    received_at: i64,
    envelope: Envelope<P>,
    record: ServerRecord<P>,
)
    requires
        record_hash_result(room_id, seq, opt_view(pre_hash), envelope.hash@, received_at) == Some(record.hash@),
        record.room_id@ == room_id,
        record.seq == seq,
        record.pre_hash == pre_hash,
        record.received_at == received_at,
        record.envelope == envelope,
    ensures
        record_failure(record) is None,
{
}

/// Appending a record with its own hash, the next seq and the hash of the
/// last record keeps a chain valid.
pub proof fn lemma_chain_extends<P>(s: Seq<ServerRecord<P>>, record: ServerRecord<P>)
    requires
        chain_valid(s),
        record_failure(record) is None,
        links(record, if s.len() > 0 { Some(s.last()) } else { None }),
    ensures
        chain_valid(s.push(record)),
{
    let t = s.push(record);
    assert forall|i: int| 0 <= i < t.len() implies record_failure(#[trigger] t[i]) is None by {
        if i < s.len() {
            assert(t[i] == s[i]);
        }
    }
    assert forall|i: int| 0 < i < t.len() implies links(#[trigger] t[i], Some(t[i - 1])) by {
        if i < s.len() {
            assert(t[i] == s[i] && t[i - 1] == s[i - 1]);
        } else {
            assert(t[i - 1] == s.last());
        }
    }
    if s.len() > 0 {
        assert(t[0] == s[0]);
    }
}

} // verus!
