//! The request-building side of the HTTP clients: endpoint URLs and query
//! strings. The requests themselves are sent by the application.

use vstd::prelude::*;

use crate::codec::{decimal, i64_decimal, u64_decimal};
use crate::text::{push_char, push_str, str_bytes, trim_end_char, trim_end_matches_char, trim_start_char, trim_start_matches_char, views};

verus! {

/// A byte that stands for itself in a query component.
pub open spec fn unreserved(b: u8) -> bool {
    (65 <= b <= 90) || (97 <= b <= 122) || (48 <= b <= 57) || b == 45 || b == 46 || b == 95 || b == 126
}

/// An uppercase hexadecimal digit.
pub open spec fn hex_char(n: u8) -> char
    recommends
        n < 16,
{
    if n < 10 {
        (n + 48) as char
    } else {
        (n + 55) as char
    }
}

/// The encoding of one byte: itself if unreserved, else `%XX`.
pub open spec fn encoded_byte(b: u8) -> Seq<char> {
    if unreserved(b) {
        seq![b as char]
    } else {
        seq!['%', hex_char(b / 16), hex_char(b % 16)]
    }
}

/// Percent-encoding of bytes, unreserved bytes kept.
pub open spec fn percent_encoded(bytes: Seq<u8>) -> Seq<char>
    decreases bytes.len(),
{
    if bytes.len() == 0 {
        Seq::empty()
    } else {
        percent_encoded(bytes.drop_last()) + encoded_byte(bytes.last())
    }
}

/// The percent-encoding of the UTF-8 bytes of a text.
pub open spec fn encode_component(s: Seq<char>) -> Seq<char> {
    percent_encoded(vstd::utf8::encode_utf8(s))
}

fn hex_digit(n: u8) -> (c: char)
    requires
        n < 16,
    ensures
        c == hex_char(n),
{
    if n < 10 {
        (n + 48) as char
    } else {
        (n + 55) as char
    }
}

/// Percent-encodes the UTF-8 bytes of `value`, keeping `A-Z a-z 0-9 - . _ ~`.
pub fn encode_query_component(value: &str) -> (encoded: String)
    ensures
        encoded@ == encode_component(value@),
{
    let bytes = str_bytes(value);
    let mut encoded = String::new();
    let mut i: usize = 0;
    while i < bytes.len()
        invariant
            i <= bytes@.len(),
            encoded@ == percent_encoded(bytes@.take(i as int)),
        decreases bytes@.len() - i,
    {
        let b = bytes[i];
        proof {
            assert(bytes@.take(i + 1).drop_last() =~= bytes@.take(i as int));
        }
        if (b >= 65 && b <= 90) || (b >= 97 && b <= 122) || (b >= 48 && b <= 57) || b == 45 || b == 46 || b == 95 || b
            == 126 {
            push_char(&mut encoded, b as char);
        } else {
            push_char(&mut encoded, '%');
            push_char(&mut encoded, hex_digit(b / 16));
            push_char(&mut encoded, hex_digit(b % 16));
        }
        i += 1;
        assert(encoded@ =~= percent_encoded(bytes@.take(i as int)));
    }
    assert(bytes@.take(bytes@.len() as int) =~= bytes@);
    encoded
}

/// Texts joined with `&`.
pub open spec fn join_amp(s: Seq<Seq<char>>) -> Seq<char>
    decreases s.len(),
{
    if s.len() == 0 {
        Seq::empty()
    } else if s.len() == 1 {
        s[0]
    } else {
        join_amp(s.drop_last()) + "&"@ + s.last()
    }
}

/// A `key=value` pair when there is a value.
pub open spec fn pair_if(key: Seq<char>, value: Option<Seq<char>>) -> Seq<Seq<char>> {
    match value {
        Some(v) => seq![key + "="@ + v],
        None => Seq::empty(),
    }
}

/// An optional text, percent-encoded.
pub open spec fn encoded_opt(value: Option<String>) -> Option<Seq<char>> {
    match value {
        Some(v) => Some(encode_component(v@)),
        None => None,
    }
}

/// An optional unsigned number in decimal.
pub open spec fn decimal_opt_u64(value: Option<u64>) -> Option<Seq<char>> {
    match value {
        Some(v) => Some(decimal(v as int)),
        None => None,
    }
}

/// An optional length in decimal.
pub open spec fn decimal_opt_usize(value: Option<usize>) -> Option<Seq<char>> {
    match value {
        Some(v) => Some(decimal(v as int)),
        None => None,
    }
}

/// An optional signed number in decimal.
pub open spec fn decimal_opt_i64(value: Option<i64>) -> Option<Seq<char>> {
    match value {
        Some(v) => Some(decimal(v as int)),
        None => None,
    }
}

fn push_pair(pairs: &mut Vec<String>, key: &str, value: Option<String>)
    ensures
        views(final(pairs)@) == views(old(pairs)@) + pair_if(key@, crate::text::opt_view(value)),
{
    if let Some(value) = value {
        let mut pair = key.to_owned();
        push_str(&mut pair, "=");
        push_str(&mut pair, value.as_str());
        let ghost before = pairs@;
        pairs.push(pair);
        assert(views(pairs@) =~= views(before) + pair_if(key@, Some(value@)));
    } else {
        assert(views(pairs@) =~= views(pairs@) + Seq::<Seq<char>>::empty());
    }
}

fn encode_opt(value: &Option<String>) -> (r: Option<String>)
    ensures
        crate::text::opt_view(r) == encoded_opt(*value),
{
    match value {
        Some(v) => Some(encode_query_component(v.as_str())),
        None => None,
    }
}

fn u64_opt(value: Option<u64>) -> (r: Option<String>)
    ensures
        crate::text::opt_view(r) == decimal_opt_u64(value),
{
    match value {
        Some(v) => Some(u64_decimal(v)),
        None => None,
    }
}

fn usize_opt(value: Option<usize>) -> (r: Option<String>)
    ensures
        crate::text::opt_view(r) == decimal_opt_usize(value),
{
    match value {
        Some(v) => Some(u64_decimal(v as u64)),
        None => None,
    }
}

fn i64_opt(value: Option<i64>) -> (r: Option<String>)
    ensures
        crate::text::opt_view(r) == decimal_opt_i64(value),
{
    match value {
        Some(v) => Some(i64_decimal(v)),
        None => None,
    }
}

fn join_pairs(pairs: &Vec<String>) -> (text: String)
    ensures
        text@ == join_amp(views(pairs@)),
{
    let mut text = String::new();
    let mut i: usize = 0;
    while i < pairs.len()
        invariant
            i <= pairs@.len(),
            text@ == join_amp(views(pairs@.take(i as int))),
        decreases pairs@.len() - i,
    {
        proof {
            assert(views(pairs@.take(i + 1)).drop_last() =~= views(pairs@.take(i as int)));
            assert(views(pairs@.take(i + 1)).last() == pairs@[i as int]@);
        }
        if i > 0 {
            push_str(&mut text, "&");
        }
        push_str(&mut text, pairs[i].as_str());
        i += 1;
        proof {
            if i == 1 {
                assert(text@ =~= join_amp(views(pairs@.take(i as int))));
            }
        }
    }
    assert(pairs@.take(pairs@.len() as int) =~= pairs@);
    text
}

/// Options of a room's event listing.
pub struct RoomEventsOptions {
    pub after_seq: Option<u64>,
    pub limit: Option<usize>,
    pub cursor: Option<String>,
    pub jwt: Option<String>,
}

impl Default for RoomEventsOptions {
    fn default() -> (o: Self)
        ensures
            o.after_seq is None,
            o.limit is None,
            o.cursor is None,
            o.jwt is None,
    {
        RoomEventsOptions { after_seq: None, limit: None, cursor: None, jwt: None }
    }
}

impl RoomEventsOptions {
    /// The query string: `after_seq`, `limit` and the encoded `cursor`, each
    /// when set, joined with `&`.
    pub open spec fn query(self) -> Seq<char> {
        join_amp(
            pair_if("after_seq"@, decimal_opt_u64(self.after_seq)) + pair_if("limit"@, decimal_opt_usize(self.limit))
                + pair_if("cursor"@, encoded_opt(self.cursor)),
        )
    }

    pub fn query_string(&self) -> (q: String)
        ensures
            q@ == self.query(),
    {
        let mut pairs: Vec<String> = Vec::new();
        push_pair(&mut pairs, "after_seq", u64_opt(self.after_seq));
        push_pair(&mut pairs, "limit", usize_opt(self.limit));
        push_pair(&mut pairs, "cursor", encode_opt(&self.cursor));
        assert(views(pairs@) =~= pair_if("after_seq"@, decimal_opt_u64(self.after_seq)) + pair_if(
            "limit"@,
            decimal_opt_usize(self.limit),
        ) + pair_if("cursor"@, encoded_opt(self.cursor)));
        join_pairs(&pairs)
    }
}

/// Joining one more text puts it at the end, after a `&` when there was
/// already one.
proof fn lemma_join_amp_push(s: Seq<Seq<char>>, x: Seq<char>)
    ensures
        join_amp(s.push(x)) == if s.len() == 0 {
            x
        } else {
            join_amp(s) + "&"@ + x
        },
{
    assert(s.push(x).drop_last() =~= s);
    assert(s.push(x).last() == x);
}

/// A join begins with its first text.
proof fn lemma_join_amp_starts_with_first(s: Seq<Seq<char>>)
    requires
        s.len() > 0,
    ensures
        join_amp(s).len() >= s[0].len(),
        join_amp(s).take(s[0].len() as int) =~= s[0],
    decreases s.len(),
{
    if s.len() > 1 {
        let t = s.drop_last();
        lemma_join_amp_starts_with_first(t);
        assert(t[0] == s[0]);
        let j = join_amp(t) + "&"@ + s.last();
        assert(j.take(s[0].len() as int) =~= join_amp(t).take(s[0].len() as int));
    }
}

/// The cursor is the last pair of the query of room events: setting it on
/// options without one appends `cursor=` and its percent-encoding, after a
/// `&` when `after_seq` or `limit` is set. A query with `after_seq` set
/// begins with `after_seq=` and its decimal.
pub proof fn lemma_room_events_query_cursor(opts: RoomEventsOptions, bare: RoomEventsOptions)
    requires
        opts.after_seq == bare.after_seq,
        opts.limit == bare.limit,
        bare.cursor is None,
    ensures
        opts.cursor matches Some(c) ==> opts.query() == if opts.after_seq is None && opts.limit is None {
            "cursor="@ + encode_component(c@)
        } else {
            bare.query() + "&"@ + "cursor="@ + encode_component(c@)
        },
        opts.cursor is None ==> opts.query() == bare.query(),
        opts.after_seq matches Some(n) ==> opts.query().take(("after_seq="@ + decimal(n as int)).len() as int)
            == "after_seq="@ + decimal(n as int),
{
    let base = pair_if("after_seq"@, decimal_opt_u64(opts.after_seq)) + pair_if(
        "limit"@,
        decimal_opt_usize(opts.limit),
    );
    assert(bare.query() == join_amp(base + Seq::<Seq<char>>::empty()));
    assert(base + Seq::<Seq<char>>::empty() =~= base);
    reveal_strlit("cursor");
    reveal_strlit("cursor=");
    reveal_strlit("after_seq");
    reveal_strlit("after_seq=");
    reveal_strlit("=");
    if let Some(c) = opts.cursor {
        let x = "cursor="@ + encode_component(c@);
        assert("cursor"@ + "="@ + encode_component(c@) =~= x);
        assert(base + pair_if("cursor"@, encoded_opt(opts.cursor)) =~= base.push(x));
        lemma_join_amp_push(base, x);
        assert(x =~= "cursor="@ + encode_component(c@));
        assert(opts.query() == join_amp(base.push(x)));
    } else {
        assert(opts.query() == bare.query());
    }
    if let Some(n) = opts.after_seq {
        let all = base + pair_if("cursor"@, encoded_opt(opts.cursor));
        assert("after_seq"@ + "="@ + decimal(n as int) =~= "after_seq="@ + decimal(n as int));
        assert(all[0] == "after_seq="@ + decimal(n as int));
        lemma_join_amp_starts_with_first(all);
    }
}

/// Options of the caller's room listing.
pub struct MyRoomsOptions {
    pub status: Option<String>,
    pub membership: Option<String>,
    pub limit: Option<usize>,
    pub cursor: Option<String>,
}

impl Default for MyRoomsOptions {
    fn default() -> (o: Self)
        ensures
            o.status is None,
            o.membership is None,
            o.limit is None,
            o.cursor is None,
    {
        MyRoomsOptions { status: None, membership: None, limit: None, cursor: None }
    }
}

impl MyRoomsOptions {
    /// The query string: encoded `status` and `membership`, `limit`, encoded
    /// `cursor`, each when set, joined with `&`.
    pub open spec fn query(self) -> Seq<char> {
        join_amp(
            pair_if("status"@, encoded_opt(self.status)) + pair_if("membership"@, encoded_opt(self.membership))
                + pair_if("limit"@, decimal_opt_usize(self.limit)) + pair_if("cursor"@, encoded_opt(self.cursor)),
        )
    }

    pub fn query_string(&self) -> (q: String)
        ensures
            q@ == self.query(),
    {
        let mut pairs: Vec<String> = Vec::new();
        push_pair(&mut pairs, "status", encode_opt(&self.status));
        push_pair(&mut pairs, "membership", encode_opt(&self.membership));
        push_pair(&mut pairs, "limit", usize_opt(self.limit));
        push_pair(&mut pairs, "cursor", encode_opt(&self.cursor));
        assert(views(pairs@) =~= pair_if("status"@, encoded_opt(self.status)) + pair_if(
            "membership"@,
            encoded_opt(self.membership),
        ) + pair_if("limit"@, decimal_opt_usize(self.limit)) + pair_if("cursor"@, encoded_opt(self.cursor)));
        join_pairs(&pairs)
    }
}

/// Options of the public room listing.
pub struct PublicRoomsOptions {
    pub status: Option<String>,
    pub tag: Option<String>,
    pub keyword: Option<String>,
    pub creator: Option<String>,
    pub starts_after: Option<i64>,
    pub ends_before: Option<i64>,
    pub language: Option<String>,
    pub limit: Option<usize>,
    pub cursor: Option<String>,
}

impl Default for PublicRoomsOptions {
    fn default() -> (o: Self)
        ensures
            o.status is None,
            o.tag is None,
            o.keyword is None,
            o.creator is None,
            o.starts_after is None,
            o.ends_before is None,
            o.language is None,
            o.limit is None,
            o.cursor is None,
    {
        PublicRoomsOptions {
            status: None,
            tag: None,
            keyword: None,
            creator: None,
            starts_after: None,
            ends_before: None,
            language: None,
            limit: None,
            cursor: None,
        }
    }
}

impl PublicRoomsOptions {
    /// The query string: the set options in the order status, tag, keyword,
    /// creator, starts_after, ends_before, language, limit, cursor, texts
    /// percent-encoded, joined with `&`.
    pub open spec fn query(self) -> Seq<char> {
        join_amp(
            pair_if("status"@, encoded_opt(self.status)) + pair_if("tag"@, encoded_opt(self.tag)) + pair_if(
                "keyword"@,
                encoded_opt(self.keyword),
            ) + pair_if("creator"@, encoded_opt(self.creator)) + pair_if(
                "starts_after"@,
                decimal_opt_i64(self.starts_after),
            ) + pair_if("ends_before"@, decimal_opt_i64(self.ends_before)) + pair_if(
                "language"@,
                encoded_opt(self.language),
            ) + pair_if("limit"@, decimal_opt_usize(self.limit)) + pair_if("cursor"@, encoded_opt(self.cursor)),
        )
    }

    pub fn query_string(&self) -> (q: String)
        ensures
            q@ == self.query(),
    {
        let mut pairs: Vec<String> = Vec::new();
        push_pair(&mut pairs, "status", encode_opt(&self.status));
        push_pair(&mut pairs, "tag", encode_opt(&self.tag));
        push_pair(&mut pairs, "keyword", encode_opt(&self.keyword));
        push_pair(&mut pairs, "creator", encode_opt(&self.creator));
        push_pair(&mut pairs, "starts_after", i64_opt(self.starts_after));
        push_pair(&mut pairs, "ends_before", i64_opt(self.ends_before));
        push_pair(&mut pairs, "language", encode_opt(&self.language));
        push_pair(&mut pairs, "limit", usize_opt(self.limit));
        push_pair(&mut pairs, "cursor", encode_opt(&self.cursor));
        assert(views(pairs@) =~= pair_if("status"@, encoded_opt(self.status)) + pair_if("tag"@, encoded_opt(self.tag))
            + pair_if("keyword"@, encoded_opt(self.keyword)) + pair_if("creator"@, encoded_opt(self.creator)) + pair_if(
            "starts_after"@,
            decimal_opt_i64(self.starts_after),
        ) + pair_if("ends_before"@, decimal_opt_i64(self.ends_before)) + pair_if(
            "language"@,
            encoded_opt(self.language),
        ) + pair_if("limit"@, decimal_opt_usize(self.limit)) + pair_if("cursor"@, encoded_opt(self.cursor)));
        join_pairs(&pairs)
    }
}

/// A client's endpoint URL: the base without trailing slashes, one slash,
/// and the path without leading slashes.
pub open spec fn endpoint_url(base_url: Seq<char>, path: Seq<char>) -> Seq<char> {
    trim_end_char(base_url, '/') + "/"@ + trim_start_char(path, '/')
}

/// Joins a client's base URL and an endpoint path.
pub fn join_url(base_url: &str, path: &str) -> (url: String)
    ensures
        url@ == endpoint_url(base_url@, path@),
{
    let mut url = trim_end_matches_char(base_url, '/');
    push_str(&mut url, "/");
    let rest = trim_start_matches_char(path, '/');
    push_str(&mut url, rest.as_str());
    url
}

/// The server-sent events URL of a room.
pub open spec fn live_events_url(base_url: Seq<char>, room_id: Seq<char>) -> Seq<char> {
    trim_end_char(base_url, '/') + "/v1/rooms/"@ + encode_component(room_id) + "/events/live"@
}

pub fn sse_events_url(base_url: &str, room_id: &str) -> (url: String)
    ensures
        url@ == live_events_url(base_url@, room_id@),
{
    let mut url = trim_end_matches_char(base_url, '/');
    push_str(&mut url, "/v1/rooms/");
    let room = encode_query_component(room_id);
    push_str(&mut url, room.as_str());
    push_str(&mut url, "/events/live");
    url
}

} // verus!
