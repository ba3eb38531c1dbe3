//! Agent Discourse Protocol 1.0: kernel types, the room type system, and
//! verification helpers.
//!
//! The protocol defines nine built-in event types. Every other event type is
//! declared per room as a schema-validated type definition, either inline or
//! imported from a type pack. Hosts validate structure and permissions; they
//! never need to understand application semantics.

pub mod event_type;
pub mod pack_id;
pub mod records;

pub use records::{
    archive_events_digest, build_server_record, server_record_hash, server_record_hash_payload, verify_server_record,
    verify_server_record_chain, ServerRecord, ServerRecordHashPayload,
};

use vstd::prelude::*;

use crate::error::{fails_with, invalid_payload, ErrorView, Result, SdkError};
use crate::identity::{AgentId, Envelope, Event};
use crate::text::{blank, chars_of, has_prefix, is_blank, push_str, seq_lt, starts_with, str_eq, str_lt};

verus! {

pub const PROTOCOL: &'static str = "agent-discourse/1.0";

/// The nine built-in event types. All other types are room-defined.
pub const BUILTIN_EVENT_TYPES: [&'static str; 9] = [
    event_type::ROOM_CREATE,
    event_type::ROOM_JOIN,
    event_type::ROOM_JOIN_REVIEW,
    event_type::ROOM_LEAVE,
    event_type::ROOM_MEMBER_ROLE_UPDATE,
    event_type::ROOM_CLOSE,
    event_type::ROOM_CANCEL,
    event_type::TYPE_DEFINE,
    event_type::MESSAGE_CREATE,
];

/// Custom event types must not use these prefixes.
pub const RESERVED_TYPE_PREFIXES: [&'static str; 2] = ["room.", "type."];

#[derive(Clone, Copy, Debug, PartialEq, Eq, Structural)]
pub enum RoomState {
    Scheduled,
    Active,
    Ended,
    Cancelled,
}

#[derive(Clone, Copy, Debug, PartialEq, Eq, Structural)]
pub enum Visibility {
    Public,
    Restricted,
    Private,
}

#[derive(Clone, Copy, Debug, PartialEq, Eq, Structural, PartialOrd, Ord)]
pub enum Role {
    Moderator,
    Speaker,
    Observer,
}

/// Permission class of an event type.
#[derive(Clone, Copy, Debug, PartialEq, Eq, Structural)]
pub enum TypeKind {
    Message,
    Signal,
    Control,
}

#[derive(Clone, Copy, Debug, PartialEq, Eq, Structural)]
pub enum TypeStatus {
    Active,
    Deprecated,
    Disabled,
}

#[derive(Clone, Copy, Debug, PartialEq, Eq, Structural)]
pub enum JoinRequestStatus {
    Pending,
    Approved,
    Rejected,
    Expired,
}

#[derive(Clone, Copy, Debug, PartialEq, Eq, Structural)]
pub enum JoinDecision {
    Approve,
    Reject,
}

/// One of the built-in event types.
pub open spec fn builtin_event_type(t: Seq<char>) -> bool {
    ||| t == event_type::ROOM_CREATE@
    ||| t == event_type::ROOM_JOIN@
    ||| t == event_type::ROOM_JOIN_REVIEW@
    ||| t == event_type::ROOM_LEAVE@
    ||| t == event_type::ROOM_MEMBER_ROLE_UPDATE@
    ||| t == event_type::ROOM_CLOSE@
    ||| t == event_type::ROOM_CANCEL@
    ||| t == event_type::TYPE_DEFINE@
    ||| t == event_type::MESSAGE_CREATE@
}

pub fn is_builtin_event_type(event_type: &str) -> (r: bool)
    ensures
        r == builtin_event_type(event_type@),
{
    str_eq(event_type, event_type::ROOM_CREATE) || str_eq(event_type, event_type::ROOM_JOIN) || str_eq(
        event_type,
        event_type::ROOM_JOIN_REVIEW,
    ) || str_eq(event_type, event_type::ROOM_LEAVE) || str_eq(event_type, event_type::ROOM_MEMBER_ROLE_UPDATE)
        || str_eq(event_type, event_type::ROOM_CLOSE) || str_eq(event_type, event_type::ROOM_CANCEL) || str_eq(
        event_type,
        event_type::TYPE_DEFINE,
    ) || str_eq(event_type, event_type::MESSAGE_CREATE)
}

/// Every event but `room.create` names its room.
pub fn event_requires_room_id(event_type: &str) -> (r: bool)
    ensures
        r == (event_type@ != event_type::ROOM_CREATE@),
{
    !str_eq(event_type, event_type::ROOM_CREATE)
}

/// A character that may open a segment of a type name.
pub open spec fn lead_char(c: char) -> bool {
    ('a' <= c && c <= 'z') || ('0' <= c && c <= '9')
}

/// A character that may continue a segment of a type name.
pub open spec fn tail_char(c: char) -> bool {
    lead_char(c) || c == '_' || c == '-'
}

/// The character at `i` opens a segment after the start or a dot, and
/// otherwise continues one or is a dot.
pub open spec fn name_position_ok(s: Seq<char>, i: int) -> bool {
    if i == 0 || s[i - 1] == '.' {
        lead_char(s[i])
    } else {
        s[i] == '.' || tail_char(s[i])
    }
}

/// Lowercase dot-separated segments, at least two, each opening with a
/// lowercase letter or digit and going on with those, `_` or `-`.
pub open spec fn type_name_shape(s: Seq<char>) -> bool {
    &&& s.contains('.')
    &&& s.last() != '.'
    &&& forall|i: int| 0 <= i < s.len() ==> #[trigger] name_position_ok(s, i)
}

/// Uses a prefix reserved for the protocol.
pub open spec fn reserved_type_name(s: Seq<char>) -> bool {
    has_prefix(s, "room."@) || has_prefix(s, "type."@)
}

/// A valid name for a room-defined event type.
pub open spec fn custom_type_name(s: Seq<char>) -> bool {
    type_name_shape(s) && !builtin_event_type(s) && !reserved_type_name(s)
}

fn invalid(message: &str, subject: &str) -> (res: Result<()>)
    ensures
        res matches Err(e) && e@ == invalid_payload(message@ + subject@),
{
    let mut text = message.to_owned();
    push_str(&mut text, subject);
    Err(SdkError::InvalidPayload(text))
}

fn suffixed(subject: &str, message: &str) -> (res: Result<()>)
    ensures
        res matches Err(e) && e@ == invalid_payload(subject@ + message@),
{
    let mut text = subject.to_owned();
    push_str(&mut text, message);
    Err(SdkError::InvalidPayload(text))
}

fn reject(message: &str) -> (res: Result<()>)
    ensures
        res matches Err(e) && e@ == invalid_payload(message@),
{
    Err(SdkError::InvalidPayload(message.to_owned()))
}

fn type_name_shape_ok(name: &str) -> (r: bool)
    ensures
        r == type_name_shape(name@),
{
    let v = chars_of(name);
    let mut has_dot = false;
    let mut i: usize = 0;
    while i < v.len()
        invariant
            i <= v@.len(),
            v@ == name@,
            has_dot == v@.take(i as int).contains('.'),
            forall|k: int| 0 <= k < i ==> #[trigger] name_position_ok(v@, k),
        decreases v@.len() - i,
    {
        let c = v[i];
        let lead = (c >= 'a' && c <= 'z') || (c >= '0' && c <= '9');
        let ok = if i == 0 || v[i - 1] == '.' {
            lead
        } else {
            c == '.' || lead || c == '_' || c == '-'
        };
        if !ok {
            assert(!name_position_ok(v@, i as int));
            return false;
        }
        assert(name_position_ok(v@, i as int));
        let ghost before = v@.take(i as int);
        proof {
            assert(v@.take(i + 1) =~= before.push(c));
            if c == '.' {
                assert(before.push(c)[i as int] == '.');
            } else if before.push(c).contains('.') {
                let k = choose|k: int| 0 <= k < i + 1 && before.push(c)[k] == '.';
                assert(before[k] == '.');
            }
            if before.contains('.') {
                let k = choose|k: int| 0 <= k < i && before[k] == '.';
                assert(before.push(c)[k] == '.');
            }
        }
        if c == '.' {
            has_dot = true;
        }
        i += 1;
    }
    assert(v@.take(v@.len() as int) =~= v@);
    if v.len() == 0 {
        return false;
    }
    has_dot && v[v.len() - 1] != '.'
}

/// The first failing check of a custom event type name.
pub open spec fn type_name_failure(name: Seq<char>) -> Option<ErrorView> {
    if !type_name_shape(name) {
        Some(invalid_payload("invalid event type name: "@ + name))
    } else if builtin_event_type(name) {
        Some(invalid_payload(name + " is a built-in event type"@))
    } else if reserved_type_name(name) {
        Some(invalid_payload(name + " uses a reserved type prefix"@))
    } else {
        None
    }
}

/// Checks the shape of a custom event type name: lowercase dot-separated,
/// at least two segments, not built-in, not under a reserved prefix.
pub fn validate_custom_event_type_name(name: &str) -> (res: Result<()>)
    ensures
        res is Ok <==> custom_type_name(name@),
        fails_with(res, type_name_failure(name@)),
{
    if !type_name_shape_ok(name) {
        return invalid("invalid event type name: ", name);
    }
    if is_builtin_event_type(name) {
        return suffixed(name, " is a built-in event type");
    }
    if starts_with(name, "room.") || starts_with(name, "type.") {
        return suffixed(name, " uses a reserved type prefix");
    }
    Ok(())
}

} // verus!

verus! {

/// Per-type adjustments applied when importing a pack.
pub struct TypeOverride {
    pub roles: Option<Vec<Role>>,
    pub instructions: Option<String>,
    pub status: Option<TypeStatus>,
    pub rate_hint: Option<u32>,
    pub max_payload_hint: Option<u64>,
}

impl Default for TypeOverride {
    fn default() -> (o: Self)
        ensures
            o.roles is None,
            o.instructions is None,
            o.status is None,
            o.rate_hint is None,
            o.max_payload_hint is None,
    {
        TypeOverride { roles: None, instructions: None, status: None, rate_hint: None, max_payload_hint: None }
    }
}

/// Imports a registered pack (`use`) or an external pack (`pack` + `digest`).
pub struct PackImport {
    pub use_pack: Option<String>,
    pub pack: Option<String>,
    pub digest: Option<String>,
    pub types: Option<Vec<String>>,
    /// Overrides by type name; for a name listed twice the first applies.
    pub overrides: Vec<(String, TypeOverride)>,
}

impl Default for PackImport {
    fn default() -> (i: Self)
        ensures
            i.use_pack is None,
            i.pack is None,
            i.digest is None,
            i.types is None,
            i.overrides@.len() == 0,
    {
        PackImport { use_pack: None, pack: None, digest: None, types: None, overrides: Vec::new() }
    }
}

/// A room-scoped declaration of a custom event type.
pub struct TypeDef {
    pub name: String,
    pub kind: TypeKind,
    pub title: String,
    pub description: Option<String>,
    /// Self-contained JSON Schema (draft 2020-12) for the event payload, as
    /// JSON text.
    pub schema: String,
    pub roles: Option<Vec<Role>>,
    pub instructions: Option<String>,
    pub version: Option<String>,
    pub status: Option<TypeStatus>,
    pub rate_hint: Option<u32>,
    pub max_payload_hint: Option<u64>,
    /// Further members as `(name, JSON text)` pairs.
    pub extra: Vec<(String, String)>,
}

/// A type definition as values: name, kind, title, description and schema;
/// roles, instructions, version and status; hints and extra members.
pub type TypeDefView = (
    (Seq<char>, TypeKind, Seq<char>, Option<Seq<char>>, Seq<char>),
    (Option<Seq<Role>>, Option<Seq<char>>, Option<Seq<char>>, Option<TypeStatus>),
    (Option<u32>, Option<u64>, Seq<(Seq<char>, Seq<char>)>),
);

/// The roles of an optional role list.
pub open spec fn roles_view(roles: Option<Vec<Role>>) -> Option<Seq<Role>> {
    match roles {
        Some(r) => Some(r@),
        None => None,
    }
}

impl View for TypeDef {
    type V = TypeDefView;

    open spec fn view(&self) -> TypeDefView {
        (
            (self.name@, self.kind, self.title@, crate::text::opt_view(self.description), self.schema@),
            (roles_view(self.roles), crate::text::opt_view(self.instructions), crate::text::opt_view(self.version), self.status),
            (self.rate_hint, self.max_payload_hint, crate::text::pair_views(self.extra@)),
        )
    }
}

/// The status of a definition; `Active` when it names none.
pub open spec fn effective_status(status: Option<TypeStatus>) -> TypeStatus {
    match status {
        Some(s) => s,
        None => TypeStatus::Active,
    }
}

fn copy_roles(v: &Vec<Role>) -> (r: Vec<Role>)
    ensures
        r@ == v@,
{
    let mut r: Vec<Role> = Vec::new();
    let mut i: usize = 0;
    while i < v.len()
        invariant
            i <= v@.len(),
            r@ == v@.take(i as int),
        decreases v@.len() - i,
    {
        r.push(v[i]);
        i += 1;
        assert(r@ =~= v@.take(i as int));
    }
    assert(v@.take(v@.len() as int) =~= v@);
    r
}

fn copy_opt_roles(v: &Option<Vec<Role>>) -> (r: Option<Vec<Role>>)
    ensures
        roles_view(r) == roles_view(*v),
{
    match v {
        Some(roles) => Some(copy_roles(roles)),
        None => None,
    }
}

impl Clone for TypeDef {
    fn clone(&self) -> (copy: Self)
        ensures
            copy@ == self@,
    {
        TypeDef {
            name: self.name.clone(),
            kind: self.kind,
            title: self.title.clone(),
            description: crate::text::clone_opt(&self.description),
            schema: self.schema.clone(),
            roles: copy_opt_roles(&self.roles),
            instructions: crate::text::clone_opt(&self.instructions),
            version: crate::text::clone_opt(&self.version),
            status: self.status,
            rate_hint: self.rate_hint,
            max_payload_hint: self.max_payload_hint,
            extra: crate::text::clone_pairs(&self.extra),
        }
    }
}

impl TypeDef {
    pub fn status(&self) -> (s: TypeStatus)
        ensures
            s == effective_status(self.status),
    {
        match self.status {
            Some(s) => s,
            None => TypeStatus::Active,
        }
    }
}

/// One entry of `room.create.payload.types` or a `type.define` payload.
pub enum TypeDeclaration {
    Def(TypeDef),
    Import(PackImport),
}

/// A valid type definition: a custom type name, a title, an object schema
/// that compiles, a non-empty role list if any, positive hints.
pub open spec fn valid_type_def(v: TypeDefView) -> bool {
    &&& custom_type_name(v.0.0)
    &&& !blank(v.0.2)
    &&& crate::schema::json_object(v.0.4)
    &&& crate::schema::schema_compiles(v.0.4)
    &&& v.1.0 matches Some(r) ==> r.len() > 0
    &&& v.2.0 != Some(0u32)
    &&& v.2.1 != Some(0u64)
}

/// The error of a schema no validator can be built from.
pub open spec fn schema_error(schema: Seq<char>) -> ErrorView {
    invalid_payload("invalid type schema: "@ + crate::schema::schema_build_error(schema))
}

/// The first failing check of a type definition.
pub open spec fn type_def_failure(v: TypeDefView) -> Option<ErrorView> {
    if type_name_failure(v.0.0) is Some {
        type_name_failure(v.0.0)
    } else if blank(v.0.2) {
        Some(invalid_payload("type definition title must not be empty"@))
    } else if !crate::schema::json_object(v.0.4) {
        Some(invalid_payload("type definition schema must be a JSON Schema object"@))
    } else if !crate::schema::schema_compiles(v.0.4) {
        Some(schema_error(v.0.4))
    } else if v.1.0 matches Some(r) && r.len() == 0 {
        Some(invalid_payload("type definition roles must not be empty"@))
    } else if v.2.0 == Some(0u32) || v.2.1 == Some(0u64) {
        Some(invalid_payload("type definition hints must be positive"@))
    } else {
        None
    }
}

pub fn validate_type_def(def: &TypeDef) -> (res: Result<()>)
    ensures
        res is Ok <==> valid_type_def(def@),
        fails_with(res, type_def_failure(def@)),
{
    validate_custom_event_type_name(def.name.as_str())?;
    if is_blank(def.title.as_str()) {
        return reject("type definition title must not be empty");
    }
    if !crate::schema::is_json_object(def.schema.as_str()) {
        return reject("type definition schema must be a JSON Schema object");
    }
    if let Some(error) = crate::schema::compile_schema(def.schema.as_str()) {
        return invalid("invalid type schema: ", error.as_str());
    }
    if let Some(roles) = &def.roles {
        if roles.len() == 0 {
            return reject("type definition roles must not be empty");
        }
    }
    if def.rate_hint == Some(0u32) || def.max_payload_hint == Some(0u64) {
        return reject("type definition hints must be positive");
    }
    Ok(())
}

/// A character of a registered pack name.
pub open spec fn pack_name_char(c: char) -> bool {
    ('a' <= c && c <= 'z') || ('0' <= c && c <= '9') || c == '-'
}

/// A `major.minor` version: two non-empty runs of digits around one dot.
pub open spec fn pack_version(v: Seq<char>) -> bool {
    &&& v.len() > 0
    &&& v[0] != '.'
    &&& v.last() != '.'
    &&& crate::text::count_char(v, '.') == 1
    &&& forall|i: int| 0 <= i < v.len() ==> (('0' <= #[trigger] v[i] && v[i] <= '9') || v[i] == '.')
}

/// `adp:<name>/<major>.<minor>` with a name of lowercase letters, digits and
/// hyphens.
pub open spec fn registered_pack_id(id: Seq<char>) -> bool {
    let rest = id.skip(4);
    let k = crate::text::first_index_of(rest, '/');
    &&& has_prefix(id, "adp:"@)
    &&& 0 < k < rest.len()
    &&& forall|j: int| 0 <= j < k ==> pack_name_char(#[trigger] rest[j])
    &&& pack_version(rest.skip(k + 1))
}

fn pack_version_ok(v: &Vec<char>, start: usize) -> (r: bool)
    requires
        start <= v@.len(),
    ensures
        r == pack_version(v@.skip(start as int)),
{
    let ghost s = v@.skip(start as int);
    if start == v.len() || v[start] == '.' || v[v.len() - 1] == '.' {
        return false;
    }
    let mut dots: usize = 0;
    let mut i: usize = start;
    while i < v.len()
        invariant
            start <= i <= v@.len(),
            s == v@.skip(start as int),
            dots == crate::text::count_char(s.take(i - start), '.'),
            dots <= i - start,
            forall|j: int| 0 <= j < i - start ==> (('0' <= #[trigger] s[j] && s[j] <= '9') || s[j] == '.'),
        decreases v@.len() - i,
    {
        let c = v[i];
        assert(s[i - start] == c);
        if !((c >= '0' && c <= '9') || c == '.') {
            return false;
        }
        assert(s.take(i - start + 1).drop_last() =~= s.take(i - start));
        if c == '.' {
            dots += 1;
        }
        i += 1;
    }
    assert(s.take(s.len() as int) =~= s);
    dots == 1
}

pub fn is_registered_pack_id(id: &str) -> (r: bool)
    ensures
        r == registered_pack_id(id@),
{
    proof {
        reveal_strlit("adp:");
    }
    if !starts_with(id, "adp:") {
        return false;
    }
    let rest = crate::text::skip_chars(id, 4);
    let w = chars_of(rest.as_str());
    let k = crate::text::find_char(w.as_slice(), '/');
    proof {
        crate::text::lemma_first_index_of(w@, '/');
    }
    if k == 0 || k == w.len() {
        return false;
    }
    let mut j: usize = 0;
    while j < k
        invariant
            j <= k < w@.len(),
            k == crate::text::first_index_of(w@, '/'),
            w@ == id@.skip(4),
            forall|i: int| 0 <= i < j ==> pack_name_char(#[trigger] w@[i]),
        decreases k - j,
    {
        let c = w[j];
        if !((c >= 'a' && c <= 'z') || (c >= '0' && c <= '9') || c == '-') {
            assert(!pack_name_char(id@.skip(4)[j as int]));
            assert(k == crate::text::first_index_of(id@.skip(4), '/'));
            assert(!registered_pack_id(id@));
            return false;
        }
        j += 1;
    }
    pack_version_ok(&w, k + 1)
}

/// A pack import names either a registered pack alone, or an external pack
/// with a non-blank digest, and a non-empty type subset if any.
pub open spec fn valid_pack_import(import: PackImport) -> bool {
    &&& match (import.use_pack, import.pack, import.digest) {
        (Some(id), None, None) => registered_pack_id(id@),
        (None, Some(_), Some(digest)) => !blank(digest@),
        _ => false,
    }
    &&& import.types matches Some(t) ==> t@.len() > 0
}

/// The first failing check of a pack import.
pub open spec fn pack_import_failure(import: PackImport) -> Option<ErrorView> {
    let form = match (import.use_pack, import.pack, import.digest) {
        (Some(id), None, None) => if registered_pack_id(id@) {
            None
        } else {
            Some(invalid_payload("invalid registered pack id: "@ + id@))
        },
        (None, Some(_), Some(digest)) => if blank(digest@) {
            Some(invalid_payload("external pack digest must not be empty"@))
        } else {
            None
        },
        _ => Some(invalid_payload("pack import requires either use, or pack with digest"@)),
    };
    if form is Some {
        form
    } else if import.types matches Some(t) && t@.len() == 0 {
        Some(invalid_payload("pack import types subset must not be empty"@))
    } else {
        None
    }
}

pub fn validate_pack_import(import: &PackImport) -> (res: Result<()>)
    ensures
        res is Ok <==> valid_pack_import(*import),
        fails_with(res, pack_import_failure(*import)),
{
    match (&import.use_pack, &import.pack, &import.digest) {
        (Some(id), None, None) => {
            if !is_registered_pack_id(id.as_str()) {
                return invalid("invalid registered pack id: ", id.as_str());
            }
        },
        (None, Some(_), Some(digest)) => {
            if is_blank(digest.as_str()) {
                return reject("external pack digest must not be empty");
            }
        },
        _ => {
            return reject("pack import requires either use, or pack with digest");
        },
    }
    if let Some(types) = &import.types {
        if types.len() == 0 {
            return reject("pack import types subset must not be empty");
        }
    }
    Ok(())
}

/// A valid declaration: a valid definition or a valid import.
pub open spec fn valid_declaration(declaration: TypeDeclaration) -> bool {
    match declaration {
        TypeDeclaration::Def(def) => valid_type_def(def@),
        TypeDeclaration::Import(import) => valid_pack_import(import),
    }
}

/// The first failing check of a type declaration.
pub open spec fn declaration_failure(declaration: TypeDeclaration) -> Option<ErrorView> {
    match declaration {
        TypeDeclaration::Def(def) => type_def_failure(def@),
        TypeDeclaration::Import(import) => pack_import_failure(import),
    }
}

pub fn validate_type_declaration(declaration: &TypeDeclaration) -> (res: Result<()>)
    ensures
        res is Ok <==> valid_declaration(*declaration),
        fails_with(res, declaration_failure(*declaration)),
{
    match declaration {
        TypeDeclaration::Def(def) => validate_type_def(def),
        TypeDeclaration::Import(import) => validate_pack_import(import),
    }
}

} // verus!

verus! {

/// Names in strictly increasing order, so no name occurs twice.
pub open spec fn names_sorted(s: Seq<TypeDef>) -> bool {
    forall|i: int, j: int| 0 <= i < j < s.len() ==> seq_lt(#[trigger] s[i].name@, #[trigger] s[j].name@)
}

/// Some definition of `s` has the name `k`.
pub open spec fn has_name(s: Seq<TypeDef>, k: Seq<char>) -> bool {
    exists|i: int| 0 <= i < s.len() && #[trigger] s[i].name@ == k
}

/// An index of `s` whose definition has the name `k`, if there is one.
pub open spec fn name_index(s: Seq<TypeDef>, k: Seq<char>) -> int {
    choose|i: int| 0 <= i < s.len() && #[trigger] s[i].name@ == k
}

/// The definitions of `s` by name.
pub open spec fn defs_map(s: Seq<TypeDef>) -> Map<Seq<char>, TypeDefView> {
    Map::new(|k: Seq<char>| has_name(s, k), |k: Seq<char>| s[name_index(s, k)]@)
}

proof fn lemma_defs_map_at(s: Seq<TypeDef>, i: int)
    requires
        names_sorted(s),
        0 <= i < s.len(),
    ensures
        defs_map(s).contains_key(s[i].name@),
        defs_map(s)[s[i].name@] == s[i]@,
{
    let k = s[i].name@;
    assert(has_name(s, k));
    let c = name_index(s, k);
    if c != i {
        crate::text::lemma_lt_irreflexive(k);
        if c < i {
            assert(seq_lt(s[c].name@, s[i].name@));
        } else {
            assert(seq_lt(s[i].name@, s[c].name@));
        }
    }
}

/// The effective set of type definitions active in a room, kept in name
/// order with one definition per name.
pub struct TypeRegistry {
    types: Vec<TypeDef>,
}

impl View for TypeRegistry {
    type V = Map<Seq<char>, TypeDefView>;

    closed spec fn view(&self) -> Map<Seq<char>, TypeDefView> {
        defs_map(self.types@)
    }
}

impl TypeRegistry {
    #[verifier::type_invariant]
    spec fn sorted(self) -> bool {
        &&& names_sorted(self.types@)
        &&& forall|i: int| 0 <= i < self.types@.len() ==> valid_type_def(#[trigger] self.types@[i]@)
    }

    /// The definitions in name order.
    pub closed spec fn defs(self) -> Seq<TypeDef> {
        self.types@
    }

    pub fn new() -> (registry: Self)
        ensures
            registry@ == Map::<Seq<char>, TypeDefView>::empty(),
            registry.defs().len() == 0,
    {
        let registry = TypeRegistry { types: Vec::new() };
        assert(registry@ =~= Map::<Seq<char>, TypeDefView>::empty());
        registry
    }

    fn insert_sorted(&mut self, def: TypeDef)
        requires
            valid_type_def(def@),
        ensures
            final(self)@ == old(self)@.insert(def.name@, def@),
            final(self).defs().len() == old(self).defs().len() + if old(self)@.contains_key(def.name@) {
                0int
            } else {
                1int
            },
    {
        proof {
            use_type_invariant(&*self);
        }
        let ghost s = self.types@;
        let ghost name = def.name@;
        let mut i: usize = 0;
        while i < self.types.len() && str_lt(self.types[i].name.as_str(), def.name.as_str())
            invariant
                i <= s.len(),
                s == self.types@,
                name == def.name@,
                names_sorted(s),
                forall|k: int| 0 <= k < s.len() ==> valid_type_def(#[trigger] s[k]@),
                forall|k: int| 0 <= k < i ==> seq_lt(#[trigger] s[k].name@, name),
            decreases s.len() - i,
        {
            i += 1;
        }
        if i < self.types.len() && str_eq(self.types[i].name.as_str(), def.name.as_str()) {
            let mut types = Vec::new();
            std::mem::swap(&mut types, &mut self.types);
            types.set(i, def);
            let ghost t = types@;
            proof {
                assert(t == s.update(i as int, def));
                assert(names_sorted(t)) by {
                    assert forall|a: int, b: int| 0 <= a < b < t.len() implies seq_lt(#[trigger] t[a].name@, #[trigger] t[b].name@) by {
                        assert(s[a].name@ == t[a].name@ || a == i);
                        assert(s[b].name@ == t[b].name@ || b == i);
                    }
                }
                lemma_sorted_update(s, i as int, def);
            }
            self.types = types;
        } else {
            proof {
                if i < s.len() {
                    crate::text::lemma_lt_total(s[i as int].name@, name);
                }
                lemma_sorted_insert(s, i as int, def);
            }
            let mut types = Vec::new();
            std::mem::swap(&mut types, &mut self.types);
            types.insert(i, def);
            self.types = types;
        }
    }
}

proof fn lemma_sorted_update(s: Seq<TypeDef>, p: int, d: TypeDef)
    requires
        names_sorted(s),
        names_sorted(s.update(p, d)),
        0 <= p < s.len(),
        s[p].name@ == d.name@,
    ensures
        defs_map(s.update(p, d)) == defs_map(s).insert(d.name@, d@),
        defs_map(s).contains_key(d.name@),
{
    let t = s.update(p, d);
    lemma_defs_map_at(s, p);
    assert(defs_map(t) =~= defs_map(s).insert(d.name@, d@)) by {
        assert forall|k: Seq<char>| has_name(t, k) <==> (k == d.name@ || has_name(s, k)) by {
            if has_name(t, k) {
                let j = choose|j: int| 0 <= j < t.len() && #[trigger] t[j].name@ == k;
                if j != p {
                    assert(s[j].name@ == k);
                }
            }
            if has_name(s, k) {
                let j = choose|j: int| 0 <= j < s.len() && #[trigger] s[j].name@ == k;
                assert(t[j].name@ == k);
            }
            if k == d.name@ {
                assert(t[p].name@ == k);
            }
        }
        assert forall|k: Seq<char>| #[trigger] defs_map(t).contains_key(k) implies defs_map(t)[k] == defs_map(s).insert(d.name@, d@)[k] by {
            let j = choose|j: int| 0 <= j < t.len() && #[trigger] t[j].name@ == k;
            lemma_defs_map_at(t, j);
            if j != p {
                lemma_defs_map_at(s, j);
                crate::text::lemma_lt_irreflexive(k);
                if j < p {
                    assert(seq_lt(t[j].name@, t[p].name@));
                } else {
                    assert(seq_lt(t[p].name@, t[j].name@));
                }
            }
        }
    }
}

proof fn lemma_sorted_insert(s: Seq<TypeDef>, p: int, d: TypeDef)
    requires
        names_sorted(s),
        0 <= p <= s.len(),
        forall|k: int| 0 <= k < p ==> seq_lt(#[trigger] s[k].name@, d.name@),
        p < s.len() ==> seq_lt(d.name@, s[p].name@),
    ensures
        names_sorted(s.insert(p, d)),
        defs_map(s.insert(p, d)) == defs_map(s).insert(d.name@, d@),
        !defs_map(s).contains_key(d.name@),
{
    let t = s.insert(p, d);
    s.insert_ensures(p, d);
    assert forall|k: int| p <= k < s.len() implies seq_lt(d.name@, #[trigger] s[k].name@) by {
        if k > p {
            crate::text::lemma_lt_transitive(d.name@, s[p].name@, s[k].name@);
        }
    }
    assert(names_sorted(t)) by {
        assert forall|a: int, b: int| 0 <= a < b < t.len() implies seq_lt(#[trigger] t[a].name@, #[trigger] t[b].name@) by {
            if b < p {
                assert(t[a] == s[a] && t[b] == s[b]);
            } else if a < p && b == p {
            } else if a < p {
                let y = b - 1;
                assert(t[y + 1] == s[y]);
            } else if a == p {
                let y = b - 1;
                assert(t[y + 1] == s[y]);
            } else {
                let x = a - 1;
                let y = b - 1;
                assert(t[x + 1] == s[x]);
                assert(t[y + 1] == s[y]);
            }
        }
    }
    assert(!has_name(s, d.name@)) by {
        if has_name(s, d.name@) {
            let j = choose|j: int| 0 <= j < s.len() && #[trigger] s[j].name@ == d.name@;
            crate::text::lemma_lt_irreflexive(d.name@);
            if j < p {
                assert(seq_lt(s[j].name@, d.name@));
            } else {
                assert(seq_lt(d.name@, s[j].name@));
            }
        }
    }
    assert(defs_map(t) =~= defs_map(s).insert(d.name@, d@)) by {
        assert forall|k: Seq<char>| has_name(t, k) <==> (k == d.name@ || has_name(s, k)) by {
            if has_name(t, k) {
                let j = choose|j: int| 0 <= j < t.len() && #[trigger] t[j].name@ == k;
                if j < p {
                    assert(s[j].name@ == k);
                } else if j > p {
                    assert(s[j - 1].name@ == k);
                }
            }
            if has_name(s, k) {
                let j = choose|j: int| 0 <= j < s.len() && #[trigger] s[j].name@ == k;
                if j < p {
                    assert(t[j].name@ == k);
                } else {
                    assert(t[j + 1].name@ == k);
                }
            }
            if k == d.name@ {
                assert(t[p].name@ == k);
            }
        }
        assert forall|k: Seq<char>| #[trigger] defs_map(t).contains_key(k) implies defs_map(t)[k] == defs_map(s).insert(d.name@, d@)[k] by {
            let j = choose|j: int| 0 <= j < t.len() && #[trigger] t[j].name@ == k;
            lemma_defs_map_at(t, j);
            if j < p {
                lemma_defs_map_at(s, j);
            } else if j > p {
                lemma_defs_map_at(s, j - 1);
            }
        }
    }
}

} // verus!

verus! {

/// A type pack: an id, a title and the definitions it offers.
pub struct Pack {
    pub id: String,
    pub title: String,
    pub description: Option<String>,
    pub types: Vec<TypeDef>,
    /// Further members as `(name, JSON text)` pairs.
    pub extra: Vec<(String, String)>,
}

/// A pack as values: id, title, description, definitions and extra members.
pub type PackView = (Seq<char>, Seq<char>, Option<Seq<char>>, Seq<TypeDefView>, Seq<(Seq<char>, Seq<char>)>);

/// The views of a sequence of definitions.
pub open spec fn def_views(s: Seq<TypeDef>) -> Seq<TypeDefView> {
    s.map_values(|d: TypeDef| d@)
}

impl View for Pack {
    type V = PackView;

    open spec fn view(&self) -> PackView {
        (
            self.id@,
            self.title@,
            crate::text::opt_view(self.description),
            def_views(self.types@),
            crate::text::pair_views(self.extra@),
        )
    }
}

fn clone_defs(v: &Vec<TypeDef>) -> (r: Vec<TypeDef>)
    ensures
        def_views(r@) == def_views(v@),
{
    let mut r: Vec<TypeDef> = Vec::new();
    let mut i: usize = 0;
    while i < v.len()
        invariant
            i <= v@.len(),
            def_views(r@) == def_views(v@.take(i as int)),
        decreases v@.len() - i,
    {
        let d = v[i].clone();
        let ghost before = r@;
        r.push(d);
        proof {
            assert(v@.take(i + 1) == v@.take(i as int).push(v@[i as int]));
            assert(def_views(r@) =~= def_views(before).push(v@[i as int]@));
        }
        i += 1;
        assert(def_views(r@) =~= def_views(v@.take(i as int)));
    }
    assert(v@.take(v@.len() as int) =~= v@);
    r
}

impl Clone for Pack {
    fn clone(&self) -> (copy: Self)
        ensures
            copy@ == self@,
    {
        Pack {
            id: self.id.clone(),
            title: self.title.clone(),
            description: crate::text::clone_opt(&self.description),
            types: clone_defs(&self.types),
            extra: crate::text::clone_pairs(&self.extra),
        }
    }
}

/// The shape of `1.0.packs.json` and externally published pack documents.
pub struct PackDocument {
    pub protocol: String,
    pub description: Option<String>,
    pub packs: Vec<Pack>,
}

/// Some entry of `e` has the key `k`.
pub open spec fn has_key(e: Seq<(String, Pack)>, k: Seq<char>) -> bool {
    exists|i: int| 0 <= i < e.len() && #[trigger] e[i].0@ == k
}

/// An index of `e` whose entry has the key `k`, if there is one.
pub open spec fn key_index(e: Seq<(String, Pack)>, k: Seq<char>) -> int {
    choose|i: int| 0 <= i < e.len() && #[trigger] e[i].0@ == k
}

/// No key occurs twice.
pub open spec fn distinct_keys(e: Seq<(String, Pack)>) -> bool {
    forall|i: int, j: int| 0 <= i < j < e.len() ==> #[trigger] e[i].0@ != #[trigger] e[j].0@
}

/// The packs of `e` by key.
pub open spec fn packs_map(e: Seq<(String, Pack)>) -> Map<Seq<char>, PackView> {
    Map::new(|k: Seq<char>| has_key(e, k), |k: Seq<char>| e[key_index(e, k)].1@)
}

proof fn lemma_packs_map_at(e: Seq<(String, Pack)>, i: int)
    requires
        distinct_keys(e),
        0 <= i < e.len(),
    ensures
        packs_map(e).contains_key(e[i].0@),
        packs_map(e)[e[i].0@] == e[i].1@,
{
    assert(has_key(e, e[i].0@));
    let c = key_index(e, e[i].0@);
    if c < i {
        assert(e[c].0@ != e[i].0@);
    } else if c > i {
        assert(e[i].0@ != e[c].0@);
    }
}

/// Packs by reference: registered pack id or external pack URI. A reference
/// leads to one pack; inserting under a present reference replaces it.
pub struct PackMap {
    entries: Vec<(String, Pack)>,
}

impl View for PackMap {
    type V = Map<Seq<char>, PackView>;

    closed spec fn view(&self) -> Map<Seq<char>, PackView> {
        packs_map(self.entries@)
    }
}

impl PackMap {
    #[verifier::type_invariant]
    spec fn unique(self) -> bool {
        distinct_keys(self.entries@)
    }

    pub fn new() -> (packs: Self)
        ensures
            packs@ == Map::<Seq<char>, PackView>::empty(),
    {
        let packs = PackMap { entries: Vec::new() };
        assert(packs@ =~= Map::<Seq<char>, PackView>::empty());
        packs
    }

    pub fn insert(&mut self, key: String, pack: Pack)
        ensures
            final(self)@ == old(self)@.insert(key@, pack@),
    {
        proof {
            use_type_invariant(&*self);
        }
        let ghost e = self.entries@;
        let ghost k = key@;
        let ghost v = pack@;
        let mut i: usize = 0;
        while i < self.entries.len() && !str_eq(self.entries[i].0.as_str(), key.as_str())
            invariant
                i <= e.len(),
                e == self.entries@,
                k == key@,
                forall|j: int| 0 <= j < i ==> #[trigger] e[j].0@ != k,
            decreases e.len() - i,
        {
            i += 1;
        }
        let mut entries = Vec::new();
        std::mem::swap(&mut entries, &mut self.entries);
        if i < entries.len() {
            entries.set(i, (key, pack));
        } else {
            entries.push((key, pack));
        }
        let ghost t = entries@;
        proof {
            assert(distinct_keys(t)) by {
                assert forall|a: int, b: int| 0 <= a < b < t.len() implies #[trigger] t[a].0@ != #[trigger] t[b].0@ by {
                    if b == i {
                        assert(t[a] == e[a]);
                    } else if a == i {
                        assert(t[b] == e[b]);
                    } else {
                        assert(t[a] == e[a] && t[b] == e[b]);
                    }
                }
            }
            assert(packs_map(t) =~= packs_map(e).insert(k, v)) by {
                assert forall|q: Seq<char>| has_key(t, q) <==> (q == k || has_key(e, q)) by {
                    if has_key(t, q) {
                        let j = choose|j: int| 0 <= j < t.len() && #[trigger] t[j].0@ == q;
                        if j != i {
                            assert(e[j].0@ == q);
                        }
                    }
                    if has_key(e, q) {
                        let j = choose|j: int| 0 <= j < e.len() && #[trigger] e[j].0@ == q;
                        if j == i {
                            assert(t[i as int].0@ == k);
                        } else {
                            assert(t[j].0@ == q);
                        }
                    }
                    if q == k {
                        assert(t[i as int].0@ == k);
                    }
                }
                assert forall|q: Seq<char>| #[trigger] packs_map(t).contains_key(q) implies packs_map(t)[q] == packs_map(e).insert(k, v)[q] by {
                    let j = choose|j: int| 0 <= j < t.len() && #[trigger] t[j].0@ == q;
                    lemma_packs_map_at(t, j);
                    if j != i {
                        assert(t[j] == e[j]);
                        lemma_packs_map_at(e, j);
                    }
                }
            }
        }
        self.entries = entries;
    }

    pub fn get(&self, key: &str) -> (r: Option<&Pack>)
        ensures
            match r {
                Some(p) => self@.contains_key(key@) && self@[key@] == p@,
                None => !self@.contains_key(key@),
            },
    {
        proof {
            use_type_invariant(self);
        }
        let mut i: usize = 0;
        while i < self.entries.len()
            invariant
                i <= self.entries@.len(),
                distinct_keys(self.entries@),
                forall|j: int| 0 <= j < i ==> #[trigger] self.entries@[j].0@ != key@,
            decreases self.entries@.len() - i,
        {
            if str_eq(self.entries[i].0.as_str(), key) {
                proof {
                    lemma_packs_map_at(self.entries@, i as int);
                }
                return Some(&self.entries[i].1);
            }
            i += 1;
        }
        None
    }
}

/// Indexes the packs of a document by pack id for registry materialization;
/// of two packs with one id the later is kept.
pub open spec fn packs_by_id(packs: Seq<Pack>) -> Map<Seq<char>, PackView>
    decreases packs.len(),
{
    if packs.len() == 0 {
        Map::empty()
    } else {
        packs_by_id(packs.drop_last()).insert(packs.last().id@, packs.last()@)
    }
}

pub fn pack_map(document: &PackDocument) -> (packs: PackMap)
    ensures
        packs@ == packs_by_id(document.packs@),
{
    let mut packs = PackMap::new();
    let mut i: usize = 0;
    while i < document.packs.len()
        invariant
            i <= document.packs@.len(),
            packs@ == packs_by_id(document.packs@.take(i as int)),
        decreases document.packs@.len() - i,
    {
        let pack = document.packs[i].clone();
        packs.insert(pack.id.clone(), pack);
        proof {
            assert(document.packs@.take(i + 1).drop_last() =~= document.packs@.take(i as int));
        }
        i += 1;
    }
    assert(document.packs@.take(document.packs@.len() as int) =~= document.packs@);
    packs
}

} // verus!

verus! {

/// The registry after `define` succeeds: the definition under its name.
pub open spec fn defined(m: Map<Seq<char>, TypeDefView>, v: TypeDefView) -> Map<Seq<char>, TypeDefView> {
    m.insert(v.0.0, v)
}

/// The first override listed for `name`.
pub open spec fn override_for(overrides: Seq<(String, TypeOverride)>, name: Seq<char>) -> Option<TypeOverride>
    decreases overrides.len(),
{
    if overrides.len() == 0 {
        None
    } else if overrides[0].0@ == name {
        Some(overrides[0].1)
    } else {
        override_for(overrides.drop_first(), name)
    }
}

/// A definition with an override's fields in place of its own.
pub open spec fn apply_override(v: TypeDefView, o: TypeOverride) -> TypeDefView {
    (
        v.0,
        (
            if o.roles is Some { roles_view(o.roles) } else { v.1.0 },
            if o.instructions is Some { crate::text::opt_view(o.instructions) } else { v.1.1 },
            v.1.2,
            if o.status is Some { o.status } else { v.1.3 },
        ),
        (
            if o.rate_hint is Some { o.rate_hint } else { v.2.0 },
            if o.max_payload_hint is Some { o.max_payload_hint } else { v.2.1 },
            v.2.2,
        ),
    )
}

/// A pack definition as an import brings it in.
pub open spec fn imported_view(v: TypeDefView, import: PackImport) -> TypeDefView {
    match override_for(import.overrides@, v.0.0) {
        Some(o) => apply_override(v, o),
        None => v,
    }
}

/// The import brings in the type `name`, given the pack's type names.
pub open spec fn selected(import: PackImport, name: Seq<char>) -> bool {
    match import.types {
        Some(t) => crate::text::views(t@).contains(name),
        None => true,
    }
}

/// Defines the selected definitions of a pack in order, stopping at the first
/// invalid one: the registry reached and the failure, if any.
pub open spec fn import_defs(
    m: Map<Seq<char>, TypeDefView>,
    defs: Seq<TypeDefView>,
    import: PackImport,
) -> (Map<Seq<char>, TypeDefView>, Option<ErrorView>)
    decreases defs.len(),
{
    if defs.len() == 0 {
        (m, None)
    } else {
        let (m1, f1) = import_defs(m, defs.drop_last(), import);
        let v = imported_view(defs.last(), import);
        if f1 is Some || !selected(import, defs.last().0.0) {
            (m1, f1)
        } else if valid_type_def(v) {
            (defined(m1, v), None)
        } else {
            (m1, type_def_failure(v))
        }
    }
}

/// The pack an import refers to.
pub open spec fn import_reference(import: PackImport) -> Seq<char> {
    match import.use_pack {
        Some(u) => u@,
        None => match import.pack {
            Some(p) => p@,
            None => Seq::empty(),
        },
    }
}

/// The type names of a pack.
pub open spec fn pack_type_names(pack: PackView) -> Seq<Seq<char>> {
    pack.3.map_values(|v: TypeDefView| v.0.0)
}

/// The name is imported: in the subset if there is one, else in the pack.
pub open spec fn name_imported(import: PackImport, pack: PackView, name: Seq<char>) -> bool {
    match import.types {
        Some(t) => crate::text::views(t@).contains(name),
        None => pack_type_names(pack).contains(name),
    }
}

/// `i` is the first position of `names` outside `known`.
pub open spec fn first_unknown(names: Seq<Seq<char>>, known: Seq<Seq<char>>, i: int) -> bool {
    &&& 0 <= i < names.len()
    &&& !known.contains(names[i])
    &&& forall|j: int| 0 <= j < i ==> known.contains(#[trigger] names[j])
}

/// Override `i` of the import targets a type it does not bring in.
pub open spec fn stray_override(import: PackImport, pack: PackView, i: int) -> bool {
    0 <= i < import.overrides@.len() && !name_imported(import, pack, import.overrides@[i].0@)
}

/// `i` is a stray override whose target name comes first in name order.
pub open spec fn least_stray_override(import: PackImport, pack: PackView, i: int) -> bool {
    &&& stray_override(import, pack, i)
    &&& forall|j: int| #[trigger] stray_override(import, pack, j) ==> !seq_lt(
        import.overrides@[j].0@,
        import.overrides@[i].0@,
    )
}

proof fn lemma_first_unknown_unique(names: Seq<Seq<char>>, known: Seq<Seq<char>>, i: int, k: int)
    requires
        first_unknown(names, known, i),
        first_unknown(names, known, k),
    ensures
        i == k,
{
    if i < k {
        assert(known.contains(names[i]));
    } else if k < i {
        assert(known.contains(names[k]));
    }
}

proof fn lemma_least_stray_name(import: PackImport, pack: PackView, i: int, k: int)
    requires
        least_stray_override(import, pack, i),
        least_stray_override(import, pack, k),
    ensures
        import.overrides@[i].0@ == import.overrides@[k].0@,
{
    let a = import.overrides@[i].0@;
    let b = import.overrides@[k].0@;
    if a != b {
        crate::text::lemma_lt_total(a, b);
    }
}

/// The checks of an import before any definition is made.
pub open spec fn import_precheck(import: PackImport, packs: Map<Seq<char>, PackView>) -> Option<ErrorView> {
    if !valid_pack_import(import) {
        pack_import_failure(import)
    } else if !packs.contains_key(import_reference(import)) {
        Some(ErrorView::PackUnavailable(import_reference(import)))
    } else {
        let pack = packs[import_reference(import)];
        if import.types matches Some(t) && exists|i: int|
            0 <= i < t@.len() && !pack_type_names(pack).contains(#[trigger] t@[i]@) {
            let names = crate::text::views(import.types->0@);
            let i = choose|i: int| first_unknown(names, pack_type_names(pack), i);
            Some(
                ErrorView::PackUnavailable(
                    "type "@ + names[i] + " is not in pack "@ + import_reference(import),
                ),
            )
        } else if exists|i: int| stray_override(import, pack, i) {
            let i = choose|i: int| least_stray_override(import, pack, i);
            Some(
                invalid_payload(
                    "override target "@ + import.overrides@[i].0@ + " is not imported from pack "@
                        + import_reference(import),
                ),
            )
        } else {
            None
        }
    }
}

/// What importing a pack makes of a registry, and its failure if any.
pub open spec fn import_result(
    m: Map<Seq<char>, TypeDefView>,
    import: PackImport,
    packs: Map<Seq<char>, PackView>,
) -> (Map<Seq<char>, TypeDefView>, Option<ErrorView>) {
    match import_precheck(import, packs) {
        Some(e) => (m, Some(e)),
        None => import_defs(m, packs[import_reference(import)].3, import),
    }
}

/// What applying one declaration makes of a registry, and its failure if any.
pub open spec fn apply_result(
    m: Map<Seq<char>, TypeDefView>,
    declaration: TypeDeclaration,
    packs: Map<Seq<char>, PackView>,
) -> (Map<Seq<char>, TypeDefView>, Option<ErrorView>) {
    match declaration {
        TypeDeclaration::Def(d) => if valid_type_def(d@) {
            (defined(m, d@), None)
        } else {
            (m, type_def_failure(d@))
        },
        TypeDeclaration::Import(i) => import_result(m, i, packs),
    }
}

/// Applies declarations in order, stopping at the first failure.
pub open spec fn apply_all(
    m: Map<Seq<char>, TypeDefView>,
    declarations: Seq<TypeDeclaration>,
    packs: Map<Seq<char>, PackView>,
) -> (Map<Seq<char>, TypeDefView>, Option<ErrorView>)
    decreases declarations.len(),
{
    if declarations.len() == 0 {
        (m, None)
    } else {
        let (m1, f1) = apply_all(m, declarations.drop_last(), packs);
        if f1 is Some {
            (m1, f1)
        } else {
            apply_result(m1, declarations.last(), packs)
        }
    }
}

proof fn lemma_import_defs_stops(m: Map<Seq<char>, TypeDefView>, defs: Seq<TypeDefView>, n: int, import: PackImport)
    requires
        0 <= n <= defs.len(),
        import_defs(m, defs.take(n), import).1 is Some,
    ensures
        import_defs(m, defs, import) == import_defs(m, defs.take(n), import),
    decreases defs.len() - n,
{
    if n < defs.len() {
        assert(defs.take(n + 1).drop_last() =~= defs.take(n));
        lemma_import_defs_stops(m, defs, n + 1, import);
    } else {
        assert(defs.take(n) =~= defs);
    }
}

proof fn lemma_apply_all_stops(
    m: Map<Seq<char>, TypeDefView>,
    declarations: Seq<TypeDeclaration>,
    n: int,
    packs: Map<Seq<char>, PackView>,
)
    requires
        0 <= n <= declarations.len(),
        apply_all(m, declarations.take(n), packs).1 is Some,
    ensures
        apply_all(m, declarations, packs) == apply_all(m, declarations.take(n), packs),
    decreases declarations.len() - n,
{
    if n < declarations.len() {
        assert(declarations.take(n + 1).drop_last() =~= declarations.take(n));
        lemma_apply_all_stops(m, declarations, n + 1, packs);
    } else {
        assert(declarations.take(n) =~= declarations);
    }
}

fn find_override<'a>(overrides: &'a Vec<(String, TypeOverride)>, name: &str) -> (r: Option<&'a TypeOverride>)
    ensures
        match r {
            Some(o) => override_for(overrides@, name@) == Some(*o),
            None => override_for(overrides@, name@) is None,
        },
{
    let mut i: usize = 0;
    assert(overrides@.skip(0) =~= overrides@);
    while i < overrides.len()
        invariant
            i <= overrides@.len(),
            override_for(overrides@.skip(i as int), name@) == override_for(overrides@, name@),
        decreases overrides@.len() - i,
    {
        if str_eq(overrides[i].0.as_str(), name) {
            return Some(&overrides[i].1);
        }
        assert(overrides@.skip(i as int).drop_first() =~= overrides@.skip(i + 1));
        i += 1;
    }
    None
}

fn pack_has_type(pack: &Pack, name: &str) -> (r: bool)
    ensures
        r == pack_type_names(pack@).contains(name@),
{
    let mut i: usize = 0;
    while i < pack.types.len()
        invariant
            i <= pack.types@.len(),
            forall|j: int| 0 <= j < i ==> #[trigger] pack.types@[j].name@ != name@,
        decreases pack.types@.len() - i,
    {
        if str_eq(pack.types[i].name.as_str(), name) {
            assert(pack_type_names(pack@)[i as int] == name@);
            return true;
        }
        i += 1;
    }
    assert forall|j: int| 0 <= j < pack_type_names(pack@).len() implies pack_type_names(pack@)[j] != name@ by {
        assert(pack_type_names(pack@)[j] == pack.types@[j].name@);
    }
    false
}

/// The override found for a name is the first one listed under it.
proof fn lemma_first_listed_override(overrides: Seq<(String, TypeOverride)>, name: Seq<char>, k: int)
    requires
        0 <= k < overrides.len(),
        overrides[k].0@ == name,
        forall|j: int| 0 <= j < k ==> overrides[j].0@ != name,
    ensures
        override_for(overrides, name) == Some(overrides[k].1),
    decreases k,
{
    if k > 0 {
        let rest = overrides.drop_first();
        assert(overrides[0].0@ != name);
        assert forall|j: int| 0 <= j < k - 1 implies rest[j].0@ != name by {
            assert(rest[j] == overrides[j + 1]);
        }
        assert(rest[k - 1] == overrides[k]);
        lemma_first_listed_override(rest, name, k - 1);
    }
}

/// Defining a pack's definitions without failure leaves a selected name that
/// the pack defines in the registry, with the status its override sets.
proof fn lemma_import_defs_override_status(
    m: Map<Seq<char>, TypeDefView>,
    defs: Seq<TypeDefView>,
    import: PackImport,
    name: Seq<char>,
    o: TypeOverride,
    s: TypeStatus,
)
    requires
        import_defs(m, defs, import).1 is None,
        selected(import, name),
        override_for(import.overrides@, name) == Some(o),
        o.status == Some(s),
        exists|i: int| 0 <= i < defs.len() && #[trigger] defs[i].0.0 == name,
    ensures
        import_defs(m, defs, import).0.contains_key(name),
        import_defs(m, defs, import).0[name].1.3 == Some(s),
    decreases defs.len(),
{
    let t = defs.drop_last();
    let last = defs.last();
    if last.0.0 != name {
        let i = choose|i: int| 0 <= i < defs.len() && #[trigger] defs[i].0.0 == name;
        assert(i < defs.len() - 1);
        assert(t[i] == defs[i]);
        lemma_import_defs_override_status(m, t, import, name, o, s);
    }
}

/// An import whose override for a type sets a status brings that type in
/// with that status: the first override listed under a selected name of the
/// pack decides its status in the registry.
pub proof fn lemma_import_override_sets_status(
    m: Map<Seq<char>, TypeDefView>,
    import: PackImport,
    packs: Map<Seq<char>, PackView>,
    name: Seq<char>,
    k: int,
    s: TypeStatus,
)
    requires
        import_result(m, import, packs).1 is None,
        exists|i: int|
            0 <= i < packs[import_reference(import)].3.len() && #[trigger] packs[import_reference(
                import,
            )].3[i].0.0 == name,
        import.types matches Some(t) ==> crate::text::views(t@).contains(name),
        0 <= k < import.overrides@.len(),
        import.overrides@[k].0@ == name,
        forall|j: int| 0 <= j < k ==> import.overrides@[j].0@ != name,
        import.overrides@[k].1.status == Some(s),
    ensures
        import_result(m, import, packs).0.contains_key(name),
        import_result(m, import, packs).0[name].1.3 == Some(s),
{
    lemma_first_listed_override(import.overrides@, name, k);
    lemma_import_defs_override_status(
        m,
        packs[import_reference(import)].3,
        import,
        name,
        import.overrides@[k].1,
        s,
    );
}

fn with_override(def: &TypeDef, over: &TypeOverride) -> (d: TypeDef)
    ensures
        d@ == apply_override(def@, *over),
{
    let mut d = def.clone();
    if let Some(roles) = &over.roles {
        d.roles = Some(copy_roles(roles));
    }
    if let Some(instructions) = &over.instructions {
        d.instructions = Some(instructions.clone());
    }
    if let Some(status) = over.status {
        d.status = Some(status);
    }
    if let Some(rate_hint) = over.rate_hint {
        d.rate_hint = Some(rate_hint);
    }
    if let Some(max_payload_hint) = over.max_payload_hint {
        d.max_payload_hint = Some(max_payload_hint);
    }
    d
}

impl TypeRegistry {
    /// Validates a definition and makes it the one for its name; the latest
    /// definition wins.
    pub fn define(&mut self, def: TypeDef) -> (res: Result<()>)
        ensures
            res is Ok <==> valid_type_def(def@),
            fails_with(res, type_def_failure(def@)),
            final(self)@ == if res is Ok { defined(old(self)@, def@) } else { old(self)@ },
            res is Ok ==> final(self).defs().len() == old(self).defs().len() + if old(self)@.contains_key(def.name@) {
                0int
            } else {
                1int
            },
    {
        validate_type_def(&def)?;
        self.insert_sorted(def);
        Ok(())
    }

    pub fn get(&self, event_type: &str) -> (r: Option<&TypeDef>)
        ensures
            match r {
                Some(d) => self@.contains_key(event_type@) && self@[event_type@] == d@,
                None => !self@.contains_key(event_type@),
            },
    {
        proof {
            use_type_invariant(self);
        }
        let mut i: usize = 0;
        while i < self.types.len()
            invariant
                i <= self.types@.len(),
                names_sorted(self.types@),
                forall|j: int| 0 <= j < i ==> #[trigger] self.types@[j].name@ != event_type@,
            decreases self.types@.len() - i,
        {
            if str_eq(self.types[i].name.as_str(), event_type) {
                proof {
                    lemma_defs_map_at(self.types@, i as int);
                }
                return Some(&self.types[i]);
            }
            i += 1;
        }
        None
    }

    pub fn contains(&self, event_type: &str) -> (r: bool)
        ensures
            r == self@.contains_key(event_type@),
    {
        self.get(event_type).is_some()
    }

    pub fn len(&self) -> (n: usize)
        ensures
            n == self.defs().len(),
    {
        self.types.len()
    }

    pub fn is_empty(&self) -> (r: bool)
        ensures
            r == (self.defs().len() == 0),
    {
        self.types.len() == 0
    }

    /// The definitions in strictly increasing name order; they are exactly
    /// the entries of the registry.
    pub fn definitions(&self) -> (r: &[TypeDef])
        ensures
            r@ == self.defs(),
            names_sorted(r@),
            forall|i: int| 0 <= i < r@.len() ==> valid_type_def(#[trigger] r@[i]@),
            self@ == defs_map(r@),
    {
        proof {
            use_type_invariant(self);
        }
        self.types.as_slice()
    }

    fn import(&mut self, import: &PackImport, packs: &PackMap) -> (res: Result<()>)
        ensures
            final(self)@ == import_result(old(self)@, *import, packs@).0,
            fails_with(res, import_result(old(self)@, *import, packs@).1),
    {
        validate_pack_import(import)?;
        let reference = match (&import.use_pack, &import.pack) {
            (Some(u), _) => u.as_str(),
            (None, Some(p)) => p.as_str(),
            (None, None) => {
                return reject("pack import requires either use, or pack with digest");
            },
        };
        let pack = match packs.get(reference) {
            Some(pack) => pack,
            None => {
                return Err(SdkError::PackUnavailable(reference.to_owned()));
            },
        };
        if let Some(subset) = &import.types {
            let mut i: usize = 0;
            while i < subset.len()
                invariant
                    i <= subset@.len(),
                    self@ == old(self)@,
                    valid_pack_import(*import),
                    reference@ == import_reference(*import),
                    packs@.contains_key(reference@),
                    packs@[reference@] == pack@,
                    import.types == Some(*subset),
                    forall|j: int| 0 <= j < i ==> pack_type_names(pack@).contains(#[trigger] subset@[j]@),
                decreases subset@.len() - i,
            {
                if !pack_has_type(pack, subset[i].as_str()) {
                    assert(!pack_type_names(pack@).contains(subset@[i as int]@));
                    proof {
                        let names = crate::text::views(subset@);
                        assert(first_unknown(names, pack_type_names(pack@), i as int));
                        let k = choose|k: int| first_unknown(names, pack_type_names(pack@), k);
                        lemma_first_unknown_unique(names, pack_type_names(pack@), i as int, k);
                    }
                    let mut message = "type ".to_owned();
                    push_str(&mut message, subset[i].as_str());
                    push_str(&mut message, " is not in pack ");
                    push_str(&mut message, reference);
                    return Err(SdkError::PackUnavailable(message));
                }
                i += 1;
            }
        }
        let mut least: Option<usize> = None;
        let mut i: usize = 0;
        while i < import.overrides.len()
            invariant
                i <= import.overrides@.len(),
                self@ == old(self)@,
                valid_pack_import(*import),
                reference@ == import_reference(*import),
                packs@.contains_key(reference@),
                packs@[reference@] == pack@,
                import.types matches Some(t) ==> forall|j: int| 0 <= j < t@.len() ==> pack_type_names(pack@).contains(#[trigger] t@[j]@),
                match least {
                    Some(b) => b < i && stray_override(*import, pack@, b as int) && forall|j: int|
                        0 <= j < i && #[trigger] stray_override(*import, pack@, j) ==> !seq_lt(
                            import.overrides@[j].0@,
                            import.overrides@[b as int].0@,
                        ),
                    None => forall|j: int| 0 <= j < i ==> !#[trigger] stray_override(*import, pack@, j),
                },
            decreases import.overrides@.len() - i,
        {
            let name = import.overrides[i].0.as_str();
            let imported = match &import.types {
                Some(subset) => {
                    proof {
                        assert(crate::text::views(subset@) == crate::text::views(subset@));
                    }
                    crate::text::contains_str(subset, name)
                },
                None => pack_has_type(pack, name),
            };
            if !imported {
                assert(stray_override(*import, pack@, i as int));
                let replace = match least {
                    Some(b) => str_lt(name, import.overrides[b].0.as_str()),
                    None => true,
                };
                if replace {
                    proof {
                        if let Some(b) = least {
                            assert forall|j: int|
                                0 <= j < i + 1 && #[trigger] stray_override(*import, pack@, j) implies !seq_lt(
                                import.overrides@[j].0@,
                                import.overrides@[i as int].0@,
                            ) by {
                                if j < i && seq_lt(import.overrides@[j].0@, import.overrides@[i as int].0@) {
                                    crate::text::lemma_lt_transitive(
                                        import.overrides@[j].0@,
                                        import.overrides@[i as int].0@,
                                        import.overrides@[b as int].0@,
                                    );
                                } else if j == i {
                                    crate::text::lemma_lt_irreflexive(import.overrides@[i as int].0@);
                                }
                            }
                        } else {
                            assert forall|j: int|
                                0 <= j < i + 1 && #[trigger] stray_override(*import, pack@, j) implies !seq_lt(
                                import.overrides@[j].0@,
                                import.overrides@[i as int].0@,
                            ) by {
                                crate::text::lemma_lt_irreflexive(import.overrides@[i as int].0@);
                            }
                        }
                    }
                    least = Some(i);
                }
            }
            i += 1;
        }
        if let Some(b) = least {
            proof {
                assert(least_stray_override(*import, pack@, b as int));
                let k = choose|k: int| least_stray_override(*import, pack@, k);
                lemma_least_stray_name(*import, pack@, b as int, k);
            }
            let mut message = "override target ".to_owned();
            push_str(&mut message, import.overrides[b].0.as_str());
            push_str(&mut message, " is not imported from pack ");
            push_str(&mut message, reference);
            return Err(SdkError::InvalidPayload(message));
        }
        assert(import_precheck(*import, packs@) is None);
        let ghost start = self@;
        let ghost defs = pack@.3;
        assert(defs.take(0) =~= Seq::<TypeDefView>::empty());
        let mut k: usize = 0;
        while k < pack.types.len()
            invariant
                k <= pack.types@.len(),
                defs == def_views(pack.types@),
                start == old(self)@,
                import_precheck(*import, packs@) is None,
                packs@[import_reference(*import)] == pack@,
                import_defs(start, defs.take(k as int), *import) == (self@, None::<ErrorView>),
            decreases pack.types@.len() - k,
        {
            let def = &pack.types[k];
            proof {
                assert(defs.take(k + 1).drop_last() =~= defs.take(k as int));
                assert(defs.take(k + 1).last() == def@);
            }
            let wanted = match &import.types {
                Some(subset) => crate::text::contains_str(subset, def.name.as_str()),
                None => true,
            };
            if wanted {
                let d = match find_override(&import.overrides, def.name.as_str()) {
                    Some(over) => with_override(def, over),
                    None => def.clone(),
                };
                match self.define(d) {
                    Ok(()) => {},
                    Err(e) => {
                        proof {
                            lemma_import_defs_stops(start, defs, k + 1, *import);
                        }
                        return Err(e);
                    },
                }
            }
            k += 1;
        }
        assert(defs.take(defs.len() as int) =~= defs);
        Ok(())
    }

    /// Applies one declaration: an inline definition or a pack import.
    /// Redefining an existing type replaces it; the latest definition wins.
    pub fn apply(&mut self, declaration: &TypeDeclaration, packs: &PackMap) -> (res: Result<()>)
        ensures
            final(self)@ == apply_result(old(self)@, *declaration, packs@).0,
            fails_with(res, apply_result(old(self)@, *declaration, packs@).1),
    {
        match declaration {
            TypeDeclaration::Def(def) => self.define(def.clone()),
            TypeDeclaration::Import(import) => self.import(import, packs),
        }
    }

    /// Materializes a registry from declarations, resolving pack imports from
    /// `packs`, keyed by registered pack id or external pack URI.
    pub fn from_declarations(declarations: &[TypeDeclaration], packs: &PackMap) -> (res: Result<Self>)
        ensures
            fails_with(res, apply_all(Map::empty(), declarations@, packs@).1),
            res matches Ok(r) ==> r@ == apply_all(Map::empty(), declarations@, packs@).0,
    {
        let mut registry = TypeRegistry::new();
        let mut i: usize = 0;
        while i < declarations.len()
            invariant
                i <= declarations@.len(),
                apply_all(Map::empty(), declarations@.take(i as int), packs@) == (registry@, None::<ErrorView>),
            decreases declarations@.len() - i,
        {
            proof {
                assert(declarations@.take(i + 1).drop_last() =~= declarations@.take(i as int));
            }
            match registry.apply(&declarations[i], packs) {
                Ok(()) => {},
                Err(e) => {
                    proof {
                        lemma_apply_all_stops(Map::empty(), declarations@, i + 1, packs@);
                    }
                    return Err(e);
                },
            }
            i += 1;
        }
        assert(declarations@.take(declarations@.len() as int) =~= declarations@);
        Ok(registry)
    }
}

} // verus!

verus! {

/// The first failing check of a custom payload against the registry.
pub open spec fn payload_failure(
    registry: Map<Seq<char>, TypeDefView>,
    event_type: Seq<char>,
    payload_json: Seq<char>,
) -> Option<ErrorView> {
    if !registry.contains_key(event_type) {
        Some(ErrorView::TypeNotDefined(event_type))
    } else if effective_status(registry[event_type].1.3) == TypeStatus::Disabled {
        Some(ErrorView::TypeDisabled(event_type))
    } else if !crate::schema::schema_compiles(registry[event_type].0.4) {
        Some(schema_error(registry[event_type].0.4))
    } else if !crate::schema::schema_accepts(registry[event_type].0.4, payload_json) {
        Some(
            ErrorView::PayloadSchemaViolation(
                event_type + ": "@ + crate::schema::schema_rejection(registry[event_type].0.4, payload_json),
            ),
        )
    } else {
        None
    }
}

impl TypeRegistry {
    /// Validates a custom event payload, given as JSON text, against the
    /// type's schema and status.
    pub fn validate_payload(&self, event_type: &str, payload_json: &str) -> (res: Result<()>)
        ensures
            fails_with(res, payload_failure(self@, event_type@, payload_json@)),
    {
        let def = match self.get(event_type) {
            Some(def) => def,
            None => {
                return Err(SdkError::TypeNotDefined(event_type.to_owned()));
            },
        };
        if def.status() == TypeStatus::Disabled {
            return Err(SdkError::TypeDisabled(event_type.to_owned()));
        }
        if let Some(error) = crate::schema::compile_schema(def.schema.as_str()) {
            return invalid("invalid type schema: ", error.as_str());
        }
        match crate::schema::check_payload(def.schema.as_str(), payload_json) {
            None => Ok(()),
            Some(error) => {
                let mut message = event_type.to_owned();
                push_str(&mut message, ": ");
                push_str(&mut message, error.as_str());
                Err(SdkError::PayloadSchemaViolation(message))
            },
        }
    }
}

/// Validates an event payload: built-in payloads are accepted as-is (use the
/// typed validators for them); custom payloads must satisfy the registry.
pub fn validate_event_against_registry(event_type: &str, payload_json: &str, registry: &TypeRegistry) -> (res: Result<()>)
    ensures
        fails_with(res, if builtin_event_type(event_type@) { None } else { payload_failure(registry@, event_type@, payload_json@) }),
{
    if is_builtin_event_type(event_type) {
        return Ok(());
    }
    registry.validate_payload(event_type, payload_json)
}

/// Permission inputs for one actor in one room.
#[derive(Clone, Copy, Debug, PartialEq, Eq, Structural)]
pub struct PermissionContext {
    pub role: Option<Role>,
    pub is_creator: bool,
    pub join_request_approved: bool,
}

impl Default for PermissionContext {
    fn default() -> (c: Self)
        ensures
            c.role is None,
            !c.is_creator,
            !c.join_request_approved,
    {
        PermissionContext { role: None, is_creator: false, join_request_approved: false }
    }
}

impl PermissionContext {
    pub fn for_role(role: Role) -> (c: Self)
        ensures
            c.role == Some(role),
            !c.is_creator,
            !c.join_request_approved,
    {
        PermissionContext { role: Some(role), is_creator: false, join_request_approved: false }
    }

    pub fn creator(role: Option<Role>) -> (c: Self)
        ensures
            c.role == role,
            c.is_creator,
            !c.join_request_approved,
    {
        PermissionContext { role, is_creator: true, join_request_approved: false }
    }
}

/// Default sender roles for each kind.
pub open spec fn kind_roles(kind: TypeKind) -> Seq<Role> {
    match kind {
        TypeKind::Message => seq![Role::Moderator, Role::Speaker],
        TypeKind::Signal => seq![Role::Moderator, Role::Speaker, Role::Observer],
        TypeKind::Control => seq![Role::Moderator],
    }
}

/// Default sender roles for each kind. The creator passes every role check.
pub fn default_kind_roles(kind: TypeKind) -> (roles: Vec<Role>)
    ensures
        roles@ == kind_roles(kind),
{
    let roles = match kind {
        TypeKind::Message => vec![Role::Moderator, Role::Speaker],
        TypeKind::Signal => vec![Role::Moderator, Role::Speaker, Role::Observer],
        TypeKind::Control => vec![Role::Moderator],
    };
    assert(roles@ =~= kind_roles(kind));
    roles
}

/// The built-in types that only the creator or a moderator may send.
pub open spec fn moderated_event_type(t: Seq<char>) -> bool {
    ||| t == event_type::ROOM_JOIN_REVIEW@
    ||| t == event_type::ROOM_MEMBER_ROLE_UPDATE@
    ||| t == event_type::ROOM_CLOSE@
    ||| t == event_type::ROOM_CANCEL@
    ||| t == event_type::TYPE_DEFINE@
}

/// The role rule for one event type, with kind defaults and per-type
/// overrides from the room's registry. State checks are separate.
pub open spec fn may_submit(event_type: Seq<char>, context: PermissionContext, registry: Map<Seq<char>, TypeDefView>) -> bool {
    if event_type == event_type::ROOM_CREATE@ {
        true
    } else if event_type == event_type::ROOM_JOIN@ {
        context.join_request_approved
    } else if event_type == event_type::ROOM_LEAVE@ {
        context.is_creator || context.role is Some
    } else if moderated_event_type(event_type) {
        context.is_creator || context.role == Some(Role::Moderator)
    } else if event_type == event_type::MESSAGE_CREATE@ {
        context.is_creator || context.role == Some(Role::Moderator) || context.role == Some(Role::Speaker)
    } else if !registry.contains_key(event_type) {
        false
    } else if effective_status(registry[event_type].1.3) == TypeStatus::Disabled {
        false
    } else if context.is_creator {
        true
    } else {
        match context.role {
            None => false,
            Some(role) => match registry[event_type].1.0 {
                Some(roles) => roles.contains(role),
                None => kind_roles(registry[event_type].0.1).contains(role),
            },
        }
    }
}

fn has_role(roles: &Vec<Role>, role: Role) -> (r: bool)
    ensures
        r == roles@.contains(role),
{
    let mut i: usize = 0;
    while i < roles.len()
        invariant
            i <= roles@.len(),
            forall|j: int| 0 <= j < i ==> roles@[j] != role,
        decreases roles@.len() - i,
    {
        if roles[i] == role {
            return true;
        }
        i += 1;
    }
    false
}

/// Role check for one event type, using kind defaults and per-type overrides
/// from the room's type registry. State checks are separate.
pub fn can_submit_event(event_type: &str, context: &PermissionContext, registry: &TypeRegistry) -> (r: bool)
    ensures
        r == may_submit(event_type@, *context, registry@),
{
    if str_eq(event_type, event_type::ROOM_CREATE) {
        return true;
    }
    if str_eq(event_type, event_type::ROOM_JOIN) {
        return context.join_request_approved;
    }
    if str_eq(event_type, event_type::ROOM_LEAVE) {
        return context.is_creator || context.role.is_some();
    }
    if str_eq(event_type, event_type::ROOM_JOIN_REVIEW) || str_eq(event_type, event_type::ROOM_MEMBER_ROLE_UPDATE)
        || str_eq(event_type, event_type::ROOM_CLOSE) || str_eq(event_type, event_type::ROOM_CANCEL) || str_eq(
        event_type,
        event_type::TYPE_DEFINE,
    ) {
        return context.is_creator || context.role == Some(Role::Moderator);
    }
    if str_eq(event_type, event_type::MESSAGE_CREATE) {
        return context.is_creator || context.role == Some(Role::Moderator) || context.role == Some(Role::Speaker);
    }
    let def = match registry.get(event_type) {
        Some(def) => def,
        None => {
            return false;
        },
    };
    if def.status() == TypeStatus::Disabled {
        return false;
    }
    if context.is_creator {
        return true;
    }
    let role = match context.role {
        Some(role) => role,
        None => {
            return false;
        },
    };
    match &def.roles {
        Some(roles) => has_role(roles, role),
        None => {
            let defaults = default_kind_roles(def.kind);
            has_role(&defaults, role)
        },
    }
}

/// The state rule: scheduled rooms take only setup events, active rooms all
/// but creation and cancellation, ended and cancelled rooms nothing.
pub open spec fn writable_in_state(event_type: Seq<char>, state: RoomState) -> bool {
    match state {
        RoomState::Scheduled => {
            ||| event_type == event_type::ROOM_JOIN@
            ||| event_type == event_type::ROOM_JOIN_REVIEW@
            ||| event_type == event_type::ROOM_MEMBER_ROLE_UPDATE@
            ||| event_type == event_type::ROOM_LEAVE@
            ||| event_type == event_type::TYPE_DEFINE@
            ||| event_type == event_type::ROOM_CANCEL@
        },
        RoomState::Active => event_type != event_type::ROOM_CREATE@ && event_type != event_type::ROOM_CANCEL@,
        RoomState::Ended | RoomState::Cancelled => false,
    }
}

pub fn can_write_in_state(event_type: &str, state: RoomState) -> (r: bool)
    ensures
        r == writable_in_state(event_type@, state),
{
    match state {
        RoomState::Scheduled => str_eq(event_type, event_type::ROOM_JOIN) || str_eq(event_type, event_type::ROOM_JOIN_REVIEW)
            || str_eq(event_type, event_type::ROOM_MEMBER_ROLE_UPDATE) || str_eq(event_type, event_type::ROOM_LEAVE)
            || str_eq(event_type, event_type::TYPE_DEFINE) || str_eq(event_type, event_type::ROOM_CANCEL),
        RoomState::Active => !str_eq(event_type, event_type::ROOM_CREATE) && !str_eq(event_type, event_type::ROOM_CANCEL),
        RoomState::Ended | RoomState::Cancelled => false,
    }
}

pub fn can_accept_room_write(
    event_type: &str,
    state: RoomState,
    permission: &PermissionContext,
    registry: &TypeRegistry,
) -> (r: bool)
    ensures
        r == (may_submit(event_type@, *permission, registry@) && writable_in_state(event_type@, state)),
{
    can_submit_event(event_type, permission, registry) && can_write_in_state(event_type, state)
}

pub fn validate_room_write(
    event_type: &str,
    state: RoomState,
    permission: &PermissionContext,
    registry: &TypeRegistry,
) -> (res: Result<()>)
    ensures
        res is Ok <==> (may_submit(event_type@, *permission, registry@) && writable_in_state(event_type@, state)),
        res matches Err(e) ==> e is PermissionDenied,
{
    if can_accept_room_write(event_type, state, permission, registry) {
        Ok(())
    } else {
        Err(SdkError::PermissionDenied)
    }
}

} // verus!

verus! {

pub struct RoomPolicy {
    pub moderator_agent_ids: Vec<AgentId>,
    pub max_speakers: Option<u32>,
    pub observer_allowed: Option<bool>,
    /// Further members as `(name, JSON text)` pairs.
    pub extra: Vec<(String, String)>,
}

impl Default for RoomPolicy {
    fn default() -> (p: Self)
        ensures
            p.moderator_agent_ids@.len() == 0,
            p.max_speakers is None,
            p.observer_allowed is None,
            p.extra@.len() == 0,
    {
        RoomPolicy { moderator_agent_ids: Vec::new(), max_speakers: None, observer_allowed: None, extra: Vec::new() }
    }
}

impl RoomPolicy {
    pub fn new() -> (p: Self)
        ensures
            p.moderator_agent_ids@.len() == 0,
            p.max_speakers is None,
            p.observer_allowed is None,
            p.extra@.len() == 0,
    {
        RoomPolicy::default()
    }
}

pub struct RoomCreatePayload {
    pub topic: String,
    pub agenda: Option<String>,
    pub guidance: Option<String>,
    pub visibility: Visibility,
    pub start_time: i64,
    pub end_time: i64,
    pub tags: Vec<String>,
    pub language: Option<String>,
    pub policy: Option<RoomPolicy>,
    pub types: Vec<TypeDeclaration>,
    /// Further members as `(name, JSON text)` pairs.
    pub extra: Vec<(String, String)>,
}

impl RoomCreatePayload {
    pub fn new(topic: &str, visibility: Visibility, start_time: i64, end_time: i64) -> (p: Self)
        ensures
            p.topic@ == topic@,
            p.agenda is None,
            p.guidance is None,
            p.visibility == visibility,
            p.start_time == start_time,
            p.end_time == end_time,
            p.tags@.len() == 0,
            p.language is None,
            p.policy is None,
            p.types@.len() == 0,
            p.extra@.len() == 0,
    {
        RoomCreatePayload {
            topic: topic.to_owned(),
            agenda: None,
            guidance: None,
            visibility,
            start_time,
            end_time,
            tags: Vec::new(),
            language: None,
            policy: None,
            types: Vec::new(),
            extra: Vec::new(),
        }
    }
}

pub struct RoomJoinPayload {
    pub request_id: String,
    pub role: Role,
}

/// A revision of a room's contract: each field that is present replaces the
/// room's; an empty agenda, guidance or language clears it.
pub struct RoomUpdatePayload {
    pub topic: Option<String>,
    pub agenda: Option<String>,
    pub guidance: Option<String>,
    pub tags: Option<Vec<String>>,
    pub language: Option<String>,
    pub policy: Option<RoomPolicy>,
    pub start_time: Option<i64>,
    pub end_time: Option<i64>,
}

/// The removal of a member from a room; with `ban`, a ban.
pub struct RoomMemberRemovePayload {
    pub member: AgentId,
    pub ban: Option<bool>,
    pub reason: Option<String>,
}

impl RoomMemberRemovePayload {
    pub fn new(member: AgentId) -> (p: Self)
        ensures
            p.member == member,
            p.ban is None,
            p.reason is None,
    {
        RoomMemberRemovePayload { member, ban: None, reason: None }
    }

    /// Whether the removal is a ban.
    pub fn banning(&self) -> (b: bool)
        ensures
            b == (self.ban == Some(true)),
    {
        match self.ban {
            Some(b) => b,
            None => false,
        }
    }
}

pub struct RoomJoinRequestInput {
    pub role: Role,
    pub perspective: Option<String>,
    pub reason: Option<String>,
    /// Further members as `(name, JSON text)` pairs.
    pub extra: Vec<(String, String)>,
}

impl RoomJoinRequestInput {
    pub fn new(role: Role) -> (input: Self)
        ensures
            input.role == role,
            input.perspective is None,
            input.reason is None,
            input.extra@.len() == 0,
    {
        RoomJoinRequestInput { role, perspective: None, reason: None, extra: Vec::new() }
    }
}

pub struct RoomJoinRequest {
    pub id: String,
    pub room_id: String,
    pub applicant: AgentId,
    pub role: Role,
    pub perspective: Option<String>,
    pub reason: Option<String>,
    pub created_at: i64,
    pub expires_at: i64,
    /// Further members as `(name, JSON text)` pairs.
    pub extra: Vec<(String, String)>,
}

pub struct RoomJoinRequestStatus {
    pub request: RoomJoinRequest,
    pub status: JoinRequestStatus,
    pub approved_role: Option<Role>,
    pub review_reason: Option<String>,
    pub reviewed_by: Option<AgentId>,
    pub reviewed_at: Option<i64>,
}

pub struct RoomJoinReviewPayload {
    pub request: RoomJoinRequest,
    pub decision: JoinDecision,
    pub role: Option<Role>,
    pub reason: Option<String>,
    /// Further members as `(name, JSON text)` pairs.
    pub extra: Vec<(String, String)>,
}

pub struct RoleUpdatePayload {
    pub member: AgentId,
    pub role: Role,
    pub reason: Option<String>,
    /// Further members as `(name, JSON text)` pairs.
    pub extra: Vec<(String, String)>,
}

/// Shared payload of `room.leave`, `room.close`, and `room.cancel`.
pub struct ReasonPayload {
    pub reason: Option<String>,
    pub references: Vec<String>,
    /// Further members as `(name, JSON text)` pairs.
    pub extra: Vec<(String, String)>,
}

impl Default for ReasonPayload {
    fn default() -> (p: Self)
        ensures
            p.reason is None,
            p.references@.len() == 0,
            p.extra@.len() == 0,
    {
        ReasonPayload { reason: None, references: Vec::new(), extra: Vec::new() }
    }
}

pub type RoomLeavePayload = ReasonPayload;

pub type RoomClosePayload = ReasonPayload;

pub type RoomCancelPayload = ReasonPayload;

pub struct MessageCreatePayload {
    pub content_type: String,
    /// The content as JSON text.
    pub content: String,
    pub references: Vec<String>,
    /// Further members as `(name, JSON text)` pairs.
    pub extra: Vec<(String, String)>,
}

impl MessageCreatePayload {
    /// A message with the given content type and JSON content text.
    pub fn new(content_type: &str, content: &str) -> (p: Self)
        ensures
            p.content_type@ == content_type@,
            p.content@ == content@,
            p.references@.len() == 0,
            p.extra@.len() == 0,
    {
        MessageCreatePayload {
            content_type: content_type.to_owned(),
            content: content.to_owned(),
            references: Vec::new(),
            extra: Vec::new(),
        }
    }

    /// A `text/plain` message whose content is the JSON string `text`.
    pub fn text(text: &str) -> (p: Self)
        ensures
            p.content_type@ == "text/plain"@,
            p.content@ == crate::codec::json_string_literal(text@),
            p.references@.len() == 0,
            p.extra@.len() == 0,
    {
        let content = crate::codec::json_quote(text);
        MessageCreatePayload::new("text/plain", content.as_str())
    }

    /// A `text/markdown` message whose content is the JSON string `markdown`.
    pub fn markdown(markdown: &str) -> (p: Self)
        ensures
            p.content_type@ == "text/markdown"@,
            p.content@ == crate::codec::json_string_literal(markdown@),
            p.references@.len() == 0,
            p.extra@.len() == 0,
    {
        let content = crate::codec::json_quote(markdown);
        MessageCreatePayload::new("text/markdown", content.as_str())
    }
}

pub struct ProfileResolverMetadata {
    pub mode: String,
    pub service: Option<String>,
    pub protocol: Option<String>,
}

pub struct DiscourseProtocolDiscovery {
    pub protocol: String,
    pub host: String,
    pub features: Vec<String>,
    pub registered_packs: Vec<String>,
    pub profile: Option<ProfileResolverMetadata>,
    /// Endpoints by name, as `(name, URL)` pairs.
    pub endpoints: Vec<(String, String)>,
}

pub struct ArchiveManifest {
    pub protocol: String,
    pub kind: String,
    pub host: String,
    pub room_id: String,
    pub url: String,
    pub generated_at: i64,
    pub event_count: u64,
    pub first_seq: u64,
    pub last_seq: u64,
    pub last_hash: String,
    pub events_sha3_256: String,
    pub archive_root: String,
    /// Formats by name, as `(name, URL)` pairs.
    pub formats: Vec<(String, String)>,
    /// Further members as `(name, JSON text)` pairs.
    pub extra: Vec<(String, String)>,
}

pub fn room_create_event(actor: AgentId, created_at: i64, nonce: u64, payload: RoomCreatePayload) -> (event: Event<
    RoomCreatePayload,
>)
    ensures
        event.protocol@ == PROTOCOL@,
        event.kind@ == event_type::ROOM_CREATE@,
        event.actor == actor,
        event.created_at == created_at,
        event.nonce == nonce,
        event.room_id is None,
        event.payload == payload,
        event.extra@.len() == 0,
{
    Event::new(PROTOCOL, event_type::ROOM_CREATE, actor, created_at, nonce, payload)
}

pub fn type_define_event(
    actor: AgentId,
    created_at: i64,
    nonce: u64,
    room_id: &str,
    declaration: TypeDeclaration,
) -> (event: Event<TypeDeclaration>)
    ensures
        event.protocol@ == PROTOCOL@,
        event.kind@ == event_type::TYPE_DEFINE@,
        event.actor == actor,
        event.created_at == created_at,
        event.nonce == nonce,
        event.room_id matches Some(r) && r@ == room_id@,
        event.payload == declaration,
        event.extra@.len() == 0,
{
    Event::new(PROTOCOL, event_type::TYPE_DEFINE, actor, created_at, nonce, declaration).with_room_id(room_id)
}

pub fn discourse_event<P>(kind: &str, actor: AgentId, created_at: i64, nonce: u64, room_id: &str, payload: P) -> (event:
    Event<P>)
    ensures
        event.protocol@ == PROTOCOL@,
        event.kind@ == kind@,
        event.actor == actor,
        event.created_at == created_at,
        event.nonce == nonce,
        event.room_id matches Some(r) && r@ == room_id@,
        event.payload == payload,
        event.extra@.len() == 0,
{
    Event::new(PROTOCOL, kind, actor, created_at, nonce, payload).with_room_id(room_id)
}

/// The first failing check of a discourse envelope.
pub open spec fn discourse_envelope_failure<P>(envelope: Envelope<P>, payload_json: Seq<char>) -> Option<ErrorView> {
    match crate::identity::envelope_failure(envelope, payload_json) {
        Some(e) => Some(e),
        None => if envelope.event.protocol@ != PROTOCOL@ {
            Some(ErrorView::InvalidEventProtocol { expected: PROTOCOL@, actual: envelope.event.protocol@ })
        } else if envelope.event.kind@ == event_type::ROOM_CREATE@ {
            if envelope.event.room_id is Some {
                Some(invalid_payload("room.create must not include room_id"@))
            } else {
                None
            }
        } else if envelope.event.room_id is None {
            Some(ErrorView::MissingRoomId)
        } else {
            None
        },
    }
}

/// Verifies a discourse envelope: hash and signature, protocol, and that
/// exactly the events other than `room.create` name their room.
pub fn validate_discourse_envelope<P>(envelope: &Envelope<P>, payload_json: &str) -> (res: Result<()>)
    ensures
        fails_with(res, discourse_envelope_failure(*envelope, payload_json@)),
{
    crate::identity::verify_envelope(envelope, payload_json)?;
    if !str_eq(envelope.event.protocol.as_str(), PROTOCOL) {
        return Err(SdkError::InvalidEventProtocol {
            expected: PROTOCOL.to_owned(),
            actual: envelope.event.protocol.clone(),
        });
    }
    if str_eq(envelope.event.kind.as_str(), event_type::ROOM_CREATE) {
        if envelope.event.room_id.is_some() {
            return reject("room.create must not include room_id");
        }
    } else if envelope.event.room_id.is_none() {
        return Err(SdkError::MissingRoomId);
    }
    Ok(())
}

/// The failure of an envelope's room against the room of the request path.
pub open spec fn room_path_failure<P>(envelope: Envelope<P>, path_room_id: Seq<char>) -> Option<ErrorView> {
    if envelope.event.kind@ == event_type::ROOM_CREATE@ {
        if envelope.event.room_id is None {
            None
        } else {
            Some(invalid_payload("room.create must not include room_id"@))
        }
    } else {
        match envelope.event.room_id {
            Some(actual) => if actual@ == path_room_id {
                None
            } else {
                Some(ErrorView::RoomIdMismatch { expected: path_room_id, actual: actual@ })
            },
            None => Some(ErrorView::MissingRoomId),
        }
    }
}

pub fn validate_room_path<P>(envelope: &Envelope<P>, path_room_id: &str) -> (res: Result<()>)
    ensures
        fails_with(res, room_path_failure(*envelope, path_room_id@)),
{
    if str_eq(envelope.event.kind.as_str(), event_type::ROOM_CREATE) {
        return match &envelope.event.room_id {
            None => Ok(()),
            Some(_) => reject("room.create must not include room_id"),
        };
    }
    match &envelope.event.room_id {
        Some(actual) => if str_eq(actual.as_str(), path_room_id) {
            Ok(())
        } else {
            Err(SdkError::RoomIdMismatch { expected: path_room_id.to_owned(), actual: actual.clone() })
        },
        None => Err(SdkError::MissingRoomId),
    }
}

/// A valid room: a topic, a start before its end, a positive speaker limit
/// if any, and valid type declarations.
pub open spec fn valid_room_create(payload: RoomCreatePayload) -> bool {
    &&& !blank(payload.topic@)
    &&& payload.start_time < payload.end_time
    &&& payload.policy matches Some(p) ==> p.max_speakers != Some(0u32)
    &&& forall|i: int| 0 <= i < payload.types@.len() ==> valid_declaration(#[trigger] payload.types@[i])
}

/// The failure of the first invalid declaration, in order.
pub open spec fn declarations_failure(declarations: Seq<TypeDeclaration>) -> Option<ErrorView>
    decreases declarations.len(),
{
    if declarations.len() == 0 {
        None
    } else {
        match declarations_failure(declarations.drop_last()) {
            Some(e) => Some(e),
            None => declaration_failure(declarations.last()),
        }
    }
}

proof fn lemma_declarations_failure_stops(declarations: Seq<TypeDeclaration>, n: int)
    requires
        0 <= n <= declarations.len(),
        declarations_failure(declarations.take(n)) is Some,
    ensures
        declarations_failure(declarations) == declarations_failure(declarations.take(n)),
    decreases declarations.len() - n,
{
    if n < declarations.len() {
        assert(declarations.take(n + 1).drop_last() =~= declarations.take(n));
        lemma_declarations_failure_stops(declarations, n + 1);
    } else {
        assert(declarations.take(n) =~= declarations);
    }
}

/// The first failing check of a room creation payload.
pub open spec fn room_create_failure(payload: RoomCreatePayload) -> Option<ErrorView> {
    if blank(payload.topic@) {
        Some(invalid_payload("room topic must not be empty"@))
    } else if payload.start_time >= payload.end_time {
        Some(invalid_payload("start_time must be before end_time"@))
    } else if payload.policy matches Some(p) && p.max_speakers == Some(0u32) {
        Some(invalid_payload("max_speakers must be a positive integer"@))
    } else {
        declarations_failure(payload.types@)
    }
}

pub fn validate_room_create_payload(payload: &RoomCreatePayload) -> (res: Result<()>)
    ensures
        res is Ok <==> valid_room_create(*payload),
        fails_with(res, room_create_failure(*payload)),
{
    if is_blank(payload.topic.as_str()) {
        return reject("room topic must not be empty");
    }
    if payload.start_time >= payload.end_time {
        return reject("start_time must be before end_time");
    }
    if let Some(policy) = &payload.policy {
        if policy.max_speakers == Some(0u32) {
            return reject("max_speakers must be a positive integer");
        }
    }
    let mut i: usize = 0;
    while i < payload.types.len()
        invariant
            i <= payload.types@.len(),
            forall|j: int| 0 <= j < i ==> valid_declaration(#[trigger] payload.types@[j]),
            declarations_failure(payload.types@.take(i as int)) is None,
            room_create_failure(*payload) == declarations_failure(payload.types@),
        decreases payload.types@.len() - i,
    {
        proof {
            assert(payload.types@.take(i + 1).drop_last() =~= payload.types@.take(i as int));
        }
        match validate_type_declaration(&payload.types[i]) {
            Ok(()) => {},
            Err(e) => {
                proof {
                    lemma_declarations_failure_stops(payload.types@, i as int + 1);
                }
                return Err(e);
            },
        }
        i += 1;
    }
    assert(payload.types@.take(payload.types@.len() as int) =~= payload.types@);
    Ok(())
}

pub fn validate_message_create_payload(payload: &MessageCreatePayload) -> (res: Result<()>)
    ensures
        res is Ok <==> !blank(payload.content_type@),
        res matches Err(e) ==> e@ == invalid_payload("content_type must not be empty"@),
{
    if is_blank(payload.content_type.as_str()) {
        return reject("content_type must not be empty");
    }
    Ok(())
}

/// The digest a `<algorithm>:<base64url-digest>` text names, if its
/// algorithm is `sha256` or `sha3-256`: the algorithm's digest of `bytes`
/// must equal the text after the colon.
pub open spec fn pack_digest_matches(bytes: Seq<u8>, digest: Seq<char>) -> bool {
    let k = crate::text::first_index_of(digest, ':');
    let algorithm = digest.take(k);
    let expected = digest.skip(k + 1);
    &&& k < digest.len()
    &&& if algorithm == "sha256"@ {
        crate::codec::base64url_encoding(crate::crypto::sha256(bytes)) == expected
    } else if algorithm == "sha3-256"@ {
        crate::codec::base64url_encoding(crate::crypto::sha3_256(bytes)) == expected
    } else {
        false
    }
}

/// Why a digest text does not verify over `bytes`, if it does not.
pub open spec fn pack_digest_failure(bytes: Seq<u8>, digest: Seq<char>) -> Option<ErrorView> {
    let k = crate::text::first_index_of(digest, ':');
    let algorithm = digest.take(k);
    let expected = digest.skip(k + 1);
    if k >= digest.len() {
        Some(ErrorView::PackUnavailable("invalid digest format: "@ + digest))
    } else if algorithm != "sha256"@ && algorithm != "sha3-256"@ {
        Some(ErrorView::PackUnavailable("unsupported digest algorithm: "@ + algorithm))
    } else if pack_digest_matches(bytes, digest) {
        None
    } else {
        Some(ErrorView::PackUnavailable("pack digest mismatch"@))
    }
}

/// Verifies a `<algorithm>:<base64url-digest>` content digest over raw bytes.
/// Supports `sha256` and `sha3-256`.
pub fn verify_pack_digest(bytes: &[u8], digest: &str) -> (res: Result<()>)
    ensures
        res is Ok <==> pack_digest_matches(bytes@, digest@),
        fails_with(res, pack_digest_failure(bytes@, digest@)),
{
    let (algorithm, expected) = match crate::text::split_once_char(digest, ':') {
        Some(parts) => parts,
        None => {
            let mut message = "invalid digest format: ".to_owned();
            push_str(&mut message, digest);
            return Err(SdkError::PackUnavailable(message));
        },
    };
    let actual = if str_eq(algorithm.as_str(), "sha256") {
        let d = crate::crypto::sha256_digest(bytes);
        crate::codec::base64url_encode(d.as_slice())
    } else if str_eq(algorithm.as_str(), "sha3-256") {
        let d = crate::crypto::sha3_256_digest(bytes);
        crate::codec::base64url_encode(d.as_slice())
    } else {
        let mut message = "unsupported digest algorithm: ".to_owned();
        push_str(&mut message, algorithm.as_str());
        return Err(SdkError::PackUnavailable(message));
    };
    if str_eq(actual.as_str(), expected.as_str()) {
        Ok(())
    } else {
        Err(SdkError::PackUnavailable("pack digest mismatch".to_owned()))
    }
}

} // verus!

verus! {

/// Defining two definitions of one name leaves the later one: the latest
/// definition wins.
pub proof fn lemma_latest_definition_wins(m: Map<Seq<char>, TypeDefView>, first: TypeDefView, second: TypeDefView)
    requires
        first.0.0 == second.0.0,
    ensures
        defined(defined(m, first), second) == defined(m, second),
        defined(defined(m, first), second)[second.0.0] == second,
{
    assert(defined(defined(m, first), second) =~= defined(m, second));
}

/// A definition leaves the definitions of other names as they were.
pub proof fn lemma_define_keeps_others(m: Map<Seq<char>, TypeDefView>, v: TypeDefView, name: Seq<char>)
    requires
        name != v.0.0,
    ensures
        defined(m, v).contains_key(name) == m.contains_key(name),
        m.contains_key(name) ==> defined(m, v)[name] == m[name],
{
}

/// The room creator passes the role check of every built-in event type but
/// `room.join`, which needs an approved join request, and of every defined
/// type that is not disabled.
pub proof fn lemma_creator_passes_role_checks(
    event_type: Seq<char>,
    role: Option<Role>,
    registry: Map<Seq<char>, TypeDefView>,
)
    requires
        event_type != event_type::ROOM_JOIN@,
        builtin_event_type(event_type) || (registry.contains_key(event_type) && effective_status(
            registry[event_type].1.3,
        ) != TypeStatus::Disabled),
    ensures
        may_submit(event_type, PermissionContext { role, is_creator: true, join_request_approved: false }, registry),
{
}

/// Ended and cancelled rooms are read-only, and no room takes a second
/// `room.create`.
pub proof fn lemma_closed_rooms_read_only(event_type: Seq<char>, state: RoomState)
    ensures
        !writable_in_state(event_type, RoomState::Ended),
        !writable_in_state(event_type, RoomState::Cancelled),
        !writable_in_state(event_type::ROOM_CREATE@, state),
{
    event_type::lemma_event_type_texts();
    reveal_strlit("room.create");
    reveal_strlit("room.join");
    reveal_strlit("room.join.review");
    reveal_strlit("room.member.role.update");
    reveal_strlit("room.leave");
    reveal_strlit("type.define");
    reveal_strlit("room.cancel");
    assert("room.create"@.len() != "room.join"@.len());
    assert("room.create"@[0] != "type.define"@[0]);
    assert("room.create"@[6] != "room.cancel"@[6]);
}

/// Only the room's creator or a moderator may review join requests, change
/// member roles, close or cancel the room, or define types: for any other
/// member (a speaker, an observer, or one without a role) these are refused,
/// whatever the room's registry holds.
pub proof fn lemma_moderated_types_need_a_moderator(
    event_type: Seq<char>,
    context: PermissionContext,
    registry: Map<Seq<char>, TypeDefView>,
)
    requires
        event_type == event_type::ROOM_JOIN_REVIEW@ || event_type == event_type::ROOM_MEMBER_ROLE_UPDATE@
            || event_type == event_type::ROOM_CLOSE@ || event_type == event_type::ROOM_CANCEL@ || event_type
            == event_type::TYPE_DEFINE@,
    ensures
        may_submit(event_type, context, registry) <==> (context.is_creator || context.role == Some(Role::Moderator)),
        !context.is_creator && context.role != Some(Role::Moderator) ==> !may_submit(event_type, context, registry),
{
    event_type::lemma_event_type_texts();
    reveal_strlit("room.create");
    reveal_strlit("room.join");
    reveal_strlit("room.join.review");
    reveal_strlit("room.member.role.update");
    reveal_strlit("room.leave");
    reveal_strlit("room.close");
    reveal_strlit("room.cancel");
    reveal_strlit("type.define");
    assert("room.create"@.len() != "room.join"@.len());
    assert("room.create"@.len() != "room.leave"@.len());
    assert("room.create"@.len() != "room.join.review"@.len());
    assert("room.create"@.len() != "room.member.role.update"@.len());
    assert("room.create"@.len() != "room.close"@.len());
    assert("room.create"@[0] != "type.define"@[0]);
    assert("room.create"@[6] != "room.cancel"@[6]);
    assert("room.join"@.len() != "room.join.review"@.len());
    assert("room.join"@.len() != "room.member.role.update"@.len());
    assert("room.join"@.len() != "room.close"@.len());
    assert("room.join"@.len() != "room.cancel"@.len());
    assert("room.join"@.len() != "type.define"@.len());
    assert("room.leave"@.len() != "room.join.review"@.len());
    assert("room.leave"@.len() != "room.member.role.update"@.len());
    assert("room.leave"@[5] != "room.close"@[5]);
    assert("room.leave"@.len() != "room.cancel"@.len());
    assert("room.leave"@.len() != "type.define"@.len());
}

/// A room is cancelled only while scheduled and closed only while active.
pub proof fn lemma_cancel_and_close_states(state: RoomState)
    ensures
        writable_in_state(event_type::ROOM_CANCEL@, state) <==> state == RoomState::Scheduled,
        writable_in_state(event_type::ROOM_CLOSE@, state) <==> state == RoomState::Active,
{
    event_type::lemma_event_type_texts();
    reveal_strlit("room.cancel");
    reveal_strlit("room.close");
    reveal_strlit("room.create");
    reveal_strlit("room.join");
    reveal_strlit("room.join.review");
    reveal_strlit("room.member.role.update");
    reveal_strlit("room.leave");
    reveal_strlit("type.define");
    assert("room.close"@[0] != "type.define"@[0]);
    assert("room.close"@.len() != "room.cancel"@.len());
    assert("room.close"@.len() != "room.create"@.len());
    assert("room.close"@[5] != "room.leave"@[5]);
}

/// Every definition a registry holds is valid, so a defined type's payload
/// check fails only with `TypeDisabled` or `PayloadSchemaViolation`.
pub proof fn lemma_defined_payload_errors(
    defs: Seq<TypeDef>,
    event_type: Seq<char>,
    payload_json: Seq<char>,
)
    requires
        names_sorted(defs),
        forall|i: int| 0 <= i < defs.len() ==> valid_type_def(#[trigger] defs[i]@),
        defs_map(defs).contains_key(event_type),
    ensures
        payload_failure(defs_map(defs), event_type, payload_json) matches Some(e) ==> (e is TypeDisabled
            || e is PayloadSchemaViolation),
{
    let i = name_index(defs, event_type);
    lemma_defs_map_at(defs, i);
    assert(valid_type_def(defs[i]@));
}

/// A digest written as `sha256:` and the base64url SHA-256 of the bytes
/// verifies those bytes.
pub proof fn lemma_sha256_digest_verifies(bytes: Seq<u8>)
    ensures
        pack_digest_matches(bytes, "sha256:"@ + crate::codec::base64url_encoding(crate::crypto::sha256(bytes))),
{
    reveal_strlit("sha256:");
    reveal_strlit("sha256");
    let d = "sha256:"@ + crate::codec::base64url_encoding(crate::crypto::sha256(bytes));
    crate::text::lemma_first_index_unique(d, ':', 6);
    assert(d.take(6) =~= "sha256"@);
    assert(d.skip(7) =~= crate::codec::base64url_encoding(crate::crypto::sha256(bytes)));
}

} // verus!

verus! {

pub struct RoomResponse {
    pub id: String,
    pub status: RoomState,
    pub url: String,
    pub topic: Option<String>,
    pub guidance: Option<String>,
    pub visibility: Option<Visibility>,
    pub start_time: Option<i64>,
    pub end_time: Option<i64>,
    pub policy: Option<RoomPolicy>,
    /// Materialized type registry served by the host.
    pub types: Vec<TypeDef>,
    pub seq: u64,
    pub pre_hash: Option<String>,
    pub hash: String,
    pub received_at: i64,
    pub envelope: Option<Envelope<RoomCreatePayload>>,
}

} // verus!
