//! The memory tool's protocol: TTL validation, admission of writes, the
//! request bodies, and the interpretation of its responses.
use crate::evidence::{Evidence, MIN_STORAGE_CONFIDENCE};
use crate::json::{field_views, lemma_members_view, member, Json, JsonView};
use crate::number::scaled_to_text;
use crate::text::{owned, trim_of, trimmed, upper_of, uppercase};
use vstd::prelude::*;

verus! {

/// A stored memory entry; `confidence` is in millionths.
pub struct MemoryEntry {
    pub key: String,
    pub value: Json,
    pub provenance: Option<Vec<String>>,
    pub confidence: u64,
    pub ttl: String,
    pub timestamp: String,
    pub expires_at: Option<String>,
    pub evidence_summary: Option<Json>,
}

pub enum MemoryError {
    Communication(String),
    StorageError(String),
    /// The confidence offered, in millionths.
    InsufficientConfidence(u64),
    EvidenceValidation(String),
    MissingProvenance,
    InvalidTtl(String),
}

/// Whether the regular expression `pattern`, as the regex crate compiles
/// it, matches `s`; false when the pattern does not compile.
pub uninterp spec fn regex_accepts(pattern: Seq<char>, s: Seq<char>) -> bool;

/// Relies on `regex::Regex::new` and `regex::Regex::is_match`.
#[verifier::external_body]
fn regex_matches(pattern: &str, s: &str) -> (r: bool)
    ensures
        r == regex_accepts(pattern@, s@),
{
    regex::Regex::new(pattern).map(|re| re.is_match(s)).unwrap_or(false)
}

/// The shape of a TTL, `P[nD][T[nH][nM][nS]]`, as a regular expression.
pub open spec fn ttl_pattern() -> Seq<char> {
    r"^P(?:(\d+)D)?(?:T(?:(\d+)H)?(?:(\d+)M)?(?:(\d+)S)?)?$"@
}

fn ttl_pattern_text() -> (r: &'static str)
    ensures
        r@ == ttl_pattern(),
{
    r"^P(?:(\d+)D)?(?:T(?:(\d+)H)?(?:(\d+)M)?(?:(\d+)S)?)?$"
}

/// Text has the shape that `ttl_pattern` accepts.
pub open spec fn ttl_shape(s: Seq<char>) -> bool {
    regex_accepts(ttl_pattern(), s)
}

/// The TTL a write uses: the given one, trimmed and upper-cased, or `P90D`
/// when none or a blank one is given.
pub open spec fn canonical_ttl(ttl: Option<Seq<char>>) -> Seq<char> {
    match ttl {
        Some(t) => if upper_of(trim_of(t)).len() > 0 {
            upper_of(trim_of(t))
        } else {
            "P90D"@
        },
        None => "P90D"@,
    }
}

/// A TTL that writes accept: the pattern's shape, and not zero.
pub open spec fn ttl_valid(c: Seq<char>) -> bool {
    ttl_shape(c) && !zero_duration(c)
}

/// A duration of the TTL shape is zero when every character is a designator
/// (`P`, `T`, `D`, `H`, `M`, `S`) or the digit `0`: `P`, `PT`, `P00D` and
/// `PT0H0S` are all zero.
pub open spec fn zero_duration(c: Seq<char>) -> bool {
    forall|i: int| 0 <= i < c.len() ==> zero_char(#[trigger] c[i])
}

pub open spec fn zero_char(ch: char) -> bool {
    ch == 'P' || ch == 'T' || ch == 'D' || ch == 'H' || ch == 'M' || ch == 'S' || ch == '0'
}

fn is_zero_duration(c: &str) -> (r: bool)
    ensures
        r == zero_duration(c@),
{
    let n = c.unicode_len();
    let mut i: usize = 0;
    while i < n
        invariant
            n == c@.len(),
            i <= n,
            forall|j: int| 0 <= j < i ==> zero_char(#[trigger] c@[j]),
        decreases n - i,
    {
        let ch = c.get_char(i);
        if !(ch == 'P' || ch == 'T' || ch == 'D' || ch == 'H' || ch == 'M' || ch == 'S' || ch == '0') {
            return false;
        }
        i += 1;
    }
    true
}

/// Canonicalises a TTL and checks it: the pattern must match and the
/// duration may not be zero.
pub fn validate_ttl(ttl: Option<&str>) -> (r: Result<String, MemoryError>)
    ensures
        r is Ok <==> ttl_valid(canonical_ttl(match ttl { Some(t) => Some(t@), None => None })),
        r matches Ok(c) ==> c@ == canonical_ttl(match ttl { Some(t) => Some(t@), None => None }),
        r matches Err(e) ==> e is InvalidTtl && e->InvalidTtl_0@ == canonical_ttl(
            match ttl { Some(t) => Some(t@), None => None },
        ),
{
    let canonical = match ttl {
        Some(t) => {
            let u = uppercase(trimmed(t).as_str());
            if u.as_str().unicode_len() > 0 {
                u
            } else {
                owned("P90D")
            }
        },
        None => owned("P90D"),
    };
    if !regex_matches(ttl_pattern_text(), canonical.as_str()) {
        return Err(MemoryError::InvalidTtl(canonical));
    }
    if is_zero_duration(canonical.as_str()) {
        return Err(MemoryError::InvalidTtl(canonical));
    }
    Ok(canonical)
}

/// A write admitted by the memory policy: provenance present and non-empty,
/// confidence present and at least 0.8, and a valid TTL.
pub open spec fn write_admitted(provenance: Option<Seq<String>>, confidence: Option<u64>, ttl: Option<Seq<char>>) -> bool {
    &&& provenance matches Some(p) && p.len() > 0
    &&& confidence matches Some(c) && c >= MIN_STORAGE_CONFIDENCE
    &&& ttl_valid(canonical_ttl(ttl))
}

fn strings_json(v: &Vec<String>) -> (r: Json)
    ensures
        r@ is Array,
        r@->Array_0.len() == v@.len(),
        forall|i: int| 0 <= i < v@.len() ==> #[trigger] r@->Array_0[i] == JsonView::Str(v@[i]@),
{
    let mut out: Vec<Json> = Vec::new();
    let mut i: usize = 0;
    while i < v.len()
        invariant
            i <= v@.len(),
            out@.len() == i,
            forall|j: int| 0 <= j < i ==> #[trigger] out@[j]@ == JsonView::Str(v@[j]@),
        decreases v@.len() - i,
    {
        out.push(Json::Str(v[i].clone()));
        i += 1;
    }
    let r = Json::Array(out);
    assert forall|i: int| 0 <= i < v@.len() implies #[trigger] r@->Array_0[i] == JsonView::Str(v@[i]@) by {
        assert(r@->Array_0[i] == out@[i]@);
    }
    r
}

/// The body of a memory write: checks provenance, then confidence, then the
/// TTL, and builds `{operation: "write", key, value, provenance, confidence,
/// ttl, evidence_summary?}` with the confidence in decimal.
pub fn write_request(
    key: &str,
    value: &Json,
    provenance: Option<&Vec<String>>,
    confidence: Option<u64>,
    ttl: Option<&str>,
    evidence_summary: Option<&Json>,
) -> (r: Result<Json, MemoryError>)
    ensures
        r is Ok <==> write_admitted(
            match provenance { Some(p) => Some(p@), None => None },
            confidence,
            match ttl { Some(t) => Some(t@), None => None },
        ),
        (r is Err && r->Err_0 is MissingProvenance) <==> !(provenance matches Some(p) && p@.len() > 0),
        (r is Err && r->Err_0 is InsufficientConfidence) <==> ((provenance matches Some(p) && p@.len() > 0)
            && !(confidence matches Some(c) && c >= MIN_STORAGE_CONFIDENCE)),
        r matches Ok(body) ==> member(body@, "confidence"@) == Some(JsonView::Number(
            crate::number::scaled_text(confidence->0 as nat, 6),
        )) && member(body@, "provenance"@) == Some(JsonView::Array(
            Seq::new(provenance->0@.len(), |i: int| JsonView::Str(provenance->0@[i]@)),
        )),
        r matches Ok(body) ==> member(body@, "operation"@) == Some(JsonView::Str("write"@))
            && member(body@, "key"@) == Some(JsonView::Str(key@))
            && member(body@, "value"@) == Some(value@)
            && member(body@, "ttl"@) == Some(JsonView::Str(canonical_ttl(match ttl { Some(t) => Some(t@), None => None }))),
{
    let provenance = match provenance {
        Some(p) => p,
        None => {
            return Err(MemoryError::MissingProvenance);
        },
    };
    if provenance.len() == 0 {
        return Err(MemoryError::MissingProvenance);
    }
    let confidence = match confidence {
        Some(c) => c,
        None => {
            return Err(MemoryError::InsufficientConfidence(0));
        },
    };
    if confidence < MIN_STORAGE_CONFIDENCE {
        return Err(MemoryError::InsufficientConfidence(confidence));
    }
    let ttl_value = validate_ttl(ttl)?;
    let mut fields: Vec<(String, Json)> = Vec::new();
    fields.push((owned("operation"), Json::Str(owned("write"))));
    fields.push((owned("key"), Json::Str(owned(key))));
    fields.push((owned("value"), value.copy()));
    fields.push((owned("provenance"), strings_json(provenance)));
    fields.push((owned("confidence"), Json::Number(scaled_to_text(confidence, 6))));
    fields.push((owned("ttl"), Json::Str(ttl_value)));
    if let Some(summary) = evidence_summary {
        fields.push((owned("evidence_summary"), summary.copy()));
    }
    proof {
        lemma_members_view(fields@);
        let fv = field_views(fields@);
        reveal_strlit("operation");
        reveal_strlit("key");
        reveal_strlit("value");
        reveal_strlit("provenance");
        reveal_strlit("confidence");
        reveal_strlit("ttl");
        assert(fv[0].0 == "operation"@ && fv[1].0 == "key"@ && fv[2].0 == "value"@);
        assert(fv[3].0 == "provenance"@ && fv[4].0 == "confidence"@ && fv[5].0 == "ttl"@);
        assert("operation"@[0] == 'o' && "key"@[0] == 'k' && "value"@[0] == 'v');
        assert("provenance"@[0] == 'p' && "confidence"@[0] == 'c' && "ttl"@[0] == 't');
        crate::json::lemma_lookup_at(fv, "operation"@, 0);
        crate::json::lemma_lookup_at(fv, "key"@, 1);
        crate::json::lemma_lookup_at(fv, "value"@, 2);
        crate::json::lemma_lookup_at(fv, "ttl"@, 5);
        crate::json::lemma_lookup_at(fv, "confidence"@, 4);
        crate::json::lemma_lookup_at(fv, "provenance"@, 3);
        assert(fv[3].1->Array_0 =~= Seq::new(provenance@.len(), |i: int| JsonView::Str(provenance@[i]@)));
    }
    Ok(Json::Object(fields))
}

/// The body of a memory read or forget: `{operation, key}`.
pub fn key_request(operation: &str, key: &str) -> (r: Json)
    ensures
        member(r@, "operation"@) == Some(JsonView::Str(operation@)),
        member(r@, "key"@) == Some(JsonView::Str(key@)),
{
    let mut fields: Vec<(String, Json)> = Vec::new();
    fields.push((owned("operation"), Json::Str(owned(operation))));
    fields.push((owned("key"), Json::Str(owned(key))));
    proof {
        lemma_members_view(fields@);
        let fv = field_views(fields@);
        reveal_strlit("operation");
        reveal_strlit("key");
        assert(fv[0].0 == "operation"@ && fv[1].0 == "key"@);
        assert("operation"@[0] == 'o' && "key"@[0] == 'k');
        crate::json::lemma_lookup_at(fv, "operation"@, 0);
        crate::json::lemma_lookup_at(fv, "key"@, 1);
    }
    Json::Object(fields)
}

/// The payload of a memory response: its `result` member, or the whole body.
pub open spec fn payload_of(body: JsonView) -> JsonView {
    match member(body, "result"@) {
        Some(p) => p,
        None => body,
    }
}

/// The payload reports success.
pub open spec fn succeeded(body: JsonView) -> bool {
    member(payload_of(body), "success"@) == Some(JsonView::Bool(true))
}

fn payload(body: &Json) -> (r: &Json)
    ensures
        r@ == payload_of(body@),
{
    match body.get("result") {
        Some(p) => p,
        None => body,
    }
}

fn success_flag(p: &Json) -> (r: bool)
    ensures
        r == (member(p@, "success"@) == Some(JsonView::Bool(true))),
{
    match p.get("success") {
        Some(Json::Bool(b)) => *b,
        _ => false,
    }
}

/// Interprets the response to a write or forget: `Ok` on success, else the
/// payload's message (or "Unknown error") as a storage error.
pub fn parse_status_response(body: &Json) -> (r: Result<(), MemoryError>)
    ensures
        r is Ok <==> succeeded(body@),
        r is Err ==> r->Err_0 is StorageError,
{
    let p = payload(body);
    if success_flag(p) {
        return Ok(());
    }
    let message = match p.get("message") {
        Some(Json::Str(m)) => m.clone(),
        _ => owned("Unknown error"),
    };
    Err(MemoryError::StorageError(message))
}

impl MemoryError {
    /// The error's message.
    pub fn message(&self) -> String {
        match self {
            MemoryError::Communication(m) => prefixed("Communication error: ", m),
            MemoryError::StorageError(m) => prefixed("Storage error: ", m),
            MemoryError::InsufficientConfidence(c) => {
                let mut m = owned("Insufficient confidence: ");
                m.append(scaled_to_text(*c, 6).as_str());
                m
            },
            MemoryError::EvidenceValidation(m) => prefixed("Evidence validation error: ", m),
            MemoryError::MissingProvenance => owned("Memory writes require provenance"),
            MemoryError::InvalidTtl(t) => prefixed("Invalid TTL: ", t),
        }
    }
}

fn prefixed(head: &str, tail: &String) -> String {
    let mut m = owned(head);
    m.append(tail.as_str());
    m
}

fn string_list(v: &Vec<Json>) -> Vec<String> {
    let mut out: Vec<String> = Vec::new();
    let mut i: usize = 0;
    while i < v.len()
        invariant
            i <= v@.len(),
        decreases v@.len() - i,
    {
        if let Json::Str(s) = &v[i] {
            out.push(s.clone());
        }
        i += 1;
    }
    out
}

/// An entry has a value, a confidence that reads, and a string TTL.
pub open spec fn entry_well_formed(e: JsonView) -> bool {
    &&& member(e, "value"@) is Some
    &&& member(e, "confidence"@) is Some && crate::evidence_json::confidence_readable(member(e, "confidence"@)->0)
    &&& member(e, "ttl"@) is Some && member(e, "ttl"@)->0 is Str
}

/// A read response parses: it reports no success, carries no entry, or
/// carries a well-formed one.
pub open spec fn read_parses(body: JsonView) -> bool {
    !succeeded(body) || member(payload_of(body), "entry"@) is None || entry_well_formed(
        member(payload_of(body), "entry"@)->0,
    )
}

/// Reads an entry of a memory read response for `key`: `value`, a numeric
/// `confidence` and a string `ttl` are required; `provenance`, `timestamp`,
/// `expires_at` and `evidence_summary` are optional (a missing timestamp
/// reads as empty).
pub fn parse_entry(key: &str, entry: &Json) -> (r: Result<MemoryEntry, MemoryError>)
    ensures
        r is Ok <==> entry_well_formed(entry@),
        r matches Ok(e) ==> member(entry@, "value"@) == Some(e.value@) && e.key@ == key@,
        member(entry@, "value"@) is None ==> r is Err,
{
    let value = match entry.get("value") {
        Some(v) => v.copy(),
        None => {
            return Err(MemoryError::StorageError(owned("Missing value in memory entry")));
        },
    };
    let provenance = match entry.get("provenance") {
        Some(Json::Array(items)) => Some(string_list(items)),
        _ => None,
    };
    let confidence = match entry.get("confidence") {
        Some(c) => match crate::evidence_json::confidence_of(c) {
            Some(v) => v,
            None => {
                return Err(MemoryError::StorageError(owned("Missing confidence in memory entry")));
            },
        },
        None => {
            return Err(MemoryError::StorageError(owned("Missing confidence in memory entry")));
        },
    };
    let ttl = match entry.get("ttl") {
        Some(Json::Str(t)) => t.clone(),
        _ => {
            return Err(MemoryError::StorageError(owned("Missing TTL in memory entry")));
        },
    };
    let timestamp = match entry.get("timestamp") {
        Some(Json::Str(t)) => t.clone(),
        _ => String::new(),
    };
    let expires_at = match entry.get("expires_at") {
        Some(Json::Str(t)) => Some(t.clone()),
        _ => None,
    };
    let evidence_summary = match entry.get("evidence_summary") {
        Some(v) => Some(v.copy()),
        None => None,
    };
    Ok(MemoryEntry { key: owned(key), value, provenance, confidence, ttl, timestamp, expires_at, evidence_summary })
}

/// Interprets the response to a read of `key`: the entry when the payload
/// reports success and carries one, else `None`; a key that is not found is
/// not an error.
pub fn parse_read_response(key: &str, body: &Json) -> (r: Result<Option<MemoryEntry>, MemoryError>)
    ensures
        r is Ok <==> read_parses(body@),
        succeeded(body@) && member(payload_of(body@), "entry"@) is Some && r is Ok ==> r->Ok_0 is Some,
        !succeeded(body@) ==> r matches Ok(None),
        succeeded(body@) && member(payload_of(body@), "entry"@) is None ==> r matches Ok(None),
        r matches Ok(Some(e)) ==> succeeded(body@) && member(payload_of(body@), "entry"@) is Some
            && member(member(payload_of(body@), "entry"@)->0, "value"@) == Some(e.value@),
{
    let p = payload(body);
    if !success_flag(p) {
        return Ok(None);
    }
    match p.get("entry") {
        Some(entry) => match parse_entry(key, entry) {
            Ok(e) => Ok(Some(e)),
            Err(e) => Err(e),
        },
        None => Ok(None),
    }
}

} // verus!
