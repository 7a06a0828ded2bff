//! Evidence and verification summaries as JSON values.
use crate::evidence::{ClaimSummary, Contradiction, Evidence, Support, Verdict, VerdictType, VerificationResult};
use crate::json::{field_views, lemma_members_view, member, Json, JsonView};
use crate::number::{decimal_text, parse_scaled, scaled_text, scaled_to_text, u64_text, well_formed_decimal, decimal_units};
use crate::text::{owned, str_eq};
use vstd::prelude::*;

verus! {

/// A confidence read from a JSON number, in millionths.
pub open spec fn confidence_from(v: JsonView, c: u64) -> bool {
    v matches JsonView::Number(t) && well_formed_decimal(t) && decimal_units(t, 6) == c
}

/// A required string member.
pub open spec fn text_member(obj: JsonView, key: Seq<char>, s: Seq<char>) -> bool {
    member(obj, key) == Some(JsonView::Str(s))
}

/// An optional string member: absent, null, or a string.
pub open spec fn optional_text_ok(obj: JsonView, key: Seq<char>) -> bool {
    member(obj, key) is None || member(obj, key) == Some(JsonView::Null) || member(obj, key)->0 is Str
}

/// A string member.
pub open spec fn has_text_member(obj: JsonView, key: Seq<char>) -> bool {
    member(obj, key) is Some && member(obj, key)->0 is Str
}

/// A value that reads as a support or a contradiction.
pub open spec fn support_shape(v: JsonView) -> bool {
    &&& has_text_member(v, "claim_id"@)
    &&& has_text_member(v, "source"@)
    &&& member(v, "confidence"@) is Some && confidence_readable(member(v, "confidence"@)->0)
    &&& optional_text_ok(v, "explanation"@)
}

/// A value that reads as a verdict.
pub open spec fn verdict_shape(v: JsonView) -> bool {
    &&& has_text_member(v, "claim_id"@)
    &&& has_text_member(v, "verdict"@)
    &&& (member(v, "verdict"@)->0->Str_0 == "supported"@ || member(v, "verdict"@)->0->Str_0 == "contradicted"@
        || member(v, "verdict"@)->0->Str_0 == "neutral"@)
    &&& member(v, "confidence"@) is Some && confidence_readable(member(v, "confidence"@)->0)
    &&& member(v, "needs_citation"@) is Some && member(v, "needs_citation"@)->0 is Bool
}

/// Every element is a string.
pub open spec fn all_str(items: Seq<JsonView>) -> bool {
    forall|i: int| 0 <= i < items.len() ==> is_str(#[trigger] items[i])
}

/// Every element reads as a support (or a contradiction).
pub open spec fn all_support(items: Seq<JsonView>) -> bool {
    forall|i: int| 0 <= i < items.len() ==> support_shape(#[trigger] items[i])
}

/// Every element reads as a verdict.
pub open spec fn all_verdict(items: Seq<JsonView>) -> bool {
    forall|i: int| 0 <= i < items.len() ==> verdict_shape(#[trigger] items[i])
}

pub open spec fn is_str(v: JsonView) -> bool {
    v is Str
}

/// An optional list member: absent, or an array.
pub open spec fn list_items(obj: JsonView, key: Seq<char>) -> Seq<JsonView> {
    if absent(obj, key) {
        Seq::empty()
    } else {
        member(obj, key)->0->Array_0
    }
}

pub open spec fn list_present_ok(obj: JsonView, key: Seq<char>) -> bool {
    absent(obj, key) || member(obj, key)->0 is Array
}

/// A value that reads as evidence: an object whose `claims` are strings and
/// whose `supports`, `contradicts` and `verdicts` read as such.
pub open spec fn evidence_shape(v: JsonView) -> bool {
    &&& v is Object
    &&& list_present_ok(v, "claims"@) && all_str(list_items(v, "claims"@))
    &&& list_present_ok(v, "supports"@) && all_support(list_items(v, "supports"@))
    &&& list_present_ok(v, "contradicts"@) && all_support(list_items(v, "contradicts"@))
    &&& list_present_ok(v, "verdicts"@) && all_verdict(list_items(v, "verdicts"@))
}

pub open spec fn support_from(v: JsonView, s: Support) -> bool {
    &&& support_shape(v)
    &&& text_member(v, "claim_id"@, s.claim_id@)
    &&& text_member(v, "source"@, s.source@)
    &&& member(v, "confidence"@) matches Some(c) && confidence_from(c, s.confidence)
}

pub open spec fn contradiction_from(v: JsonView, s: Contradiction) -> bool {
    &&& support_shape(v)
    &&& text_member(v, "claim_id"@, s.claim_id@)
    &&& text_member(v, "source"@, s.source@)
    &&& member(v, "confidence"@) matches Some(c) && confidence_from(c, s.confidence)
}

pub open spec fn verdict_kind_text(k: VerdictType) -> Seq<char> {
    match k {
        VerdictType::Supported => "supported"@,
        VerdictType::Contradicted => "contradicted"@,
        VerdictType::Neutral => "neutral"@,
    }
}

pub open spec fn verdict_from(v: JsonView, s: Verdict) -> bool {
    &&& text_member(v, "claim_id"@, s.claim_id@)
    &&& text_member(v, "verdict"@, verdict_kind_text(s.verdict))
    &&& member(v, "confidence"@) matches Some(c) && confidence_from(c, s.confidence)
    &&& member(v, "needs_citation"@) == Some(JsonView::Bool(s.needs_citation))
}

/// A list member is absent or null exactly when the list is `None`.
pub open spec fn absent(obj: JsonView, key: Seq<char>) -> bool {
    member(obj, key) is None || member(obj, key) == Some(JsonView::Null)
}

/// `ev` is what the JSON object `v` holds.
pub open spec fn evidence_from(v: JsonView, ev: Evidence) -> bool {
    &&& evidence_shape(v)
    &&& (ev.claims is None <==> absent(v, "claims"@))
    &&& (ev.claims matches Some(c) ==> member(v, "claims"@) matches Some(JsonView::Array(a)) && a.len()
        == c@.len() && forall|i: int| 0 <= i < a.len() ==> a[i] == JsonView::Str(#[trigger] c@[i]@))
    &&& (ev.supports is None <==> absent(v, "supports"@))
    &&& (ev.supports matches Some(c) ==> member(v, "supports"@) matches Some(JsonView::Array(a)) && a.len()
        == c@.len() && forall|i: int| 0 <= i < a.len() ==> support_from(a[i], #[trigger] c@[i]))
    &&& (ev.contradicts is None <==> absent(v, "contradicts"@))
    &&& (ev.contradicts matches Some(c) ==> member(v, "contradicts"@) matches Some(JsonView::Array(a))
        && a.len() == c@.len() && forall|i: int| 0 <= i < a.len() ==> contradiction_from(a[i], #[trigger] c@[i]))
    &&& (ev.verdicts is None <==> absent(v, "verdicts"@))
    &&& (ev.verdicts matches Some(c) ==> member(v, "verdicts"@) matches Some(JsonView::Array(a)) && a.len()
        == c@.len() && forall|i: int| 0 <= i < a.len() ==> verdict_from(a[i], #[trigger] c@[i]))
}

fn text_of_member(obj: &Json, key: &str) -> (r: Option<String>)
    ensures
        r is Some <==> has_text_member(obj@, key@),
        r matches Some(s) ==> member(obj@, key@) == Some(JsonView::Str(s@)),
{
    match obj.get(key) {
        Some(Json::Str(s)) => Some(s.clone()),
        _ => None,
    }
}

fn optional_text(obj: &Json, key: &str) -> (r: Result<Option<String>, ()>)
    ensures
        r is Ok <==> optional_text_ok(obj@, key@),
{
    match obj.get(key) {
        None | Some(Json::Null) => Ok(None),
        Some(Json::Str(s)) => Ok(Some(s.clone())),
        _ => Err(()),
    }
}

/// A JSON number that reads as a confidence.
pub open spec fn confidence_readable(v: JsonView) -> bool {
    v is Number && well_formed_decimal(v->Number_0) && decimal_units(v->Number_0, 6) <= u64::MAX
}

/// Reads a confidence from a JSON number, in millionths.
pub fn confidence_of(v: &Json) -> (r: Option<u64>)
    ensures
        r matches Some(c) ==> confidence_from(v@, c),
        r is Some <==> confidence_readable(v@),
{
    match v {
        Json::Number(t) => match parse_scaled(t.as_str(), 6) {
            Some(u) => if u <= u64::MAX as u128 {
                Some(u as u64)
            } else {
                None
            },
            None => None,
        },
        _ => None,
    }
}

fn confidence_member(obj: &Json, key: &str) -> (r: Option<u64>)
    ensures
        r is Some <==> (member(obj@, key@) is Some && confidence_readable(member(obj@, key@)->0)),
        r matches Some(c) ==> member(obj@, key@) matches Some(v) && confidence_from(v, c),
{
    match obj.get(key) {
        Some(v) => confidence_of(v),
        None => None,
    }
}

fn support_of(v: &Json) -> (r: Option<Support>)
    ensures
        r is Some <==> support_shape(v@),
        r matches Some(s) ==> support_from(v@, s),
{
    let claim_id = text_of_member(v, "claim_id")?;
    let source = text_of_member(v, "source")?;
    let confidence = confidence_member(v, "confidence")?;
    let explanation = match optional_text(v, "explanation") {
        Ok(e) => e,
        Err(()) => {
            return None;
        },
    };
    Some(Support { claim_id, source, confidence, explanation })
}

fn contradiction_of(v: &Json) -> (r: Option<Contradiction>)
    ensures
        r is Some <==> support_shape(v@),
        r matches Some(s) ==> contradiction_from(v@, s),
{
    let claim_id = text_of_member(v, "claim_id")?;
    let source = text_of_member(v, "source")?;
    let confidence = confidence_member(v, "confidence")?;
    let explanation = match optional_text(v, "explanation") {
        Ok(e) => e,
        Err(()) => {
            return None;
        },
    };
    Some(Contradiction { claim_id, source, confidence, explanation })
}

fn verdict_of(v: &Json) -> (r: Option<Verdict>)
    ensures
        r is Some <==> verdict_shape(v@),
        r matches Some(s) ==> verdict_from(v@, s),
{
    let claim_id = text_of_member(v, "claim_id")?;
    let kind_text = text_of_member(v, "verdict")?;
    let verdict = if str_eq(kind_text.as_str(), "supported") {
        proof { reveal_strlit("supported"); }
        VerdictType::Supported
    } else if str_eq(kind_text.as_str(), "contradicted") {
        VerdictType::Contradicted
    } else if str_eq(kind_text.as_str(), "neutral") {
        VerdictType::Neutral
    } else {
        return None;
    };
    let confidence = confidence_member(v, "confidence")?;
    let needs_citation = match v.get("needs_citation") {
        Some(Json::Bool(b)) => *b,
        _ => {
            return None;
        },
    };
    Some(Verdict { claim_id, verdict, confidence, needs_citation })
}

fn claims_of(v: &Vec<Json>) -> (r: Option<Vec<String>>)
    ensures
        r is Some <==> forall|i: int| 0 <= i < v@.len() ==> is_str(#[trigger] v@[i]@),
        r matches Some(c) ==> c@.len() == v@.len() && forall|i: int| 0 <= i < v@.len() ==> v@[i]@ == JsonView::Str(#[trigger] c@[i]@),
{
    let mut out: Vec<String> = Vec::new();
    let mut i: usize = 0;
    while i < v.len()
        invariant
            forall|j: int| 0 <= j < i ==> is_str(#[trigger] v@[j]@),
            i <= v@.len(),
            out@.len() == i,
            forall|j: int| 0 <= j < i ==> v@[j]@ == JsonView::Str(#[trigger] out@[j]@),
        decreases v@.len() - i,
    {
        match &v[i] {
            Json::Str(s) => out.push(s.clone()),
            _ => {
                assert(!is_str(v@[i as int]@));
                return None;
            },
        }
        i += 1;
    }
    Some(out)
}

fn supports_of(v: &Vec<Json>) -> (r: Option<Vec<Support>>)
    ensures
        r is Some <==> forall|i: int| 0 <= i < v@.len() ==> support_shape(#[trigger] v@[i]@),
        r matches Some(c) ==> c@.len() == v@.len() && forall|i: int| 0 <= i < v@.len() ==> support_from(v@[i]@, #[trigger] c@[i]),
{
    let mut out: Vec<Support> = Vec::new();
    let mut i: usize = 0;
    while i < v.len()
        invariant
            forall|j: int| 0 <= j < i ==> support_shape(#[trigger] v@[j]@),
            i <= v@.len(),
            out@.len() == i,
            forall|j: int| 0 <= j < i ==> support_from(v@[j]@, #[trigger] out@[j]),
        decreases v@.len() - i,
    {
        let s = support_of(&v[i])?;
        out.push(s);
        i += 1;
    }
    Some(out)
}

fn contradictions_of(v: &Vec<Json>) -> (r: Option<Vec<Contradiction>>)
    ensures
        r is Some <==> forall|i: int| 0 <= i < v@.len() ==> support_shape(#[trigger] v@[i]@),
        r matches Some(c) ==> c@.len() == v@.len() && forall|i: int| 0 <= i < v@.len() ==> contradiction_from(v@[i]@, #[trigger] c@[i]),
{
    let mut out: Vec<Contradiction> = Vec::new();
    let mut i: usize = 0;
    while i < v.len()
        invariant
            forall|j: int| 0 <= j < i ==> support_shape(#[trigger] v@[j]@),
            i <= v@.len(),
            out@.len() == i,
            forall|j: int| 0 <= j < i ==> contradiction_from(v@[j]@, #[trigger] out@[j]),
        decreases v@.len() - i,
    {
        let s = contradiction_of(&v[i])?;
        out.push(s);
        i += 1;
    }
    Some(out)
}

fn verdicts_of_json(v: &Vec<Json>) -> (r: Option<Vec<Verdict>>)
    ensures
        r is Some <==> forall|i: int| 0 <= i < v@.len() ==> verdict_shape(#[trigger] v@[i]@),
        r matches Some(c) ==> c@.len() == v@.len() && forall|i: int| 0 <= i < v@.len() ==> verdict_from(v@[i]@, #[trigger] c@[i]),
{
    let mut out: Vec<Verdict> = Vec::new();
    let mut i: usize = 0;
    while i < v.len()
        invariant
            forall|j: int| 0 <= j < i ==> verdict_shape(#[trigger] v@[j]@),
            i <= v@.len(),
            out@.len() == i,
            forall|j: int| 0 <= j < i ==> verdict_from(v@[j]@, #[trigger] out@[j]),
        decreases v@.len() - i,
    {
        let s = verdict_of(&v[i])?;
        out.push(s);
        i += 1;
    }
    Some(out)
}

/// The items of an optional array member: `Ok(None)` when absent or null,
/// `Err` when it is something else.
fn list_member<'a>(obj: &'a Json, key: &str) -> (r: Result<Option<&'a Vec<Json>>, ()>)
    ensures
        r matches Ok(None) ==> absent(obj@, key@),
        r is Err <==> !list_present_ok(obj@, key@),
        r matches Ok(Some(a)) ==> member(obj@, key@) == Some(JsonView::Array(crate::json::views(a@))),
{
    match obj.get(key) {
        None | Some(Json::Null) => Ok(None),
        Some(Json::Array(items)) => {
            proof {
                assert(crate::json::views(items@) =~= member(obj@, key@)->0->Array_0);
            }
            Ok(Some(items))
        },
        _ => Err(()),
    }
}

impl Evidence {
    /// Reads evidence from a JSON object with optional `claims`, `supports`,
    /// `contradicts` and `verdicts` arrays; `None` for anything else.
    /// Confidences must be plain decimals (no sign or exponent).
    pub fn from_json(v: &Json) -> (r: Option<Evidence>)
        ensures
            r is Some <==> evidence_shape(v@),
            r matches Some(ev) ==> evidence_from(v@, ev),
    {
        if !matches!(v, Json::Object(_)) {
            return None;
        }
        let claims = match list_member(v, "claims") {
            Ok(Some(a)) => {
                proof {
                    assert forall|i: int| 0 <= i < a@.len() implies #[trigger] crate::json::views(a@)[i] == a@[i]@ by {}
                }
                match claims_of(a) {
                    Some(c) => Some(c),
                    None => {
                        proof {
                            let i = choose|i: int| 0 <= i < a@.len() && !is_str(#[trigger] a@[i]@);
                            assert(crate::json::views(a@)[i] == a@[i]@);
                            assert(list_items(v@, "claims"@) == crate::json::views(a@));
                        }
                        return None;
                    },
                }
            },
            Ok(None) => None,
            Err(()) => {
                return None;
            },
        };
        let supports = match list_member(v, "supports") {
            Ok(Some(a)) => {
                proof {
                    assert forall|i: int| 0 <= i < a@.len() implies #[trigger] crate::json::views(a@)[i] == a@[i]@ by {}
                }
                match supports_of(a) {
                    Some(c) => Some(c),
                    None => {
                        proof {
                            let i = choose|i: int| 0 <= i < a@.len() && !support_shape(#[trigger] a@[i]@);
                            assert(crate::json::views(a@)[i] == a@[i]@);
                            assert(list_items(v@, "supports"@) == crate::json::views(a@));
                        }
                        return None;
                    },
                }
            },
            Ok(None) => None,
            Err(()) => {
                return None;
            },
        };
        let contradicts = match list_member(v, "contradicts") {
            Ok(Some(a)) => {
                proof {
                    assert forall|i: int| 0 <= i < a@.len() implies #[trigger] crate::json::views(a@)[i] == a@[i]@ by {}
                }
                match contradictions_of(a) {
                    Some(c) => Some(c),
                    None => {
                        proof {
                            let i = choose|i: int| 0 <= i < a@.len() && !support_shape(#[trigger] a@[i]@);
                            assert(crate::json::views(a@)[i] == a@[i]@);
                            assert(list_items(v@, "contradicts"@) == crate::json::views(a@));
                        }
                        return None;
                    },
                }
            },
            Ok(None) => None,
            Err(()) => {
                return None;
            },
        };
        let verdicts = match list_member(v, "verdicts") {
            Ok(Some(a)) => {
                proof {
                    assert forall|i: int| 0 <= i < a@.len() implies #[trigger] crate::json::views(a@)[i] == a@[i]@ by {}
                }
                match verdicts_of_json(a) {
                    Some(c) => Some(c),
                    None => {
                        proof {
                            let i = choose|i: int| 0 <= i < a@.len() && !verdict_shape(#[trigger] a@[i]@);
                            assert(crate::json::views(a@)[i] == a@[i]@);
                            assert(list_items(v@, "verdicts"@) == crate::json::views(a@));
                        }
                        return None;
                    },
                }
            },
            Ok(None) => None,
            Err(()) => {
                return None;
            },
        };
        Some(Evidence { claims, supports, contradicts, verdicts })
    }
}

fn usize_text(n: usize) -> (r: Json)
    ensures
        r@ == JsonView::Number(decimal_text(n as nat)),
{
    Json::Number(u64_text(n as u64))
}

fn confidence_json(c: u64) -> (r: Json)
    ensures
        r@ == JsonView::Number(scaled_text(c as nat, 6)),
{
    Json::Number(scaled_to_text(c, 6))
}

/// A confidence in decimal, or null.
pub open spec fn opt_confidence_view(c: Option<u64>) -> JsonView {
    match c {
        Some(v) => JsonView::Number(scaled_text(v as nat, 6)),
        None => JsonView::Null,
    }
}

fn opt_confidence_json(c: Option<u64>) -> (r: Json)
    ensures
        r@ == opt_confidence_view(c),
{
    match c {
        Some(v) => confidence_json(v),
        None => Json::Null,
    }
}

impl ClaimSummary {
    /// This summary as a JSON object; confidences in decimal, absent ones null.
    pub fn to_json(&self) -> (r: Json)
        ensures
            r@ == JsonView::Object(seq![
                ("supports"@, JsonView::Number(decimal_text(self.supports as nat))),
                ("contradictions"@, JsonView::Number(decimal_text(self.contradictions as nat))),
                ("average_confidence"@, opt_confidence_view(self.average_confidence)),
                ("max_confidence"@, opt_confidence_view(self.max_confidence)),
                ("min_confidence"@, opt_confidence_view(self.min_confidence)),
            ]),
    {
        let mut fields: Vec<(String, Json)> = Vec::new();
        fields.push((owned("supports"), usize_text(self.supports)));
        fields.push((owned("contradictions"), usize_text(self.contradictions)));
        fields.push((owned("average_confidence"), opt_confidence_json(self.average_confidence)));
        fields.push((owned("max_confidence"), opt_confidence_json(self.max_confidence)));
        fields.push((owned("min_confidence"), opt_confidence_json(self.min_confidence)));
        proof {
            lemma_members_view(fields@);
            assert(field_views(fields@) =~= seq![
                ("supports"@, JsonView::Number(decimal_text(self.supports as nat))),
                ("contradictions"@, JsonView::Number(decimal_text(self.contradictions as nat))),
                ("average_confidence"@, opt_confidence_view(self.average_confidence)),
                ("max_confidence"@, opt_confidence_view(self.max_confidence)),
                ("min_confidence"@, opt_confidence_view(self.min_confidence)),
            ]);
        }
        Json::Object(fields)
    }
}

/// The members of a verification summary that the policy engine reads.
pub open spec fn summary_json_facts(v: JsonView, r: VerificationResult) -> bool {
    &&& member(v, "total_claims"@) == Some(JsonView::Number(decimal_text(r.total_claims as nat)))
    &&& member(v, "supported_claims"@) == Some(JsonView::Number(decimal_text(r.supported_claims as nat)))
    &&& member(v, "mean_confidence"@) == Some(JsonView::Number(scaled_text(r.mean_confidence as nat, 6)))
}

impl VerificationResult {
    /// This result as a JSON object: counts as integers, confidences in
    /// decimal, and `per_claim` as an object keyed by claim id.
    pub fn to_json(&self) -> (r: Json)
        ensures
            r@ is Object,
            summary_json_facts(r@, *self),
    {
        let mut claims: Vec<(String, Json)> = Vec::new();
        let mut i: usize = 0;
        while i < self.per_claim.len()
            invariant
                i <= self.per_claim@.len(),
            decreases self.per_claim@.len() - i,
        {
            claims.push((self.per_claim[i].0.clone(), self.per_claim[i].1.to_json()));
            i += 1;
        }
        let mut fields: Vec<(String, Json)> = Vec::new();
        fields.push((owned("total_claims"), usize_text(self.total_claims)));
        fields.push((owned("supported_claims"), usize_text(self.supported_claims)));
        fields.push((owned("contradicted_claims"), usize_text(self.contradicted_claims)));
        fields.push((owned("mean_confidence"), confidence_json(self.mean_confidence)));
        fields.push((owned("needs_citation_count"), usize_text(self.needs_citation_count)));
        fields.push((owned("max_confidence"), confidence_json(self.max_confidence)));
        fields.push((owned("min_confidence"), confidence_json(self.min_confidence)));
        fields.push((owned("per_claim"), Json::Object(claims)));
        proof {
            lemma_members_view(fields@);
            let fv = field_views(fields@);
            reveal_strlit("total_claims");
            reveal_strlit("supported_claims");
            reveal_strlit("contradicted_claims");
            reveal_strlit("mean_confidence");
            assert(fv[0].0 == "total_claims"@ && fv[1].0 == "supported_claims"@);
            assert(fv[2].0 == "contradicted_claims"@ && fv[3].0 == "mean_confidence"@);
            assert("total_claims"@[0] == 't' && "supported_claims"@[0] == 's');
            assert("contradicted_claims"@[0] == 'c' && "mean_confidence"@[0] == 'm');
            crate::json::lemma_lookup_at(fv, "total_claims"@, 0);
            crate::json::lemma_lookup_at(fv, "supported_claims"@, 1);
            crate::json::lemma_lookup_at(fv, "mean_confidence"@, 3);
        }
        Json::Object(fields)
    }
}

/// What the policy engine reads from a verification summary.
pub struct SummaryFacts {
    pub total_claims: u128,
    pub supported_claims: u128,
    /// In millionths.
    pub mean_confidence: u128,
}

/// A non-negative integer member.
pub open spec fn count_member(v: JsonView, key: Seq<char>, n: u128) -> bool {
    member(v, key) matches Some(JsonView::Number(t)) && well_formed_decimal(t) && decimal_units(t, 0) == n
}

/// A decimal member in millionths.
pub open spec fn decimal_member(v: JsonView, key: Seq<char>, n: u128) -> bool {
    member(v, key) matches Some(JsonView::Number(t)) && well_formed_decimal(t) && decimal_units(t, 6) == n
}

/// A numeric member read in units of `10^-scale`, when it is a plain decimal.
pub open spec fn numeric(v: JsonView, key: Seq<char>, scale: nat) -> Option<u128> {
    match member(v, key) {
        Some(JsonView::Number(t)) => if well_formed_decimal(t) {
            Some(decimal_units(t, scale) as u128)
        } else {
            None
        },
        _ => None,
    }
}

/// The facts of a verification summary: `None` unless every field is there
/// with its type.
pub open spec fn summary_facts(v: JsonView) -> Option<(u128, u128, u128)> {
    if numeric(v, "total_claims"@, 0) is Some && numeric(v, "supported_claims"@, 0) is Some && numeric(
        v,
        "contradicted_claims"@,
        0,
    ) is Some && numeric(v, "needs_citation_count"@, 0) is Some && numeric(v, "mean_confidence"@, 6) is Some
        && numeric(v, "max_confidence"@, 6) is Some && numeric(v, "min_confidence"@, 6) is Some && member(
        v,
        "per_claim"@,
    ) matches Some(JsonView::Object(_)) {
        Some(
            (
                numeric(v, "total_claims"@, 0)->0,
                numeric(v, "supported_claims"@, 0)->0,
                numeric(v, "mean_confidence"@, 6)->0,
            ),
        )
    } else {
        None
    }
}

pub fn number_member(obj: &Json, key: &str, scale: u32) -> (r: Option<u128>)
    requires
        scale <= 9,
    ensures
        r == numeric(obj@, key@, scale as nat),
        r matches Some(n) ==> member(obj@, key@) matches Some(JsonView::Number(t)) && well_formed_decimal(t)
            && decimal_units(t, scale as nat) == n,
{
    match obj.get(key) {
        Some(Json::Number(t)) => parse_scaled(t.as_str(), scale),
        _ => None,
    }
}

impl SummaryFacts {
    /// Reads a verification summary: an object with numeric `total_claims`,
    /// `supported_claims`, `contradicted_claims`, `needs_citation_count`,
    /// `mean_confidence`, `max_confidence` and `min_confidence`, and an object
    /// `per_claim`; `None` for anything else.
    pub fn from_json(v: &Json) -> (r: Option<SummaryFacts>)
        ensures
            r is Some <==> summary_facts(v@) is Some,
            r matches Some(f) ==> summary_facts(v@) == Some((f.total_claims, f.supported_claims, f.mean_confidence)),
            r matches Some(f) ==> count_member(v@, "total_claims"@, f.total_claims) && count_member(
                v@,
                "supported_claims"@,
                f.supported_claims,
            ) && decimal_member(v@, "mean_confidence"@, f.mean_confidence),
    {
        let total_claims = number_member(v, "total_claims", 0)?;
        let supported_claims = number_member(v, "supported_claims", 0)?;
        let _contradicted = number_member(v, "contradicted_claims", 0)?;
        let _citations = number_member(v, "needs_citation_count", 0)?;
        let mean_confidence = number_member(v, "mean_confidence", 6)?;
        let _max = number_member(v, "max_confidence", 6)?;
        let _min = number_member(v, "min_confidence", 6)?;
        match v.get("per_claim") {
            Some(Json::Object(_)) => {},
            _ => {
                return None;
            },
        }
        Some(SummaryFacts { total_claims, supported_claims, mean_confidence })
    }
}

} // verus!
