//! Tool self-descriptions (ToolSpecs) and the interpretation of a tool's
//! invoke response.
use crate::json::{member, Json, JsonView};
use crate::text::str_eq;
use vstd::prelude::*;

verus! {

pub struct ToolSpec {
    pub name: String,
    pub description: Option<String>,
    pub io: IoSpec,
    pub capabilities: Option<Vec<String>>,
    pub constraints: Option<Constraints>,
    pub provenance: Option<Provenance>,
    pub quality: Option<Quality>,
    pub policy: Option<Policy>,
}

pub struct IoSpec {
    pub input: Schema,
    pub output: Schema,
}

pub struct Schema {
    pub schema_type: String,
    pub properties: Option<Vec<(String, Schema)>>,
    pub required: Option<Vec<String>>,
    pub items: Option<Box<Schema>>,
}

/// Declared limits of a tool; the cost is in nano-dollars.
#[derive(Clone, Copy, Debug, PartialEq, Eq, Structural)]
pub struct Constraints {
    pub input_tokens_max: Option<u32>,
    pub latency_p50_ms: Option<u32>,
    pub cost_per_call_usd: Option<u64>,
    pub rate_limit_qps: Option<u32>,
    pub side_effects: Option<bool>,
}

pub struct Provenance {
    pub attribution_required: Option<bool>,
}

pub struct Quality {
    /// An ISO 8601 duration.
    pub freshness_window: Option<String>,
    pub coverage_tags: Option<Vec<String>>,
}

pub struct Policy {
    pub deny_if: Option<Vec<String>>,
}

pub enum ToolError {
    Communication(String),
    Invocation(String),
    Validation(String),
}

/// The declared cost per call, 0 when not declared.
pub open spec fn cost_of(s: ToolSpec) -> u64 {
    match s.constraints {
        Some(c) => match c.cost_per_call_usd {
            Some(v) => v,
            None => 0,
        },
        None => 0,
    }
}

/// The declared median latency, 0 when not declared.
pub open spec fn latency_of(s: ToolSpec) -> u64 {
    match s.constraints {
        Some(c) => match c.latency_p50_ms {
            Some(v) => v as u64,
            None => 0,
        },
        None => 0,
    }
}

/// The declared input token bound, 0 when not declared.
pub open spec fn tokens_of(s: ToolSpec) -> u64 {
    match s.constraints {
        Some(c) => match c.input_tokens_max {
            Some(v) => v as u64,
            None => 0,
        },
        None => 0,
    }
}

/// The capabilities a spec declares.
pub open spec fn capabilities_of(s: ToolSpec) -> Seq<String> {
    match s.capabilities {
        Some(c) => c@,
        None => Seq::empty(),
    }
}

/// The deny patterns a spec declares.
pub open spec fn deny_patterns_of(s: ToolSpec) -> Seq<String> {
    match s.policy {
        Some(p) => match p.deny_if {
            Some(d) => d@,
            None => Seq::empty(),
        },
        None => Seq::empty(),
    }
}

/// The spec declares that responses need attribution.
pub open spec fn attribution_required(s: ToolSpec) -> bool {
    match s.provenance {
        Some(p) => p.attribution_required == Some(true),
        None => false,
    }
}

/// The first spec in `specs` named `name`.
pub open spec fn spec_named(specs: Seq<ToolSpec>, name: Seq<char>) -> Option<ToolSpec>
    decreases specs.len(),
{
    if specs.len() == 0 {
        None
    } else if specs[0].name@ == name {
        Some(specs[0])
    } else {
        spec_named(specs.drop_first(), name)
    }
}

impl ToolSpec {
    /// The declared cost per call in nano-dollars, 0 when not declared.
    pub fn cost(&self) -> (r: u64)
        ensures
            r == cost_of(*self),
    {
        match &self.constraints {
            Some(c) => match c.cost_per_call_usd {
                Some(v) => v,
                None => 0,
            },
            None => 0,
        }
    }

    /// The declared median latency in milliseconds, 0 when not declared.
    pub fn latency(&self) -> (r: u64)
        ensures
            r == latency_of(*self),
    {
        match &self.constraints {
            Some(c) => match c.latency_p50_ms {
                Some(v) => v as u64,
                None => 0,
            },
            None => 0,
        }
    }

    /// The declared input token bound, 0 when not declared.
    pub fn tokens(&self) -> (r: u64)
        ensures
            r == tokens_of(*self),
    {
        match &self.constraints {
            Some(c) => match c.input_tokens_max {
                Some(v) => v as u64,
                None => 0,
            },
            None => 0,
        }
    }

    /// Whether the spec declares that responses need attribution.
    pub fn requires_attribution(&self) -> (r: bool)
        ensures
            r == attribution_required(*self),
    {
        match &self.provenance {
            Some(p) => match p.attribution_required {
                Some(b) => b,
                None => false,
            },
            None => false,
        }
    }
}

proof fn lemma_spec_named_at(specs: Seq<ToolSpec>, name: Seq<char>, i: int)
    requires
        0 <= i < specs.len(),
        specs[i].name@ == name,
        forall|j: int| 0 <= j < i ==> specs[j].name@ != name,
    ensures
        spec_named(specs, name) == Some(specs[i]),
    decreases i,
{
    if i > 0 {
        lemma_spec_named_at(specs.drop_first(), name, i - 1);
    }
}

proof fn lemma_spec_named_none(specs: Seq<ToolSpec>, name: Seq<char>)
    requires
        forall|j: int| 0 <= j < specs.len() ==> specs[j].name@ != name,
    ensures
        spec_named(specs, name) is None,
    decreases specs.len(),
{
    if specs.len() > 0 {
        lemma_spec_named_none(specs.drop_first(), name);
    }
}

/// The first spec in `specs` named `name`.
pub fn find_spec<'a>(specs: &'a [ToolSpec], name: &str) -> (r: Option<&'a ToolSpec>)
    ensures
        r matches Some(s) ==> spec_named(specs@, name@) == Some(*s),
        r is None ==> spec_named(specs@, name@) is None,
{
    let mut i: usize = 0;
    while i < specs.len()
        invariant
            i <= specs@.len(),
            forall|j: int| 0 <= j < i ==> specs@[j].name@ != name@,
        decreases specs@.len() - i,
    {
        if str_eq(specs[i].name.as_str(), name) {
            proof {
                lemma_spec_named_at(specs@, name@, i as int);
            }
            return Some(&specs[i]);
        }
        i += 1;
    }
    proof {
        lemma_spec_named_none(specs@, name@);
    }
    None
}

/// What a tool's invoke response `{"result": ..., "error"?: ...}` means: an
/// error string is an invocation failure; a missing result, or an error that
/// is neither a string nor null, is a malformed response; else the result.
pub open spec fn invoke_outcome_ok(body: JsonView) -> bool {
    &&& member(body, "result"@) is Some
    &&& match member(body, "error"@) {
        None => true,
        Some(JsonView::Null) => true,
        _ => false,
    }
}

/// Interprets the body of a tool's invoke response.
pub fn parse_invoke_response(body: &Json) -> (r: Result<Json, ToolError>)
    ensures
        r is Ok <==> invoke_outcome_ok(body@),
        r matches Ok(v) ==> member(body@, "result"@) == Some(v@),
        r matches Err(ToolError::Invocation(e)) ==> member(body@, "error"@) == Some(
            JsonView::Str(e@),
        ),
{
    match body.get("error") {
        Some(Json::Str(e)) => {
            return Err(ToolError::Invocation(e.clone()));
        },
        Some(Json::Null) | None => {},
        Some(_) => {
            return Err(ToolError::Communication(String::from_str("invalid type for field `error`")));
        },
    }
    match body.get("result") {
        Some(v) => Ok(v.copy()),
        None => Err(ToolError::Communication(String::from_str("missing field `result`"))),
    }
}

} // verus!
