//! The plan IR: nodes, edges, signals and stop conditions, with structural
//! validation and validation against the available tools.
use crate::json::Json;
use crate::text::{find_text, has_text, str_eq, trim_of, trimmed};
use vstd::prelude::*;

verus! {

/// One US dollar in the kernel's cost unit, the nano-dollar.
pub const USD: u64 = 1_000_000_000;

/// The kind of work a node does.
#[derive(PartialEq, Eq, Structural, Clone, Copy, Debug)]
pub enum Operation {
    Call,
    /// Invokes a tool once per element of a collection.
    MapItems,
    Reduce,
    Branch,
    Assert,
    Spawn,
    MemRead,
    MemWrite,
    Verify,
    Retry,
}

pub struct Edge {
    pub from: String,
    pub to: String,
}

/// Soft budgets of a plan. Costs are in nano-dollars (see `USD`); `risk` is
/// in millionths and is valid from 0 to 1_000_000.
#[derive(Clone, Copy, Debug, PartialEq, Eq, Structural)]
pub struct Signals {
    pub latency_budget_ms: Option<u64>,
    pub cost_cap_usd: Option<u64>,
    pub risk: Option<i64>,
}

/// Stop conditions; `min_confidence` is in millionths.
pub struct StopConditions {
    pub max_nodes: Option<u32>,
    pub min_confidence: Option<u64>,
}

pub struct Node {
    pub id: String,
    pub op: Operation,
    pub tool: Option<String>,
    pub capability: Option<String>,
    pub args: Option<Vec<(String, Json)>>,
    pub bind: Option<Vec<(String, String)>>,
    /// Output bindings: variable name, then selector.
    pub out: Option<Vec<(String, String)>>,
}

pub struct Plan {
    pub signals: Option<Signals>,
    pub nodes: Vec<Node>,
    pub edges: Option<Vec<Edge>>,
    pub stop_conditions: Option<StopConditions>,
}

pub enum PlanValidationError {
    EmptyPlan,
    DuplicateNodeId(String),
    InvalidEdge(String),
    UnknownTool(String),
    MissingOutputBinding(String),
    MissingToolOrCapability(String),
}

/// Operations that invoke a tool.
pub open spec fn requires_tool(op: Operation) -> bool {
    match op {
        Operation::Call | Operation::MapItems | Operation::Reduce | Operation::Verify
        | Operation::MemRead | Operation::MemWrite | Operation::Retry => true,
        _ => false,
    }
}

/// Operations that produce a value.
pub open spec fn requires_output(op: Operation) -> bool {
    match op {
        Operation::Call | Operation::MapItems | Operation::Reduce | Operation::Verify
        | Operation::MemRead | Operation::Retry => true,
        _ => false,
    }
}

pub open spec fn edges_of(p: Plan) -> Seq<Edge> {
    match p.edges {
        Some(e) => e@,
        None => Seq::empty(),
    }
}

/// The node ids are pairwise distinct.
pub open spec fn ids_unique(nodes: Seq<Node>) -> bool {
    forall|i: int, j: int| 0 <= i < j < nodes.len() ==> nodes[i].id@ != nodes[j].id@
}

/// Some node has id `k`.
pub open spec fn has_node(nodes: Seq<Node>, k: Seq<char>) -> bool {
    exists|i: int| 0 <= i < nodes.len() && #[trigger] nodes[i].id@ == k
}

/// Every edge endpoint names a node.
pub open spec fn edges_resolve(p: Plan) -> bool {
    forall|i: int|
        0 <= i < edges_of(p).len() ==> has_node(p.nodes@, (#[trigger] edges_of(p)[i]).from@)
            && has_node(p.nodes@, edges_of(p)[i].to@)
}

/// A structurally valid plan: non-empty, unique ids, resolvable edges.
pub open spec fn structurally_valid(p: Plan) -> bool {
    p.nodes@.len() > 0 && ids_unique(p.nodes@) && edges_resolve(p)
}

/// The output bindings are present, non-empty, and no name is blank.
pub open spec fn outputs_bound(out: Option<Vec<(String, String)>>) -> bool {
    match out {
        Some(o) => o@.len() > 0 && forall|i: int|
            0 <= i < o@.len() ==> trim_of((#[trigger] o@[i]).0@).len() > 0,
        None => false,
    }
}

/// The error node `n` raises against the available tools, if any.
pub open spec fn node_fault(n: Node, tools: Seq<String>) -> Option<PlanValidationError> {
    if requires_tool(n.op) && n.tool is None && n.capability is None {
        Some(PlanValidationError::MissingToolOrCapability(n.id))
    } else if n.tool is Some && !has_text(tools, n.tool->0@) {
        Some(PlanValidationError::UnknownTool(n.tool->0))
    } else if requires_output(n.op) && !outputs_bound(n.out) {
        Some(PlanValidationError::MissingOutputBinding(n.id))
    } else {
        None
    }
}

/// Whether `op` invokes a tool.
pub fn operation_requires_tool(op: Operation) -> (r: bool)
    ensures
        r == requires_tool(op),
{
    match op {
        Operation::Call | Operation::MapItems | Operation::Reduce | Operation::Verify
        | Operation::MemRead | Operation::MemWrite | Operation::Retry => true,
        _ => false,
    }
}

/// Whether `op` produces a value.
pub fn operation_requires_output(op: Operation) -> (r: bool)
    ensures
        r == requires_output(op),
{
    match op {
        Operation::Call | Operation::MapItems | Operation::Reduce | Operation::Verify
        | Operation::MemRead | Operation::Retry => true,
        _ => false,
    }
}

fn outputs_bound_exec(out: &Option<Vec<(String, String)>>) -> (r: bool)
    ensures
        r == outputs_bound(*out),
{
    match out {
        Some(o) => {
            if o.len() == 0 {
                return false;
            }
            let mut i: usize = 0;
            while i < o.len()
                invariant
                    *out == Some(*o),
                    i <= o@.len(),
                    forall|j: int| 0 <= j < i ==> trim_of((#[trigger] o@[j]).0@).len() > 0,
                decreases o@.len() - i,
            {
                let t = trimmed(o[i].0.as_str());
                if t.unicode_len() == 0 {
                    assert(trim_of((o@[i as int]).0@).len() == 0);
                    return false;
                }
                i += 1;
            }
            true
        },
        None => false,
    }
}

fn edge_message(side: &str, id: &String) -> (r: String)
    ensures
        r@ == "Edge references non-existent '"@ + side@ + "' node: "@ + id@,
{
    let mut m = String::from_str("Edge references non-existent '");
    m.append(side);
    m.append("' node: ");
    m.append(id.as_str());
    m
}

impl Plan {
    /// Structural validation: at least one node, unique ids, and every edge
    /// endpoint names a node. The first fault found is reported.
    pub fn validate(&self) -> (r: Result<(), PlanValidationError>)
        ensures
            r is Ok <==> structurally_valid(*self),
            (r is Err && r->Err_0 is EmptyPlan) <==> self.nodes@.len() == 0,
            (r is Err && r->Err_0 is DuplicateNodeId) <==> (self.nodes@.len() > 0 && !ids_unique(
                self.nodes@,
            )),
            r matches Err(PlanValidationError::DuplicateNodeId(id)) ==> exists|i: int, j: int|
                0 <= i < j < self.nodes@.len() && self.nodes@[i].id@ == id@ && self.nodes@[j].id@
                    == id@ && ids_unique(self.nodes@.subrange(0, j)),
            r matches Err(PlanValidationError::InvalidEdge(m)) ==> exists|e: int|
                0 <= e < edges_of(*self).len() && (forall|k: int| 0 <= k < e ==> has_node(self.nodes@, (#[trigger] edges_of(*self)[k]).from@)
                    && has_node(self.nodes@, edges_of(*self)[k].to@)) && (if !has_node(self.nodes@, edges_of(*self)[e].from@) {
                    m@ == "Edge references non-existent 'from' node: "@ + edges_of(*self)[e].from@
                } else {
                    !has_node(self.nodes@, edges_of(*self)[e].to@) && m@ == "Edge references non-existent 'to' node: "@ + edges_of(*self)[e].to@
                }),
            (r is Err && r->Err_0 is InvalidEdge) <==> (self.nodes@.len() > 0 && ids_unique(
                self.nodes@,
            ) && !edges_resolve(*self)),
    {
        if self.nodes.len() == 0 {
            return Err(PlanValidationError::EmptyPlan);
        }
        let mut seen: Vec<String> = Vec::new();
        let mut i: usize = 0;
        while i < self.nodes.len()
            invariant
                i <= self.nodes@.len(),
                seen@.len() == i,
                forall|j: int| 0 <= j < i ==> #[trigger] seen@[j]@ == self.nodes@[j].id@,
                forall|a: int, b: int| 0 <= a < b < i ==> self.nodes@[a].id@ != self.nodes@[b].id@,
            decreases self.nodes@.len() - i,
        {
            if find_text(&seen, self.nodes[i].id.as_str()) {
                proof {
                    let j = choose|j: int| 0 <= j < seen@.len() && #[trigger] seen@[j]@ == self.nodes@[i as int].id@;
                    assert(self.nodes@[j].id@ == self.nodes@[i as int].id@);
                    assert forall|a: int, b: int| 0 <= a < b < i implies self.nodes@.subrange(0, i as int)[a].id@ != self.nodes@.subrange(0, i as int)[b].id@ by {
                        assert(self.nodes@.subrange(0, i as int)[a] == self.nodes@[a]);
                        assert(self.nodes@.subrange(0, i as int)[b] == self.nodes@[b]);
                    }
                }
                return Err(PlanValidationError::DuplicateNodeId(self.nodes[i].id.clone()));
            }
            proof {
                assert forall|a: int| 0 <= a < i implies self.nodes@[a].id@ != self.nodes@[i as int].id@ by {
                    assert(seen@[a]@ == self.nodes@[a].id@);
                }
            }
            seen.push(self.nodes[i].id.clone());
            i += 1;
        }
        proof {
            assert forall|k: Seq<char>| has_text(seen@, k) <==> has_node(self.nodes@, k) by {
                if has_text(seen@, k) {
                    let j = choose|j: int| 0 <= j < seen@.len() && #[trigger] seen@[j]@ == k;
                    assert(self.nodes@[j].id@ == k);
                }
                if has_node(self.nodes@, k) {
                    let j = choose|j: int| 0 <= j < self.nodes@.len() && #[trigger] self.nodes@[j].id@ == k;
                    assert(seen@[j]@ == k);
                }
            }
        }
        match &self.edges {
            Some(edges) => {
                let mut e: usize = 0;
                while e < edges.len()
                    invariant
                        e <= edges@.len(),
                        edges_of(*self) == edges@,
                        self.nodes@.len() > 0,
                        ids_unique(self.nodes@),
                        forall|k: Seq<char>| has_text(seen@, k) <==> has_node(self.nodes@, k),
                        forall|j: int|
                            0 <= j < e ==> has_node(self.nodes@, (#[trigger] edges@[j]).from@) && has_node(
                                self.nodes@,
                                edges@[j].to@,
                            ),
                    decreases edges@.len() - e,
                {
                    if !find_text(&seen, edges[e].from.as_str()) {
                        proof {
                            reveal_strlit("from");
                        }
                        let m = edge_message("from", &edges[e].from);
                        proof {
                            assert(m@ =~= "Edge references non-existent 'from' node: "@ + edges@[e as int].from@) by {
                                reveal_strlit("Edge references non-existent '");
                                reveal_strlit("' node: ");
                                reveal_strlit("Edge references non-existent 'from' node: ");
                            }
                        }
                        return Err(PlanValidationError::InvalidEdge(m));
                    }
                    if !find_text(&seen, edges[e].to.as_str()) {
                        let m = edge_message("to", &edges[e].to);
                        proof {
                            assert(m@ =~= "Edge references non-existent 'to' node: "@ + edges@[e as int].to@) by {
                                reveal_strlit("to");
                                reveal_strlit("Edge references non-existent '");
                                reveal_strlit("' node: ");
                                reveal_strlit("Edge references non-existent 'to' node: ");
                            }
                        }
                        return Err(PlanValidationError::InvalidEdge(m));
                    }
                    e += 1;
                }
            },
            None => {},
        }
        Ok(())
    }

    /// Validation against the tools in `tools`: structural validation first,
    /// then, node by node, a tool or capability where the operation invokes a
    /// tool, a known tool wherever one is named, and output bindings where the
    /// operation produces a value. The first fault found is reported.
    pub fn validate_with_tools(&self, tools: &[String]) -> (r: Result<(), PlanValidationError>)
        ensures
            r is Ok <==> (structurally_valid(*self) && forall|i: int|
                0 <= i < self.nodes@.len() ==> node_fault(#[trigger] self.nodes@[i], tools@) is None),
            !structurally_valid(*self) ==> (r is Err && r->Err_0 is EmptyPlan) == (self.nodes@.len() == 0)
                && ((r is Err && r->Err_0 is DuplicateNodeId) == (self.nodes@.len() > 0 && !ids_unique(self.nodes@)))
                && r is Err,
            structurally_valid(*self) && r is Err ==> exists|i: int|
                0 <= i < self.nodes@.len() && (forall|j: int|
                    0 <= j < i ==> node_fault(#[trigger] self.nodes@[j], tools@) is None) && node_fault(
                    self.nodes@[i],
                    tools@,
                ) == Some(r->Err_0),
    {
        match self.validate() {
            Err(e) => {
                return Err(e);
            },
            Ok(()) => {},
        }
        let mut i: usize = 0;
        while i < self.nodes.len()
            invariant
                i <= self.nodes@.len(),
                structurally_valid(*self),
                forall|j: int| 0 <= j < i ==> node_fault(#[trigger] self.nodes@[j], tools@) is None,
            decreases self.nodes@.len() - i,
        {
            let node = &self.nodes[i];
            if operation_requires_tool(node.op) && node.tool.is_none() && node.capability.is_none() {
                return Err(PlanValidationError::MissingToolOrCapability(node.id.clone()));
            }
            match &node.tool {
                Some(t) => {
                    if !find_text_slice(tools, t.as_str()) {
                        return Err(PlanValidationError::UnknownTool(t.clone()));
                    }
                },
                None => {},
            }
            if operation_requires_output(node.op) && !outputs_bound_exec(&node.out) {
                return Err(PlanValidationError::MissingOutputBinding(node.id.clone()));
            }
            i += 1;
        }
        Ok(())
    }
}

fn prefixed(head: &str, subject: &String) -> (r: String)
    ensures
        r@ == head@ + subject@,
{
    let mut m = String::from_str(head);
    m.append(subject.as_str());
    m
}

/// The text of a plan validation error.
pub open spec fn message_of(e: PlanValidationError) -> Seq<char> {
    match e {
        PlanValidationError::EmptyPlan => "Plan cannot be empty"@,
        PlanValidationError::DuplicateNodeId(id) => "Duplicate node ID: "@ + id@,
        PlanValidationError::InvalidEdge(m) => "Invalid edge: "@ + m@,
        PlanValidationError::UnknownTool(t) => "Unknown tool referenced: "@ + t@,
        PlanValidationError::MissingOutputBinding(id) => "Node "@ + id@ + " is missing output bindings"@,
        PlanValidationError::MissingToolOrCapability(id) => "Node "@ + id@ + " requires either a tool or capability"@,
    }
}

impl PlanValidationError {
    /// The error's message.
    pub fn message(&self) -> (r: String)
        ensures
            r@ == message_of(*self),
    {
        match self {
            PlanValidationError::EmptyPlan => String::from_str("Plan cannot be empty"),
            PlanValidationError::DuplicateNodeId(id) => prefixed("Duplicate node ID: ", id),
            PlanValidationError::InvalidEdge(m) => prefixed("Invalid edge: ", m),
            PlanValidationError::UnknownTool(t) => prefixed("Unknown tool referenced: ", t),
            PlanValidationError::MissingOutputBinding(id) => {
                let mut m = prefixed("Node ", id);
                m.append(" is missing output bindings");
                assert(m@ =~= message_of(*self));
                m
            },
            PlanValidationError::MissingToolOrCapability(id) => {
                let mut m = prefixed("Node ", id);
                m.append(" requires either a tool or capability");
                assert(m@ =~= message_of(*self));
                m
            },
        }
    }
}

fn find_text_slice(v: &[String], k: &str) -> (r: bool)
    ensures
        r == has_text(v@, k@),
{
    let mut i: usize = 0;
    while i < v.len()
        invariant
            i <= v@.len(),
            forall|j: int| 0 <= j < i ==> v@[j]@ != k@,
        decreases v@.len() - i,
    {
        if str_eq(v[i].as_str(), k) {
            return true;
        }
        i += 1;
    }
    false
}

} // verus!
