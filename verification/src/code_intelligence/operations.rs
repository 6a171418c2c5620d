//! Allowlist of code-graph operations a provider may execute. Mutating and
//! index-triggering tools are deliberately absent: the code graph is read-only derived
//! state.
use vstd::prelude::*;
use crate::text::str_eq;

verus! {

#[derive(Debug, Clone, Copy, PartialEq, Eq, Hash, Structural)]
pub enum GraphOperation {
    SearchGraph,
    SearchCode,
    TracePath,
    GetCodeSnippet,
    GetArchitecture,
    QueryGraph,
    IndexStatus,
}

/// The provider tool that carries out an operation.
pub open spec fn tool_of(op: GraphOperation) -> Seq<char> {
    match op {
        GraphOperation::SearchGraph => "search_graph"@,
        GraphOperation::SearchCode => "search_code"@,
        GraphOperation::TracePath => "trace_path"@,
        GraphOperation::GetCodeSnippet => "get_code_snippet"@,
        GraphOperation::GetArchitecture => "get_architecture"@,
        GraphOperation::QueryGraph => "query_graph"@,
        GraphOperation::IndexStatus => "index_status"@,
    }
}

impl GraphOperation {
    /// Every allowed operation.
    pub fn all() -> (r: Vec<GraphOperation>)
        ensures
            r@ == seq![
                GraphOperation::SearchGraph,
                GraphOperation::SearchCode,
                GraphOperation::TracePath,
                GraphOperation::GetCodeSnippet,
                GraphOperation::GetArchitecture,
                GraphOperation::QueryGraph,
                GraphOperation::IndexStatus,
            ],
    {
        let mut v: Vec<GraphOperation> = Vec::new();
        v.push(GraphOperation::SearchGraph);
        v.push(GraphOperation::SearchCode);
        v.push(GraphOperation::TracePath);
        v.push(GraphOperation::GetCodeSnippet);
        v.push(GraphOperation::GetArchitecture);
        v.push(GraphOperation::QueryGraph);
        v.push(GraphOperation::IndexStatus);
        v
    }

    pub fn tool_name(&self) -> (r: &'static str)
        ensures
            r@ == tool_of(*self),
    {
        match self {
            GraphOperation::SearchGraph => "search_graph",
            GraphOperation::SearchCode => "search_code",
            GraphOperation::TracePath => "trace_path",
            GraphOperation::GetCodeSnippet => "get_code_snippet",
            GraphOperation::GetArchitecture => "get_architecture",
            GraphOperation::QueryGraph => "query_graph",
            GraphOperation::IndexStatus => "index_status",
        }
    }

    /// The operation whose tool is `name`; anything outside the allowlist is rejected.
    pub fn from_tool_name(name: &str) -> (r: Option<GraphOperation>)
        ensures
            r matches Some(op) ==> tool_of(op) == name@,
            r is None <==> forall|op: GraphOperation| tool_of(op) != name@,
    {
        let all = Self::all();
        let mut i: usize = 0;
        while i < all.len()
            invariant
                i <= all@.len(),
                all@ == seq![
                    GraphOperation::SearchGraph,
                    GraphOperation::SearchCode,
                    GraphOperation::TracePath,
                    GraphOperation::GetCodeSnippet,
                    GraphOperation::GetArchitecture,
                    GraphOperation::QueryGraph,
                    GraphOperation::IndexStatus,
                ],
                forall|k: int| 0 <= k < i ==> tool_of(#[trigger] all@[k]) != name@,
            decreases all@.len() - i,
        {
            let op = all[i];
            if str_eq(op.tool_name(), name) {
                return Some(op);
            }
            i = i + 1;
        }
        proof {
            assert forall|op: GraphOperation| tool_of(op) != name@ by {
                match op {
                    GraphOperation::SearchGraph => assert(tool_of(all@[0]) != name@),
                    GraphOperation::SearchCode => assert(tool_of(all@[1]) != name@),
                    GraphOperation::TracePath => assert(tool_of(all@[2]) != name@),
                    GraphOperation::GetCodeSnippet => assert(tool_of(all@[3]) != name@),
                    GraphOperation::GetArchitecture => assert(tool_of(all@[4]) != name@),
                    GraphOperation::QueryGraph => assert(tool_of(all@[5]) != name@),
                    GraphOperation::IndexStatus => assert(tool_of(all@[6]) != name@),
                }
            }
        }
        None
    }
}

/// Distinct operations have distinct tool names.
pub proof fn lemma_tool_names_distinct(a: GraphOperation, b: GraphOperation)
    ensures
        tool_of(a) == tool_of(b) ==> a == b,
{
    reveal_strlit("search_graph");
    reveal_strlit("search_code");
    reveal_strlit("trace_path");
    reveal_strlit("get_code_snippet");
    reveal_strlit("get_architecture");
    reveal_strlit("query_graph");
    reveal_strlit("index_status");
    if tool_of(a) == tool_of(b) && a != b {
        let ta = tool_of(a);
        let tb = tool_of(b);
        assert(ta.len() == tb.len());
        assert(ta[0] == tb[0]);
        assert(ta[ta.len() - 1] == tb[tb.len() - 1]);
        assert(ta[4] == tb[4]);
        assert(ta[7] == tb[7]);
    }
}

/// Every operation comes back from its own tool name.
pub proof fn lemma_tool_name_round_trip(op: GraphOperation, r: Option<GraphOperation>)
    requires
        r matches Some(o) ==> tool_of(o) == tool_of(op),
        r is None <==> forall|o: GraphOperation| tool_of(o) != tool_of(op),
    ensures
        r == Some(op),
{
    if let Some(o) = r {
        lemma_tool_names_distinct(o, op);
    } else {
        assert(tool_of(op) == tool_of(op));
    }
}

} // verus!
