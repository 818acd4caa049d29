//! Scripted execution graph: a map of dispatch/delay/wait/noop nodes with
//! fan-out edges, and the running state of its active nodes.

use vstd::prelude::*;

use crate::json::JsonValue;
use crate::maps::StrMap;
use crate::protocol::{CommandAction, SafetyClass};

verus! {

/// One or more successor node ids.
#[derive(Clone, Debug)]
pub enum NextRef {
    One(String),
    Many(Vec<String>),
}

pub open spec fn spec_next_ids(n: NextRef) -> Seq<Seq<char>> {
    match n {
        NextRef::One(s) => seq![s@],
        NextRef::Many(v) => v@.map_values(|x: String| x@),
    }
}

impl NextRef {
    pub fn to_vec(&self) -> (r: Vec<String>)
        ensures
            r@.map_values(|x: String| x@) == spec_next_ids(*self),
    {
        match self {
            NextRef::One(v) => {
                let mut out: Vec<String> = Vec::new();
                out.push(v.clone());
                proof {
                    assert(out@.map_values(|x: String| x@) =~= spec_next_ids(*self));
                }
                out
            }
            NextRef::Many(v) => {
                let mut out: Vec<String> = Vec::new();
                let n: usize = v.len();
                let mut i: usize = 0;
                while i < n
                    invariant
                        i <= n,
                        n == v@.len(),
                        out@.len() == i,
                        forall|j: int| 0 <= j < i ==> out@[j]@ == v@[j]@,
                    decreases n - i,
                {
                    out.push(v[i].clone());
                    i = i + 1;
                }
                proof {
                    assert(out@.map_values(|x: String| x@) =~= spec_next_ids(*self));
                }
                out
            }
        }
    }
}

/// One or more start node ids.
#[derive(Clone, Debug)]
pub enum StartRef {
    One(String),
    Many(Vec<String>),
}

pub open spec fn spec_start_ids(n: StartRef) -> Seq<Seq<char>> {
    match n {
        StartRef::One(s) => seq![s@],
        StartRef::Many(v) => v@.map_values(|x: String| x@),
    }
}

impl StartRef {
    pub fn to_vec(&self) -> (r: Vec<String>)
        ensures
            r@.map_values(|x: String| x@) == spec_start_ids(*self),
    {
        match self {
            StartRef::One(v) => {
                let mut out: Vec<String> = Vec::new();
                out.push(v.clone());
                proof {
                    assert(out@.map_values(|x: String| x@) =~= spec_start_ids(*self));
                }
                out
            }
            StartRef::Many(v) => {
                let mut out: Vec<String> = Vec::new();
                let n: usize = v.len();
                let mut i: usize = 0;
                while i < n
                    invariant
                        i <= n,
                        n == v@.len(),
                        out@.len() == i,
                        forall|j: int| 0 <= j < i ==> out@[j]@ == v@[j]@,
                    decreases n - i,
                {
                    out.push(v[i].clone());
                    i = i + 1;
                }
                proof {
                    assert(out@.map_values(|x: String| x@) =~= spec_start_ids(*self));
                }
                out
            }
        }
    }
}

/// A graph node. `next` edges advance when the node's condition is met.
#[derive(Clone)]
pub enum GraphNode {
    /// Issue a command through the dispatcher and wait for its terminal
    /// outcome before advancing.
    Dispatch {
        device_id: String,
        action: CommandAction,
        parameters: JsonValue,
        safety_class: SafetyClass,
        next: Option<NextRef>,
    },
    /// Advance after `ms` milliseconds.
    Delay { ms: u64, next: Option<NextRef> },
    /// Advance when the device's retained state, at the JSON pointer,
    /// equals the expected value; abort the graph on timeout.
    WaitStateEquals {
        device_id: String,
        pointer: String,
        equals: JsonValue,
        timeout_ms: Option<u64>,
        next: Option<NextRef>,
    },
    /// Advance immediately.
    Noop { next: Option<NextRef> },
}

/// A graph: schema and room scope, start nodes, and the node map.
pub struct Graph {
    pub schema: String,
    pub room_id: String,
    pub start: StartRef,
    pub nodes: StrMap<GraphNode>,
}

impl Graph {
    pub open spec fn wf(self) -> bool {
        self.nodes.wf()
    }
}

/// A node the running graph currently occupies.
pub struct ActiveNodeState {
    pub node_id: String,
    pub entered_at_unix_ms: Option<u64>,
    pub waiting_on_command_id: Option<u128>,
    pub next_after_wait: Option<NextRef>,
}

impl ActiveNodeState {
    /// Freshly entered node: no entry instant, nothing awaited.
    pub fn enter(node_id: String) -> (r: Self)
        ensures
            r.node_id == node_id,
            r.entered_at_unix_ms is None,
            r.waiting_on_command_id is None,
            r.next_after_wait is None,
    {
        ActiveNodeState {
            node_id,
            entered_at_unix_ms: None,
            waiting_on_command_id: None,
            next_after_wait: None,
        }
    }
}

/// The loaded graph, its version, and the active node list. An empty
/// active list means the graph is not running; the graph and version only
/// change while the list is empty.
pub struct GraphRunner {
    pub graph: Option<Graph>,
    pub graph_version: Option<i64>,
    pub active_nodes: Vec<ActiveNodeState>,
}

impl GraphRunner {
    pub open spec fn wf(self) -> bool {
        match self.graph {
            Some(g) => g.wf(),
            None => true,
        }
    }

    pub open spec fn spec_is_running(self) -> bool {
        self.active_nodes@.len() > 0
    }

    pub fn new() -> (r: Self)
        ensures
            r.wf(),
            r.graph is None,
            r.graph_version is None,
            !r.spec_is_running(),
    {
        GraphRunner { graph: None, graph_version: None, active_nodes: Vec::new() }
    }

    pub fn is_running(&self) -> (r: bool)
        ensures
            r == self.spec_is_running(),
    {
        self.active_nodes.len() > 0
    }

    /// Occupy the graph's start nodes, freshly entered, in order.
    pub fn start_active_nodes(&mut self)
        requires
            old(self).graph is Some,
        ensures
            final(self).graph == old(self).graph,
            final(self).graph_version == old(self).graph_version,
            final(self).active_nodes@.len() == spec_start_ids(old(self).graph->Some_0.start).len(),
            forall|j: int| 0 <= j < final(self).active_nodes@.len() ==> {
                &&& final(self).active_nodes@[j].node_id@ == spec_start_ids(
                    old(self).graph->Some_0.start,
                )[j]
                &&& final(self).active_nodes@[j].entered_at_unix_ms is None
                &&& final(self).active_nodes@[j].waiting_on_command_id is None
                &&& final(self).active_nodes@[j].next_after_wait is None
            },
    {
        let starts = match &self.graph {
            Some(g) => g.start.to_vec(),
            None => Vec::new(),
        };
        let mut active: Vec<ActiveNodeState> = Vec::new();
        let n: usize = starts.len();
        let mut i: usize = 0;
        while i < n
            invariant
                i <= n,
                n == starts@.len(),
                active@.len() == i,
                forall|j: int| 0 <= j < i ==> {
                    &&& active@[j].node_id@ == starts@[j]@
                    &&& active@[j].entered_at_unix_ms is None
                    &&& active@[j].waiting_on_command_id is None
                    &&& active@[j].next_after_wait is None
                },
            decreases n - i,
        {
            let id = starts[i].clone();
            active.push(ActiveNodeState::enter(id));
            i = i + 1;
        }
        proof {
            assert(starts@.map_values(|x: String| x@).len() == starts@.len());
        }
        self.active_nodes = active;
    }
}

} // verus!
