use std::cell::Cell;
use std::cell::RefCell;
use std::rc::Rc;

use miniflow::{BatchFlow, Context, Error, Flow, Node, ProcessResult, ProcessState, Value};

#[derive(Debug, Clone, PartialEq)]
#[allow(dead_code)]
enum CustomState {
    Success,
    Failure,
    Default,
}

impl ProcessState for CustomState {
    fn is_default(&self) -> bool {
        matches!(self, CustomState::Default)
    }

    fn to_condition(&self) -> String {
        match self {
            CustomState::Success => "success".to_string(),
            CustomState::Failure => "failure".to_string(),
            CustomState::Default => "default".to_string(),
        }
    }

    fn default_state() -> Self {
        CustomState::Default
    }
}

struct TestNode {
    result: Value,
    state: CustomState,
}

impl TestNode {
    fn new(result: Value, state: CustomState) -> Self {
        Self { result, state }
    }
}

impl Node for TestNode {
    type State = CustomState;

    fn execute(&self, _context: &Context) -> Result<Value, Error> {
        Ok(self.result.duplicate())
    }

    fn post_process(
        &self,
        context: &mut Context,
        result: &Result<Value, Error>,
    ) -> Result<ProcessResult<CustomState>, Error> {
        match result {
            Ok(value) => {
                context.set("result", value.duplicate());
                Ok(ProcessResult::new(self.state.clone(), "test".to_string()))
            }
            Err(e) => {
                context.set("error", Value::Text(e.message().clone()));
                Ok(ProcessResult::new(CustomState::Default, e.message().clone()))
            }
        }
    }
}

fn object(entries: Vec<(&str, &str)>) -> Value {
    Value::Object(
        entries
            .into_iter()
            .map(|(k, v)| (k.to_string(), Value::Text(v.to_string())))
            .collect(),
    )
}

#[test]
fn test_flow_with_custom_state() {
    let node1 = TestNode::new(object(vec![("data", "test1")]), CustomState::Success);
    let node2 = TestNode::new(object(vec![("data", "test2")]), CustomState::Default);
    let end_node = TestNode::new(object(vec![("final_result", "finished")]), CustomState::Default);

    let mut flow = Flow::new("start", node1);
    flow.add_node("next", node2);
    flow.add_node("end", end_node);

    flow.add_edge("start", "next", CustomState::Success);
    flow.add_edge("next", "end", CustomState::Default);

    let mut context = Context::new();
    let result = flow.run(&mut context).unwrap();

    assert_eq!(result, object(vec![("final_result", "finished")]));
}

#[test]
fn test_batch_flow() {
    let node1 = TestNode::new(object(vec![("data", "test1")]), CustomState::Success);
    let node2 = TestNode::new(object(vec![("data", "test2")]), CustomState::Default);

    let mut batch_flow = BatchFlow::new("start", node1, 10);
    batch_flow.flow.add_node("next", node2);
    batch_flow.flow.add_edge("start", "next", CustomState::Success);
    batch_flow.flow.add_edge("next", "end", CustomState::Default);

    let contexts = vec![Context::new(), Context::new()];
    batch_flow.run_batch(contexts).unwrap();
}

#[test]
fn test_build_flow_macro() {
    // A flow holding only its start node.
    let node1 = TestNode::new(object(vec![("data", "test1")]), CustomState::Success);
    let flow1 = Flow::new("start", node1);
    let mut context = Context::new();
    let result = flow1.run(&mut context).unwrap();
    assert_eq!(result, object(vec![("data", "test1")]));

    // A flow with several nodes and edges.
    let node1 = TestNode::new(object(vec![("data", "test1")]), CustomState::Success);
    let node2 = TestNode::new(object(vec![("data", "test2")]), CustomState::Default);
    let end_node = TestNode::new(object(vec![("final_result", "finished")]), CustomState::Default);
    let mut flow2 = Flow::new("start", node1);
    flow2.add_node("next", node2);
    flow2.add_node("end", end_node);
    flow2.add_edge("start", "next", CustomState::Success);
    flow2.add_edge("next", "end", CustomState::Default);
    let mut context = Context::new();
    let result = flow2.run(&mut context).unwrap();
    assert_eq!(result, object(vec![("final_result", "finished")]));

    // A flow routed through a default edge.
    let node1 = TestNode::new(object(vec![("data", "test1")]), CustomState::Success);
    let node2 = TestNode::new(object(vec![("data", "test2")]), CustomState::Default);
    let mut flow3 = Flow::new("start", node1);
    flow3.add_node("next", node2);
    flow3.add_edge("start", "next", CustomState::Default);
    let mut context = Context::new();
    let result = flow3.run(&mut context).unwrap();
    assert_eq!(result, object(vec![("data", "test2")]));
}

// The two units of the success-edge scenario: the first always classifies
// its outcome as "success", the second produces "done" and stores it under
// "result" with the default outcome.
enum StepNode {
    YieldSuccess,
    ProduceDone,
}

impl Node for StepNode {
    type State = CustomState;

    fn execute(&self, _context: &Context) -> Result<Value, Error> {
        match self {
            StepNode::YieldSuccess => Ok(Value::Null),
            StepNode::ProduceDone => Ok(Value::Text("done".to_string())),
        }
    }

    fn post_process(
        &self,
        context: &mut Context,
        result: &Result<Value, Error>,
    ) -> Result<ProcessResult<CustomState>, Error> {
        match self {
            StepNode::YieldSuccess => {
                Ok(ProcessResult::new(CustomState::Success, String::new()))
            }
            StepNode::ProduceDone => match result {
                Ok(value) => {
                    context.set("result", value.duplicate());
                    Ok(ProcessResult::new(CustomState::Default, String::new()))
                }
                Err(e) => Err(Error::NodeExecution(e.message().clone())),
            },
        }
    }
}

#[test]
fn run_follows_success_edge_and_stores_result() {
    // A always yields "success"; the edge under "success" leads to B; B's
    // work produces "done", stored under "result". The run ends at B,
    // which has no outgoing edge.
    let mut flow = Flow::new("a", StepNode::YieldSuccess);
    flow.add_node("b", StepNode::ProduceDone);
    flow.add_edge("a", "b", CustomState::Success);

    let mut context = Context::new();
    let result = flow.run(&mut context).unwrap();
    assert_eq!(result, Value::Text("done".to_string()));
    assert_eq!(context.get("result"), Some(&Value::Text("done".to_string())));
}

// A unit of work that leaves the classification phase to its default.
struct PlainNode {
    outcome: Result<Value, Error>,
}

impl Node for PlainNode {
    type State = miniflow::BaseState;

    fn execute(&self, _context: &Context) -> Result<Value, Error> {
        match &self.outcome {
            Ok(v) => Ok(v.duplicate()),
            Err(e) => Err(Error::NodeExecution(e.message().clone())),
        }
    }
}

#[test]
fn default_post_process_stores_result() {
    // Without an overriding classification phase, a value is stored under
    // "result" and the default outcome is returned.
    let flow = Flow::new("only", PlainNode { outcome: Ok(Value::Text("done".to_string())) });
    let mut context = Context::new();
    let result = flow.run(&mut context).unwrap();
    assert_eq!(result, Value::Text("done".to_string()));
    assert_eq!(context.get("result"), Some(&Value::Text("done".to_string())));
}

#[test]
fn default_post_process_stores_error_and_continues() {
    // Without an overriding classification phase, a failure's description
    // is stored under "error" and the run goes on with the default
    // outcome instead of aborting.
    let flow = Flow::new(
        "only",
        PlainNode { outcome: Err(Error::NodeExecution("went wrong".to_string())) },
    );
    let mut context = Context::new();
    let result = flow.run(&mut context).unwrap();
    assert_eq!(result, Value::Null);
    assert_eq!(context.get("error"), Some(&Value::Text("went wrong".to_string())));
}

// A unit of work that counts its visits and fails once it has been visited
// more often than its bound allows.
struct LoopNode {
    visits: Rc<Cell<usize>>,
    bound: usize,
}

impl Node for LoopNode {
    type State = CustomState;

    fn execute(&self, _context: &Context) -> Result<Value, Error> {
        Ok(Value::Null)
    }

    fn post_process(
        &self,
        _context: &mut Context,
        _result: &Result<Value, Error>,
    ) -> Result<ProcessResult<CustomState>, Error> {
        let seen = self.visits.get() + 1;
        self.visits.set(seen);
        if seen > self.bound {
            Err(Error::Other("bound reached".to_string()))
        } else {
            Ok(ProcessResult::new(CustomState::Default, String::new()))
        }
    }
}

#[test]
fn run_enforces_no_cycle_bound() {
    // A single node routed back to itself by a default edge keeps running:
    // the engine places no bound on the number of visits. An external
    // counter stops the run only after a thousand visits have gone by.
    let visits = Rc::new(Cell::new(0));
    let node = LoopNode { visits: visits.clone(), bound: 1000 };
    let mut flow = Flow::new("a", node);
    flow.add_edge("a", "a", CustomState::Default);

    let mut context = Context::new();
    let result = flow.run(&mut context);
    assert!(result.is_err());
    assert_eq!(visits.get(), 1001);
}

// The two units of the error-handling scenario: one whose work always
// fails and whose classification phase turns the failure into a
// data-level "failure" outcome, and a handler that records being reached.
enum HandledFlowNode {
    Failing,
    Handler(Rc<Cell<bool>>),
}

impl Node for HandledFlowNode {
    type State = CustomState;

    fn execute(&self, _context: &Context) -> Result<Value, Error> {
        match self {
            HandledFlowNode::Failing => Err(Error::NodeExecution("boom".to_string())),
            HandledFlowNode::Handler(reached) => {
                reached.set(true);
                Ok(Value::Null)
            }
        }
    }

    fn post_process(
        &self,
        context: &mut Context,
        result: &Result<Value, Error>,
    ) -> Result<ProcessResult<CustomState>, Error> {
        match result {
            Ok(_) => Ok(ProcessResult::new(CustomState::Default, String::new())),
            Err(e) => {
                context.set("error", Value::Text(e.message().clone()));
                Ok(ProcessResult::new(CustomState::Failure, e.message().clone()))
            }
        }
    }
}

#[test]
fn failed_execute_routes_to_error_handler() {
    // The node's work fails; its classification phase intercepts the
    // failure and yields the "failure" outcome, so the run continues into
    // the handler instead of aborting.
    let reached = Rc::new(Cell::new(false));
    let mut flow = Flow::new("work", HandledFlowNode::Failing);
    flow.add_node("handler", HandledFlowNode::Handler(reached.clone()));
    flow.add_edge("work", "handler", CustomState::Failure);

    let mut context = Context::new();
    let result = flow.run(&mut context);
    assert!(result.is_ok());
    assert!(reached.get());
    assert_eq!(context.get("error"), Some(&Value::Text("boom".to_string())));
}

// A unit of work that logs which context it saw and fails when the context
// asks it to.
struct BatchProbeNode {
    log: Rc<RefCell<Vec<String>>>,
}

impl Node for BatchProbeNode {
    type State = CustomState;

    fn execute(&self, context: &Context) -> Result<Value, Error> {
        let name = match context.get("name") {
            Some(Value::Text(n)) => n.clone(),
            _ => String::new(),
        };
        self.log.borrow_mut().push(name);
        if context.contains_key("fail") {
            Err(Error::NodeExecution("asked to fail".to_string()))
        } else {
            Ok(Value::Null)
        }
    }

    fn post_process(
        &self,
        _context: &mut Context,
        result: &Result<Value, Error>,
    ) -> Result<ProcessResult<CustomState>, Error> {
        match result {
            Ok(_) => Ok(ProcessResult::new(CustomState::Default, String::new())),
            Err(e) => Err(Error::NodeExecution(e.message().clone())),
        }
    }
}

fn named_context(name: &str, fail: bool) -> Context {
    let mut entries = vec![(String::from("name"), Value::Text(name.to_string()))];
    if fail {
        entries.push((String::from("fail"), Value::Bool(true)));
    }
    Context::from_data(entries)
}

#[test]
fn batch_stops_at_first_failing_context() {
    // Three contexts; the second one's run fails. The first run completes,
    // the failure of the second surfaces from the batch, and the third
    // context is never attempted.
    let log = Rc::new(RefCell::new(Vec::new()));
    let batch = BatchFlow::new("probe", BatchProbeNode { log: log.clone() }, 3);

    let contexts = vec![
        named_context("one", false),
        named_context("two", true),
        named_context("three", false),
    ];
    let result = batch.run_batch(contexts);
    assert!(result.is_err());
    assert_eq!(result.unwrap_err().message(), "asked to fail");
    assert_eq!(*log.borrow(), vec!["one".to_string(), "two".to_string()]);
}

#[test]
fn first_registered_edge_wins() {
    // Two edges registered from the same node under the same label: the
    // first registered one decides where the run moves.
    let mut flow = Flow::new("start", TestNode::new(Value::Null, CustomState::Success));
    flow.add_edge("start", "first", CustomState::Success);
    flow.add_edge("start", "second", CustomState::Success);

    assert_eq!(flow.resolve_next("start", "success"), Some("first".to_string()));
}

#[test]
fn default_edge_taken_only_without_label_match() {
    let mut flow = Flow::new("start", TestNode::new(Value::Null, CustomState::Success));
    flow.add_edge("start", "fallback", CustomState::Default);
    flow.add_edge("start", "matched", CustomState::Success);

    // No edge under "failure": the default edge decides.
    assert_eq!(flow.resolve_next("start", "failure"), Some("fallback".to_string()));
    // An edge under "success" exists: the default edge is not consulted.
    assert_eq!(flow.resolve_next("start", "success"), Some("matched".to_string()));
    // A node with no edges at all resolves to nothing.
    assert_eq!(flow.resolve_next("elsewhere", "success"), None);
}

// An outcome whose label can be changed from outside, to observe when the
// engine reads it.
struct ShiftyState {
    label: Rc<RefCell<String>>,
}

impl ProcessState for ShiftyState {
    fn is_default(&self) -> bool {
        false
    }

    fn to_condition(&self) -> String {
        self.label.borrow().clone()
    }

    fn default_state() -> Self {
        ShiftyState { label: Rc::new(RefCell::new("default".to_string())) }
    }
}

struct ShiftyNode;

impl Node for ShiftyNode {
    type State = ShiftyState;

    fn execute(&self, _context: &Context) -> Result<Value, Error> {
        Ok(Value::Null)
    }
}

#[test]
fn edge_label_is_computed_at_registration_time() {
    // The condition's label is read once, when the edge is registered;
    // changing the outcome afterwards does not move the edge.
    let label = Rc::new(RefCell::new("x".to_string()));
    let mut flow = Flow::new("a", ShiftyNode);
    flow.add_edge("a", "b", ShiftyState { label: label.clone() });
    *label.borrow_mut() = "y".to_string();

    assert_eq!(flow.resolve_next("a", "x"), Some("b".to_string()));
    assert_eq!(flow.resolve_next("a", "y"), None);
}

// A unit of work whose preparation phase always fails.
struct UnpreparedNode;

impl Node for UnpreparedNode {
    type State = CustomState;

    fn prepare(&self, _context: &mut Context) -> Result<(), Error> {
        Err(Error::Context("missing input".to_string()))
    }

    fn execute(&self, _context: &Context) -> Result<Value, Error> {
        Ok(Value::Null)
    }
}

#[test]
fn failed_prepare_aborts_the_run() {
    // A failure in the preparation phase is not swallowed: the run aborts
    // immediately and surfaces it.
    let flow = Flow::new("start", UnpreparedNode);
    let mut context = Context::new();
    let result = flow.run(&mut context);
    assert!(matches!(result, Err(Error::Context(_))));
    assert_eq!(result.unwrap_err().message(), "missing input");
    assert_eq!(context.get("result"), None);
}

#[test]
fn run_stops_at_unregistered_node() {
    // The edge under "success" points at a name nothing is registered
    // under: the next round stops the run normally.
    let mut flow = Flow::new("start", TestNode::new(Value::Null, CustomState::Success));
    flow.add_edge("start", "ghost", CustomState::Success);

    let mut context = Context::new();
    let result = flow.run(&mut context).unwrap();
    assert_eq!(result, Value::Null);
}

#[test]
fn replacing_a_node_takes_the_new_unit() {
    // Registering a name again replaces the unit that held it.
    let mut flow = Flow::new("start", TestNode::new(Value::Null, CustomState::Success));
    flow.add_node("end", TestNode::new(Value::Text("old".to_string()), CustomState::Default));
    flow.add_node("end", TestNode::new(Value::Text("new".to_string()), CustomState::Default));
    flow.add_edge("start", "end", CustomState::Success);

    let mut context = Context::new();
    let result = flow.run(&mut context).unwrap();
    assert_eq!(result, Value::Text("new".to_string()));
}
