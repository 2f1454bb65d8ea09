use vstd::prelude::*;

use crate::context::Context;
use crate::Params;
use crate::error::Error;
use crate::registry::{registry_keys_unique, registry_map, registry_upsert};
use crate::value::{Val, Value};

verus! {

/// A domain-defined classification of a unit of work's outcome. Every
/// outcome reduces to a string condition label, used only to pick an
/// outgoing edge, and exactly one designated classification is the default
/// one.
pub trait ProcessState: Sized {
    /// The condition label this outcome reduces to. An implementation that
    /// wants its labels reasoned about overrides this; otherwise nothing is
    /// known of them.
    open spec fn condition_spec(&self) -> Seq<char> {
        arbitrary()
    }

    /// Whether this outcome is the designated default classification. An
    /// implementation that wants this reasoned about overrides it.
    open spec fn is_default_spec(&self) -> bool {
        arbitrary()
    }

    /// Whether this outcome is the designated default classification.
    fn is_default(&self) -> (r: bool)
        ensures
            r == self.is_default_spec(),
    ;

    /// The condition label this outcome reduces to.
    fn to_condition(&self) -> (r: String)
        ensures
            r@ == self.condition_spec(),
    ;

    /// The designated default classification of the domain.
    fn default_state() -> (r: Self)
        ensures
            r.is_default_spec(),
    ;
}

/// The smallest useful outcome domain: success, failure, and the default
/// classification.
#[derive(Debug, Clone, PartialEq)]
pub enum BaseState {
    Success,
    Failure,
    Default,
}

impl ProcessState for BaseState {
    open spec fn condition_spec(&self) -> Seq<char> {
        match self {
            BaseState::Success => "success"@,
            BaseState::Failure => "failure"@,
            BaseState::Default => "default"@,
        }
    }

    open spec fn is_default_spec(&self) -> bool {
        self is Default
    }

    fn is_default(&self) -> (r: bool) {
        matches!(self, BaseState::Default)
    }

    fn to_condition(&self) -> (r: String) {
        match self {
            BaseState::Success => "success".to_owned(),
            BaseState::Failure => "failure".to_owned(),
            BaseState::Default => "default".to_owned(),
        }
    }

    fn default_state() -> (r: Self) {
        BaseState::Default
    }
}

impl Default for BaseState {
    /// The designated default classification.
    fn default() -> (r: Self)
        ensures
            r.is_default_spec(),
    {
        BaseState::Default
    }
}

/// The routing decision a unit of work hands back: the outcome that drives
/// edge selection, and a diagnostic message that never drives routing.
#[derive(Debug, Clone, PartialEq)]
pub struct ProcessResult<S: ProcessState> {
    pub state: S,
    pub message: String,
}

impl<S: ProcessState> ProcessResult<S> {
    /// A routing decision made of the given outcome and message.
    pub fn new(state: S, message: String) -> (r: Self)
        ensures
            r.state == state,
            r.message == message,
    {
        ProcessResult { state, message }
    }
}

impl<S: ProcessState> Default for ProcessResult<S> {
    /// The default routing decision: the domain's default outcome with the
    /// message `"default"`.
    fn default() -> (r: Self)
        ensures
            r.state.is_default_spec(),
            r.message@ == "default"@,
    {
        ProcessResult { state: S::default_state(), message: "default".to_owned() }
    }
}

/// A unit of work: a named, reusable step of a flow, visited in three
/// ordered phases. `prepare` may seed the context and aborts the run on
/// failure; `execute` performs the real work on a read-only context;
/// `post_process` inspects the possibly failed result, decides what to
/// write into the context, and hands back the routing decision.
pub trait Node: Sized {
    /// The outcome domain this unit of work classifies its results in.
    type State: ProcessState;

    /// The first phase: may mutate the context before the work runs. A
    /// failure here aborts the run. By default it succeeds and leaves the
    /// context as it was.
    fn prepare(&self, context: &mut Context) -> (r: Result<(), Error>)
        default_ensures
            r is Ok,
            final(context)@.data == old(context)@.data,
            final(context)@.metadata == old(context)@.metadata,
    {
        let _ = context;
        Ok(())
    }

    /// The second phase: the real work, on a read-only view of the context.
    fn execute(&self, context: &Context) -> (r: Result<Value, Error>);

    /// The third phase: turns the result of the work into a routing
    /// decision. By default, a value is stored under the key `"result"` and
    /// a failure's description under the key `"error"`; either way the
    /// domain's default outcome is returned, carrying the failure's
    /// description as its message when the work failed — a failure of the
    /// work is converted into a routable outcome, never propagated.
    fn post_process(&self, context: &mut Context, result: &Result<Value, Error>) -> (r:
        Result<ProcessResult<Self::State>, Error>)
        default_ensures
            r is Ok,
            r matches Ok(pr) ==> pr.state.is_default_spec(),
            match result {
                Ok(value) => {
                    &&& final(context)@.data == old(context)@.data.insert(
                        "result"@,
                        value@,
                    )
                    &&& r matches Ok(pr) && pr.message@ == "default"@
                },
                Err(e) => {
                    &&& final(context)@.data == old(context)@.data.insert(
                        "error"@,
                        Val::Text(e.message_spec()),
                    )
                    &&& r matches Ok(pr) && pr.message@ == e.message_spec()
                },
            },
            final(context)@.metadata == old(context)@.metadata,
    {
        match result {
            Ok(value) => {
                context.set("result", value.duplicate());
                Ok(ProcessResult::default())
            }
            Err(e) => {
                context.set("error", Value::Text(e.message().clone()));
                Ok(ProcessResult::new(Self::State::default_state(), e.message().clone()))
            }
        }
    }
}

/// A unit of work classified in the [`BaseState`] domain.
pub trait BaseNodeTrait: Node<State = BaseState> {

}

/// A ready-made unit of work in the [`BaseState`] domain: carries its
/// construction parameters, performs no work, and can name follow-up units.
#[derive(Debug)]
pub struct BaseNode {
    params: Vec<(String, Value)>,
    next_nodes: Vec<(String, BaseNode)>,
}

impl BaseNode {
    #[verifier::type_invariant]
    spec fn wf(&self) -> bool {
        registry_keys_unique(self.next_nodes@)
    }

    /// The construction parameters the unit was given.
    pub closed spec fn spec_params(&self) -> Seq<(String, Value)> {
        self.params@
    }

    /// The follow-up units registered so far, each under its action label.
    pub closed spec fn spec_next(&self) -> Map<Seq<char>, BaseNode> {
        registry_map(self.next_nodes@)
    }

    /// A unit with the given parameters and no follow-up units.
    pub fn new(params: Params) -> (r: Self)
        ensures
            r.spec_params() == params@,
            r.spec_next() == Map::<Seq<char>, BaseNode>::empty(),
    {
        BaseNode { params, next_nodes: Vec::new() }
    }

    /// Registers a follow-up unit under an action label; registering a
    /// label again replaces the unit that held it.
    pub fn add_next(&mut self, action: String, node: BaseNode)
        ensures
            final(self).spec_next() == old(self).spec_next().insert(action@, node),
            final(self).spec_params() == old(self).spec_params(),
    {
        proof {
            use_type_invariant(&*self);
        }
        let mut store: Vec<(String, BaseNode)> = Vec::new();
        std::mem::swap(&mut store, &mut self.next_nodes);
        registry_upsert(&mut store, action, node);
        self.next_nodes = store;
    }
}

impl Node for BaseNode {
    type State = BaseState;

    fn execute(&self, context: &Context) -> (r: Result<Value, Error>)
        ensures
            r matches Ok(v) && v@ is Null,
    {
        let _ = context;
        Ok(Value::Null)
    }
}

impl BaseNodeTrait for BaseNode {

}

/// A ready-made unit of work that also carries an advisory batch size.
#[derive(Debug)]
pub struct BatchNode {
    base: BaseNode,
    batch_size: usize,
}

impl BatchNode {
    /// The advisory batch size the unit was given.
    pub closed spec fn spec_batch_size(&self) -> usize {
        self.batch_size
    }

    /// The construction parameters the unit was given.
    pub closed spec fn spec_params(&self) -> Seq<(String, Value)> {
        self.base.spec_params()
    }

    /// A unit with the given parameters and advisory batch size.
    pub fn new(params: Params, batch_size: usize) -> (r: Self)
        ensures
            r.spec_params() == params@,
            r.spec_batch_size() == batch_size,
    {
        BatchNode { base: BaseNode::new(params), batch_size }
    }
}

impl Node for BatchNode {
    type State = BaseState;

    fn execute(&self, context: &Context) -> (r: Result<Value, Error>)
        ensures
            r matches Ok(v) && v@ is Null,
    {
        let _ = context;
        Ok(Value::Null)
    }
}

impl BaseNodeTrait for BatchNode {

}

} // verus!
