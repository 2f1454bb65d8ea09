use vstd::prelude::*;

verus! {

/// Renders values and flows as text, for inspection while developing.
pub trait DebugVisualizer {
    /// A textual rendering of the value.
    fn visualize<T: core::fmt::Debug>(&self, data: &T) -> (r: String);

    /// A textual rendering of a serialized flow.
    fn visualize_flow(&self, flow_data: &[u8]) -> (r: String);
}

/// Relies on the `format!` macro with the `{:?}` placeholder: the standard
/// debug rendering of the value. Nothing is promised of the rendering's
/// shape.
#[verifier::external_body]
fn debug_string<T: core::fmt::Debug>(data: &T) -> String {
    format!("{:?}", data)
}

/// Renders values in the standard debug notation, for reading on a console.
#[derive(Debug)]
pub struct ConsoleDebugVisualizer;

impl DebugVisualizer for ConsoleDebugVisualizer {
    fn visualize<T: core::fmt::Debug>(&self, data: &T) -> (r: String) {
        debug_string(data)
    }

    fn visualize_flow(&self, flow_data: &[u8]) -> (r: String)
        ensures
            r@ == "Flow visualization not implemented"@,
    {
        let _ = flow_data;
        "Flow visualization not implemented".to_owned()
    }
}

/// Renders values for a graph-shaped presentation.
#[derive(Debug)]
pub struct GraphDebugVisualizer;

impl DebugVisualizer for GraphDebugVisualizer {
    fn visualize<T: core::fmt::Debug>(&self, data: &T) -> (r: String)
        ensures
            r@.len() >= "Graph visualization of "@.len(),
            r@.subrange(0, "Graph visualization of "@.len() as int)
                == "Graph visualization of "@,
    {
        let mut out: String = "Graph visualization of ".to_owned();
        let rendered = debug_string(data);
        out.append(rendered.as_str());
        proof {
            assert(out@.subrange(0, "Graph visualization of "@.len() as int)
                =~= "Graph visualization of "@);
        }
        out
    }

    fn visualize_flow(&self, flow_data: &[u8]) -> (r: String)
        ensures
            r@ == "Flow graph visualization not implemented"@,
    {
        let _ = flow_data;
        "Flow graph visualization not implemented".to_owned()
    }
}

} // verus!
