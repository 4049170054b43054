use vstd::prelude::*;

use crate::value::DataType;

verus! {

/// Why an evaluation or a port operation failed.
#[derive(Clone, Debug)]
pub enum GraphError {
    /// The named port is absent from the node, or the node itself is absent.
    PortNotFound { node: usize, port: String },
    /// A value of one kind cannot be converted to the other.
    TypeCoercion { from: DataType, to: DataType },
    /// A text is not a number.
    ParseError { text: String },
    /// Following links from this node went deeper than the graph has nodes, which only a
    /// cycle of links allows.
    CycleDetected { node: usize },
}

/// A `GraphError` as the proofs see it.
pub enum ErrorModel {
    PortNotFound { node: usize, port: Seq<char> },
    TypeCoercion { from: DataType, to: DataType },
    ParseError { text: Seq<char> },
    CycleDetected { node: usize },
}

impl GraphError {
    pub open spec fn view(&self) -> ErrorModel {
        match self {
            GraphError::PortNotFound { node, port } => ErrorModel::PortNotFound {
                node: *node,
                port: port@,
            },
            GraphError::TypeCoercion { from, to } => ErrorModel::TypeCoercion {
                from: *from,
                to: *to,
            },
            GraphError::ParseError { text } => ErrorModel::ParseError { text: text@ },
            GraphError::CycleDetected { node } => ErrorModel::CycleDetected { node: *node },
        }
    }

    pub fn duplicate(&self) -> (r: GraphError)
        ensures
            r@ == self@,
    {
        match self {
            GraphError::PortNotFound { node, port } => GraphError::PortNotFound {
                node: *node,
                port: port.clone(),
            },
            GraphError::TypeCoercion { from, to } => GraphError::TypeCoercion {
                from: *from,
                to: *to,
            },
            GraphError::ParseError { text } => GraphError::ParseError { text: text.clone() },
            GraphError::CycleDetected { node } => GraphError::CycleDetected { node: *node },
        }
    }
}

/// The view of a result whose success value is a plain value.
pub open spec fn result_view<T>(r: Result<T, GraphError>) -> Result<T, ErrorModel> {
    match r {
        Ok(v) => Ok(v),
        Err(e) => Err(e@),
    }
}

} // verus!
