//! Per-parse mutable state: node id generation.
//!
//! Created once per parse. Every AST node built during that parse takes
//! its id from here, so ids are handed out in increasing order, starting
//! at 1, and no id is handed out twice.
use crate::ast::{AstNode, NodeId};
use vstd::prelude::*;

verus! {

/// Why a parse did not produce a result.
#[derive(Clone, Copy, PartialEq, Eq, Debug)]
pub enum ParseError {
    /// The input does not match here; the caller may try an alternative.
    Backtrack,
    /// Every `u32` node id has been handed out.
    NodeIdsExhausted,
}

/// Per-parse state. Created for each parse, threaded through every parser.
pub struct ParseContext {
    next_id: u32,
}

impl ParseContext {
    /// The id that the next node will receive.
    pub closed spec fn next(&self) -> nat {
        self.next_id as nat
    }

    pub fn new() -> (r: Self)
        ensures
            r.next() == 1,
    {
        ParseContext { next_id: 1 }
    }

    /// The counter never passes the largest `u32`.
    pub proof fn lemma_next_bound(&self)
        ensures
            self.next() <= u32::MAX,
    {
    }

    /// Wrap `value` in an AST node with a fresh id.
    ///
    /// Fails only when the id space is used up.
    pub fn node<T>(&mut self, value: T) -> (r: Result<AstNode<T>, ParseError>)
        ensures
            old(self).next() < u32::MAX ==> (r matches Ok(n) && n.id.0 == old(self).next()
                && n.node == value && final(self).next() == old(self).next() + 1),
            old(self).next() >= u32::MAX ==> (r == Err::<AstNode<T>, ParseError>(
                ParseError::NodeIdsExhausted) && final(self).next() == old(self).next()),
    {
        if self.next_id == u32::MAX {
            return Err(ParseError::NodeIdsExhausted);
        }
        let id = self.next_id;
        self.next_id = id + 1;
        Ok(AstNode { id: NodeId(id), node: value })
    }
}

} // verus!
