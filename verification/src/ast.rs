//! The operation tree of the source language.

use vstd::prelude::*;

verus! {

/// One operation of the source language. A program is an ordered sequence of
/// operations; `Loop` holds its body as a nested sequence, so a program is a
/// pure tree.
#[derive(PartialEq, Eq, Debug)]
pub enum Node {
    /// Move the tape pointer one cell forward.
    IncrementPointer,
    /// Move the tape pointer one cell backward.
    DecrementPointer,
    /// Add one to the cell under the pointer, wrapping at the cell width.
    Increment,
    /// Subtract one from the cell under the pointer, wrapping.
    Decrement,
    /// Write the cell under the pointer to standard output as one byte.
    PrintChar,
    /// Read one byte from standard input into the cell under the pointer.
    ReadChar,
    /// Run the body repeatedly while the cell under the pointer is nonzero.
    Loop(Vec<Node>),
}

impl Node {
    /// Whether the tree rooted at this node contains a `ReadChar` operation,
    /// at any nesting depth.
    pub open spec fn has_read(self) -> bool
        decreases self,
    {
        match self {
            Node::ReadChar => true,
            Node::Loop(body) => has_read_seq(body@),
            _ => false,
        }
    }
}

/// Whether any tree in the sequence contains a `ReadChar` operation.
pub open spec fn has_read_seq(ns: Seq<Node>) -> bool
    decreases ns,
{
    if ns.len() == 0 {
        false
    } else {
        ns[0].has_read() || has_read_seq(ns.subrange(1, ns.len() as int))
    }
}

/// A sequence contains a read exactly when one of its trees does.
pub proof fn lemma_has_read_seq_index(ns: Seq<Node>)
    ensures
        has_read_seq(ns) <==> (exists|j: int| 0 <= j < ns.len() && ns[j].has_read()),
    decreases ns.len(),
{
    if ns.len() != 0 {
        let sub = ns.subrange(1, ns.len() as int);
        lemma_has_read_seq_index(sub);
        if has_read_seq(ns) {
            if ns[0].has_read() {
                assert(0 <= 0 < ns.len() && ns[0].has_read());
            } else {
                let k = choose|k: int| 0 <= k < sub.len() && sub[k].has_read();
                assert(ns[k + 1] == sub[k]);
                assert(0 <= k + 1 < ns.len() && ns[k + 1].has_read());
            }
        }
        if exists|j: int| 0 <= j < ns.len() && ns[j].has_read() {
            let j = choose|j: int| 0 <= j < ns.len() && ns[j].has_read();
            if j > 0 {
                assert(sub[j - 1] == ns[j]);
                assert(0 <= j - 1 < sub.len() && sub[j - 1].has_read());
            }
        }
    }
}

} // verus!
