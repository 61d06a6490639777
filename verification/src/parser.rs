//! The tree builder: turns the token stream into an ordered sequence of
//! operation nodes, collapsing each bracket pair into a `Loop` node holding
//! its nested sequence. Malformed bracket nesting fails here, before any
//! code generation starts.

use vstd::prelude::*;

use crate::ast::Node;
use crate::lexer::Token;

verus! {

/// A failure of the tree builder.
#[derive(PartialEq, Eq, Structural, Debug, Clone, Copy)]
pub enum ParseError {
    /// A closing bracket with no open bracket to match it.
    UnexpectedLoopEnd,
    /// The input ended inside an unclosed loop.
    UnexpectedEndOfInput,
}

/// The tokens a tree prints back to: each leaf its own symbol, a loop its
/// body between one bracket pair.
pub open spec fn toks_of_node(n: Node) -> Seq<Token>
    decreases n,
{
    match n {
        Node::IncrementPointer => seq![Token::IncPtr],
        Node::DecrementPointer => seq![Token::DecPtr],
        Node::Increment => seq![Token::Inc],
        Node::Decrement => seq![Token::Dec],
        Node::PrintChar => seq![Token::Print],
        Node::ReadChar => seq![Token::Read],
        Node::Loop(body) => seq![Token::LoopStart] + toks_of_seq(body@) + seq![Token::LoopEnd],
    }
}

/// The tokens a sequence of trees prints back to, in order.
pub open spec fn toks_of_seq(ns: Seq<Node>) -> Seq<Token>
    decreases ns,
{
    if ns.len() == 0 {
        Seq::empty()
    } else {
        toks_of_node(ns[0]) + toks_of_seq(ns.subrange(1, ns.len() as int))
    }
}

/// Printing a sequence extended by one tree prints the sequence and then the
/// tree.
pub proof fn lemma_toks_of_seq_snoc(ns: Seq<Node>, n: Node)
    ensures
        toks_of_seq(ns.push(n)) == toks_of_seq(ns) + toks_of_node(n),
    decreases ns.len(),
{
    let full = ns.push(n);
    if ns.len() == 0 {
        reveal_with_fuel(toks_of_seq, 2);
        assert(full[0] == n);
        assert(full.subrange(1, full.len() as int) =~= Seq::<Node>::empty());
        assert(toks_of_seq(full) =~= toks_of_node(n));
        assert(toks_of_seq(ns.push(n)) =~= toks_of_seq(ns) + toks_of_node(n));
    } else {
        assert(full[0] == ns[0]);
        assert(full.subrange(1, full.len() as int) =~= ns.subrange(1, ns.len() as int).push(n));
        lemma_toks_of_seq_snoc(ns.subrange(1, ns.len() as int), n);
        assert(toks_of_seq(full) =~= toks_of_seq(ns) + toks_of_node(n));
    }
}

/// How a token changes the bracket-nesting depth.
pub open spec fn token_depth(t: Token) -> int {
    match t {
        Token::LoopStart => 1,
        Token::LoopEnd => -1,
        _ => 0,
    }
}

/// The bracket-nesting depth at the end of the token sequence: open brackets
/// minus closing brackets.
pub open spec fn nesting_depth(ts: Seq<Token>) -> int
    decreases ts.len(),
{
    if ts.len() == 0 {
        0
    } else {
        nesting_depth(ts.drop_last()) + token_depth(ts.last())
    }
}

/// The brackets of the sequence are well nested: no prefix closes more
/// brackets than it opens, and every bracket is closed by the end.
pub open spec fn well_nested(ts: Seq<Token>) -> bool {
    &&& nesting_depth(ts) == 0
    &&& (forall|k: int| 0 <= k <= ts.len() ==> nesting_depth(ts.subrange(0, k)) >= 0)
}

/// Consuming one more token adds that token's depth change.
proof fn lemma_depth_step(ts: Seq<Token>, i: int)
    requires
        0 <= i < ts.len(),
    ensures
        nesting_depth(ts.subrange(0, i + 1)) == nesting_depth(ts.subrange(0, i)) + token_depth(
            ts[i],
        ),
{
    assert(ts.subrange(0, i + 1).drop_last() =~= ts.subrange(0, i));
    assert(ts.subrange(0, i + 1).last() == ts[i]);
}

/// The tokens of a stack of partially built sequences, bottom first, with
/// one open bracket between adjacent frames.
pub open spec fn toks_of_frames(fs: Seq<Vec<Node>>) -> Seq<Token>
    decreases fs.len(),
{
    if fs.len() == 0 {
        Seq::empty()
    } else if fs.len() == 1 {
        toks_of_seq(fs[0]@)
    } else {
        toks_of_frames(fs.drop_last()) + seq![Token::LoopStart] + toks_of_seq(fs.last()@)
    }
}

/// Appending one finished tree to the top frame appends that tree's tokens.
proof fn lemma_frames_push_node(fs: Seq<Vec<Node>>, g: Vec<Node>, n: Node)
    requires
        fs.len() >= 1,
        g@ == fs.last()@.push(n),
    ensures
        toks_of_frames(fs.update(fs.len() - 1, g)) == toks_of_frames(fs) + toks_of_node(n),
{
    let fs2 = fs.update(fs.len() - 1, g);
    lemma_toks_of_seq_snoc(fs.last()@, n);
    if fs.len() == 1 {
        assert(fs2[0] == g);
        assert(toks_of_frames(fs2) =~= toks_of_frames(fs) + toks_of_node(n));
    } else {
        assert(fs2.drop_last() =~= fs.drop_last());
        assert(fs2.last() == g);
        assert(toks_of_frames(fs2) =~= toks_of_frames(fs) + toks_of_node(n));
    }
}

/// Build the operation tree of a token stream. Succeeds exactly on well
/// nested input, and the tree it builds prints back to exactly the input
/// tokens. A closing bracket with no open bracket to match it fails with
/// `UnexpectedLoopEnd`; an open bracket never closed fails with
/// `UnexpectedEndOfInput`.
#[verifier::loop_isolation(false)]
#[verifier::rlimit(60)]
pub fn parse(tokens: &Vec<Token>) -> (r: Result<Vec<Node>, ParseError>)
    ensures
        r is Ok <==> well_nested(tokens@),
        r matches Ok(ns) ==> toks_of_seq(ns@) == tokens@,
        r == Err::<Vec<Node>, ParseError>(ParseError::UnexpectedLoopEnd) <==> (exists|k: int|
            0 <= k <= tokens@.len() && nesting_depth(tokens@.subrange(0, k)) < 0),
        r == Err::<Vec<Node>, ParseError>(ParseError::UnexpectedEndOfInput) <==> ((forall|k: int|
            0 <= k <= tokens@.len() ==> nesting_depth(tokens@.subrange(0, k)) >= 0)
            && nesting_depth(tokens@) > 0),
{
    let mut stack: Vec<Vec<Node>> = Vec::new();
    stack.push(Vec::new());
    let mut i: usize = 0;
    proof {
        assert(tokens@.subrange(0, 0) =~= Seq::<Token>::empty());
    }
    while i < tokens.len()
        invariant
            1 <= stack@.len(),
            i <= tokens@.len(),
            toks_of_frames(stack@) == tokens@.subrange(0, i as int),
            stack@.len() - 1 == nesting_depth(tokens@.subrange(0, i as int)),
            forall|k: int| 0 <= k <= i ==> nesting_depth(tokens@.subrange(0, k)) >= 0,
        decreases tokens@.len() - i,
    {
        let ghost pre = tokens@.subrange(0, i as int);
        proof {
            lemma_depth_step(tokens@, i as int);
        }
        let t = tokens[i];
        match t {
            Token::LoopStart => {
                let ghost fs = stack@;
                stack.push(Vec::new());
                proof {
                    assert(stack@.drop_last() =~= fs);
                    assert(toks_of_seq(stack@.last()@) =~= Seq::<Token>::empty());
                    assert(toks_of_frames(stack@) == toks_of_frames(fs) + seq![Token::LoopStart]
                        + toks_of_seq(stack@.last()@));
                    assert(toks_of_frames(stack@) =~= pre + seq![Token::LoopStart]);
                    assert(tokens@.subrange(0, i + 1 as int) =~= pre + seq![Token::LoopStart]);
                }
            }
            Token::LoopEnd => {
                if stack.len() == 1 {
                    proof {
                        assert(nesting_depth(tokens@.subrange(0, i + 1 as int)) < 0);
                    }
                    return Err(ParseError::UnexpectedLoopEnd);
                }
                let ghost fs = stack@;
                let f = match stack.pop() {
                    Some(f) => f,
                    None => {
                        proof {
                            assert(false);
                        }
                        Vec::new()
                    }
                };
                let li = stack.len() - 1;
                let ghost fs1 = stack@;
                stack[li].push(Node::Loop(f));
                proof {
                    assert(stack@ == fs1.update(fs1.len() - 1, stack@.last()));
                    lemma_frames_push_node(fs1, stack@.last(), Node::Loop(f));
                    assert(toks_of_node(Node::Loop(f)) == seq![Token::LoopStart] + toks_of_seq(f@)
                        + seq![Token::LoopEnd]);
                    assert(fs.drop_last() =~= fs1);
                    assert(toks_of_frames(fs) == toks_of_frames(fs1) + seq![Token::LoopStart]
                        + toks_of_seq(f@));
                    assert(toks_of_frames(stack@) =~= pre + seq![Token::LoopEnd]);
                    assert(tokens@.subrange(0, i + 1 as int) =~= pre + seq![Token::LoopEnd]);
                }
            }
            _ => {
                let n = match t {
                    Token::Inc => Node::Increment,
                    Token::Dec => Node::Decrement,
                    Token::IncPtr => Node::IncrementPointer,
                    Token::DecPtr => Node::DecrementPointer,
                    Token::Print => Node::PrintChar,
                    _ => Node::ReadChar,
                };
                let ghost fs = stack@;
                let li = stack.len() - 1;
                stack[li].push(n);
                proof {
                    assert(stack@ == fs.update(fs.len() - 1, stack@.last()));
                    lemma_frames_push_node(fs, stack@.last(), n);
                    assert(toks_of_node(n) =~= seq![t]);
                    assert(toks_of_frames(stack@) =~= pre + seq![t]);
                    assert(tokens@.subrange(0, i + 1 as int) =~= pre + seq![t]);
                }
            }
        }
        i = i + 1;
    }
    proof {
        assert(tokens@.subrange(0, tokens@.len() as int) =~= tokens@);
    }
    if stack.len() == 1 {
        let f = match stack.pop() {
            Some(f) => f,
            None => {
                proof {
                    assert(false);
                }
                Vec::new()
            }
        };
        Ok(f)
    } else {
        Err(ParseError::UnexpectedEndOfInput)
    }
}

} // verus!
