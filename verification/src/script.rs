//! The record of what generation asks of a block-structured text buffer,
//! and the nesting discipline that such a record must keep.

use vstd::prelude::*;

verus! {

/// One request to the text buffer.
#[derive(Debug, PartialEq, Eq)]
pub enum Emit {
    /// Write a header and open a block under it.
    StartBlock(String),
    /// Close the open block and open another under a header, at the same
    /// depth.
    RestartBlock(String),
    /// Write one line at the current depth.
    WriteLine(String),
    /// Close the block opened last.
    EndBlock,
}

/// What an `Emit` stands for.
pub ghost enum Step {
    Open(Seq<char>),
    Reopen(Seq<char>),
    Line(Seq<char>),
    Close,
}

impl View for Emit {
    type V = Step;

    open spec fn view(&self) -> Step {
        match self {
            Emit::StartBlock(header) => Step::Open(header@),
            Emit::RestartBlock(header) => Step::Reopen(header@),
            Emit::WriteLine(text) => Step::Line(text@),
            Emit::EndBlock => Step::Close,
        }
    }
}

/// The steps that a list of requests stands for, in the same order.
pub open spec fn steps_of(ops: Seq<Emit>) -> Seq<Step> {
    ops.map_values(|e: Emit| e@)
}

/// How many blocks one step opens.
pub open spec fn opens(step: Step) -> nat {
    match step {
        Step::Open(_) | Step::Reopen(_) => 1,
        _ => 0,
    }
}

/// How many blocks one step closes.
pub open spec fn closes(step: Step) -> nat {
    match step {
        Step::Close | Step::Reopen(_) => 1,
        _ => 0,
    }
}

/// The number of block openings in `s`.
pub open spec fn opened(s: Seq<Step>) -> nat
    decreases s.len(),
{
    if s.len() == 0 {
        0
    } else {
        opened(s.drop_last()) + opens(s.last())
    }
}

/// The number of block closings in `s`.
pub open spec fn closed(s: Seq<Step>) -> nat
    decreases s.len(),
{
    if s.len() == 0 {
        0
    } else {
        closed(s.drop_last()) + closes(s.last())
    }
}

/// The number of blocks that are open after `s`, relative to its start.
pub open spec fn depth(s: Seq<Step>) -> int {
    opened(s) - closed(s)
}

/// Started with `base` blocks open, `s` never closes a block that is not
/// open.
pub open spec fn never_underflows(s: Seq<Step>, base: int) -> bool {
    forall|k: int| 0 <= k < s.len() && closes(s[k]) == 1 ==> base + #[trigger] depth(s.take(k)) >= 1
}

/// Every closing in `s` meets an open block, and no block stays open.
pub open spec fn well_nested(s: Seq<Step>) -> bool {
    opened(s) == closed(s) && never_underflows(s, 0)
}

/// A body inside a block of its own: the opening under `header`, the body,
/// the closing.
pub open spec fn block(header: Seq<char>, body: Seq<Step>) -> Seq<Step> {
    seq![Step::Open(header)] + body + seq![Step::Close]
}

/// A block in two parts: the opening under `header`, the first part, the
/// reopening under `middle`, the second part, the closing.
pub open spec fn split_block(
    header: Seq<char>,
    first: Seq<Step>,
    middle: Seq<char>,
    second: Seq<Step>,
) -> Seq<Step> {
    seq![Step::Open(header)] + first + seq![Step::Reopen(middle)] + second + seq![Step::Close]
}

/// Openings and closings of two parts add up.
pub proof fn lemma_counts_add(a: Seq<Step>, b: Seq<Step>)
    ensures
        opened(a + b) == opened(a) + opened(b),
        closed(a + b) == closed(a) + closed(b),
        depth(a + b) == depth(a) + depth(b),
    decreases b.len(),
{
    if b.len() == 0 {
        assert(a + b =~= a);
    } else {
        assert((a + b).drop_last() =~= a + b.drop_last());
        lemma_counts_add(a, b.drop_last());
    }
}

/// A sequence of one step counts that step.
pub proof fn lemma_counts_single(step: Step)
    ensures
        opened(seq![step]) == opens(step),
        closed(seq![step]) == closes(step),
{
    let s = seq![step];
    assert(s.drop_last() =~= Seq::<Step>::empty());
    assert(opened(s.drop_last()) == 0);
    assert(closed(s.drop_last()) == 0);
}

/// Two parts in a row never underflow where the first does not and the
/// second does not from the depth that the first leaves.
pub proof fn lemma_underflow_add(a: Seq<Step>, b: Seq<Step>, base: int)
    requires
        never_underflows(a, base),
        never_underflows(b, base + depth(a)),
    ensures
        never_underflows(a + b, base),
{
    let s = a + b;
    assert forall|k: int| 0 <= k < s.len() && closes(s[k]) == 1 implies base + #[trigger] depth(
        s.take(k),
    ) >= 1 by {
        if k < a.len() {
            assert(s.take(k) =~= a.take(k));
            assert(s[k] == a[k]);
        } else {
            let j = k - a.len();
            assert(s.take(k) =~= a + b.take(j));
            assert(s[k] == b[j]);
            lemma_counts_add(a, b.take(j));
            assert(base + depth(a) + depth(b.take(j)) >= 1);
        }
    }
}

/// The empty sequence is well nested.
pub proof fn lemma_nested_empty()
    ensures
        well_nested(Seq::<Step>::empty()),
{
}

/// A single line is well nested.
pub proof fn lemma_nested_line(text: Seq<char>)
    ensures
        well_nested(seq![Step::Line(text)]),
{
    lemma_counts_single(Step::Line(text));
}

/// Two well-nested parts in a row are well nested.
pub proof fn lemma_nested_add(a: Seq<Step>, b: Seq<Step>)
    requires
        well_nested(a),
        well_nested(b),
    ensures
        well_nested(a + b),
{
    lemma_counts_add(a, b);
    lemma_underflow_add(a, b, 0);
}

/// What never underflows from one depth never underflows from a greater
/// one.
pub proof fn lemma_underflow_deeper(s: Seq<Step>, base: int, deeper: int)
    requires
        never_underflows(s, base),
        base <= deeper,
    ensures
        never_underflows(s, deeper),
{
    assert forall|k: int| 0 <= k < s.len() && closes(s[k]) == 1 implies deeper + #[trigger] depth(
        s.take(k),
    ) >= 1 by {
        assert(base + depth(s.take(k)) >= 1);
    }
}

/// A well-nested body between an opening and a closing is well nested.
pub proof fn lemma_nested_block(header: Seq<char>, body: Seq<Step>)
    requires
        well_nested(body),
    ensures
        well_nested(block(header, body)),
{
    let open = seq![Step::Open(header)];
    let close = seq![Step::Close];
    lemma_counts_single(Step::Open(header));
    lemma_counts_single(Step::Close);
    assert(never_underflows(open, 0));
    lemma_underflow_deeper(body, 0, 1);
    lemma_underflow_add(open, body, 0);
    lemma_counts_add(open, body);
    assert(never_underflows(close, 1)) by {
        assert(close.take(0) =~= Seq::<Step>::empty());
    }
    lemma_underflow_add(open + body, close, 0);
    lemma_counts_add(open + body, close);
}

/// A block whose first part is closed and reopened for a second part is
/// well nested where both parts are.
pub proof fn lemma_nested_split_block(
    header: Seq<char>,
    first: Seq<Step>,
    middle: Seq<char>,
    second: Seq<Step>,
)
    requires
        well_nested(first),
        well_nested(second),
    ensures
        well_nested(split_block(header, first, middle, second)),
{
    let open = seq![Step::Open(header)];
    let reopen = seq![Step::Reopen(middle)];
    let close = seq![Step::Close];
    lemma_counts_single(Step::Open(header));
    lemma_counts_single(Step::Reopen(middle));
    lemma_counts_single(Step::Close);
    assert(never_underflows(open, 0));
    lemma_underflow_deeper(first, 0, 1);
    lemma_underflow_add(open, first, 0);
    lemma_counts_add(open, first);
    assert(never_underflows(reopen, 1)) by {
        assert(reopen.take(0) =~= Seq::<Step>::empty());
    }
    lemma_underflow_add(open + first, reopen, 0);
    lemma_counts_add(open + first, reopen);
    lemma_underflow_deeper(second, 0, 1);
    lemma_underflow_add(open + first + reopen, second, 0);
    lemma_counts_add(open + first + reopen, second);
    assert(never_underflows(close, 1)) by {
        assert(close.take(0) =~= Seq::<Step>::empty());
    }
    lemma_underflow_add(open + first + reopen + second, close, 0);
    lemma_counts_add(open + first + reopen + second, close);
}

/// The requests of one generation run, in the order in which they were
/// made.
#[derive(Debug, PartialEq, Eq)]
pub struct Script {
    pub ops: Vec<Emit>,
}

impl View for Script {
    type V = Seq<Step>;

    open spec fn view(&self) -> Seq<Step> {
        steps_of(self.ops@)
    }
}

impl Script {
    /// A script without requests.
    pub fn new() -> (res: Script)
        ensures
            res@ == Seq::<Step>::empty(),
    {
        let res = Script { ops: Vec::new() };
        assert(res@ =~= Seq::<Step>::empty());
        res
    }

    /// Records the opening of a block under `header`.
    pub fn start_block(&mut self, header: &str)
        ensures
            final(self)@ == old(self)@.push(Step::Open(header@)),
    {
        self.ops.push(Emit::StartBlock(header.to_owned()));
        assert(self@ =~= old(self)@.push(Step::Open(header@)));
    }

    /// Records that the open block is closed and another opened under
    /// `header`.
    pub fn restart_block(&mut self, header: &str)
        ensures
            final(self)@ == old(self)@.push(Step::Reopen(header@)),
    {
        self.ops.push(Emit::RestartBlock(header.to_owned()));
        assert(self@ =~= old(self)@.push(Step::Reopen(header@)));
    }

    /// Records one line of text.
    pub fn writeln(&mut self, text: &str)
        ensures
            final(self)@ == old(self)@.push(Step::Line(text@)),
    {
        self.ops.push(Emit::WriteLine(text.to_owned()));
        assert(self@ =~= old(self)@.push(Step::Line(text@)));
    }

    /// Records the closing of the block opened last.
    pub fn end_block(&mut self)
        ensures
            final(self)@ == old(self)@.push(Step::Close),
    {
        self.ops.push(Emit::EndBlock);
        assert(self@ =~= old(self)@.push(Step::Close));
    }

    /// Tells whether every closing meets an open block and none stays open.
    pub fn is_well_nested(&self) -> (res: bool)
        ensures
            res == well_nested(self@),
    {
        let n: usize = self.ops.len();
        let mut open: usize = 0;
        let mut i: usize = 0;
        while i < n
            invariant
                n == self.ops.len(),
                i <= n,
                open == depth(self@.take(i as int)),
                open <= i,
                never_underflows(self@.take(i as int), 0),
            decreases n - i,
        {
            let ghost before = self@.take(i as int);
            let ghost after = self@.take(i + 1);
            proof {
                assert(after.drop_last() =~= before);
                assert(after.last() == self@[i as int]);
            }
            match &self.ops[i] {
                Emit::StartBlock(_) => {
                    open += 1;
                },
                Emit::WriteLine(_) => {},
                Emit::RestartBlock(_) => {
                    if open == 0 {
                        proof {
                            assert(self@.take(i as int) == before);
                        }
                        return false;
                    }
                },
                Emit::EndBlock => {
                    if open == 0 {
                        proof {
                            assert(self@.take(i as int) == before);
                        }
                        return false;
                    }
                    open -= 1;
                },
            }
            proof {
                assert forall|k: int| 0 <= k < after.len() && closes(after[k]) == 1 implies 0
                    + #[trigger] depth(after.take(k)) >= 1 by {
                    if k < i {
                        assert(after.take(k) =~= before.take(k));
                        assert(after[k] == before[k]);
                    } else {
                        assert(after.take(k) =~= before);
                    }
                }
            }
            i += 1;
        }
        proof {
            assert(self@.take(n as int) =~= self@);
        }
        open == 0
    }
}

} // verus!
