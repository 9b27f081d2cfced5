//! The control-flow flattening transform.
//!
//! [`flatten_block`] rewrites a structured statement tree into one linear,
//! goto-addressable instruction sequence: every nested block is relocated to
//! the end of the top-level sequence and its original position is replaced
//! by a single-statement block holding one `Goto`, or left empty when the
//! nested block was empty (fall through).  The interpreter advances its
//! program counter by one after every instruction, so every encoded jump
//! target is stored as *(intended destination index − 1)*.

use vstd::prelude::*;

use crate::ast::{block_view, Statement, StatementBlock, StatementView};
use crate::span::{Span, Spanned};

verus! {

broadcast use vstd::std_specs::vec::group_vec_axioms;

// ---------------------------------------------------------------------------
// The measure that the transform shrinks: nested statements count toward the
// size of the statement that owns them.
// ---------------------------------------------------------------------------

/// The number of statement nodes in a statement, nested blocks included.
pub open spec fn stmt_size(s: Spanned<StatementView>) -> nat
    decreases s,
{
    match s.inner {
        StatementView::If { cond_expr, if_true, if_false } => 1 + block_size(if_true)
            + block_size(if_false),
        _ => 1,
    }
}

/// The number of statement nodes in a block, nested blocks included.
pub open spec fn block_size(b: Seq<Spanned<StatementView>>) -> nat
    decreases b,
{
    if b.len() == 0 {
        0
    } else {
        block_size(b.drop_last()) + stmt_size(b.last())
    }
}

/// The size of the part of the sequence that the transform has not processed
/// yet.
pub open spec fn work_left(s: Seq<Spanned<StatementView>>, i: int) -> nat {
    block_size(s.skip(i))
}

proof fn lemma_block_size_append(a: Seq<Spanned<StatementView>>, b: Seq<Spanned<StatementView>>)
    ensures
        block_size(a + b) == block_size(a) + block_size(b),
    decreases b,
{
    if b.len() == 0 {
        assert(a + b =~= a);
    } else {
        lemma_block_size_append(a, b.drop_last());
        assert((a + b).drop_last() =~= a + b.drop_last());
        assert((a + b).last() == b.last());
    }
}

/// Splitting the unprocessed part at its first statement.
proof fn lemma_work_left_step(s: Seq<Spanned<StatementView>>, i: int)
    requires
        0 <= i < s.len(),
    ensures
        work_left(s, i) == stmt_size(s[i]) + work_left(s, i + 1),
{
    assert(s.skip(i) =~= seq![s[i]] + s.skip(i + 1));
    lemma_block_size_append(seq![s[i]], s.skip(i + 1));
    assert(block_size(seq![s[i]]) == stmt_size(s[i])) by {
        let single = seq![s[i]];
        assert(single.last() == s[i]);
        assert(single.drop_last() =~= Seq::<Spanned<StatementView>>::empty());
        assert(block_size(Seq::<Spanned<StatementView>>::empty()) == 0);
        assert(block_size(single) == block_size(single.drop_last()) + stmt_size(single.last()));
    }
}

// ---------------------------------------------------------------------------
// The transform itself, on the ghost mirror.
// ---------------------------------------------------------------------------

/// Relocates one nested block to the end of the top-level sequence.  Returns
/// the grown sequence and the block that takes the nested block's place: a
/// single `Goto` whose stored target is *(start of the relocated statements
/// − 1)*, or an empty block when the nested block was empty.
pub open spec fn reloc_arm(
    top: Seq<Spanned<StatementView>>,
    arm: Seq<Spanned<StatementView>>,
) -> (Seq<Spanned<StatementView>>, Seq<Spanned<StatementView>>) {
    if arm.len() == 0 {
        (top, arm)
    } else {
        (
            top + arm,
            seq![
                Spanned { span: arm[0].span, inner: StatementView::Goto(top.len() - 1) },
            ],
        )
    }
}

/// One step of the transform: when the statement at `i` owns nested blocks,
/// relocate each of them (true arm first) and rewrite the statement to refer
/// to the replacement blocks.
pub open spec fn flatten_step(s: Seq<Spanned<StatementView>>, i: int) -> Seq<
    Spanned<StatementView>,
> {
    match s[i].inner {
        StatementView::If { cond_expr, if_true, if_false } => {
            let (s1, t_arm) = reloc_arm(s, if_true);
            let (s2, f_arm) = reloc_arm(s1, if_false);
            s2.update(
                i,
                Spanned {
                    span: s[i].span,
                    inner: StatementView::If { cond_expr, if_true: t_arm, if_false: f_arm },
                },
            )
        },
        _ => s,
    }
}

/// The whole transform, from position `i` on.  Statements appended by
/// earlier steps are processed in their turn, so nested blocks of relocated
/// statements are relocated as well.
pub open spec fn flatten_from(s: Seq<Spanned<StatementView>>, i: int) -> Seq<
    Spanned<StatementView>,
>
    decreases work_left(s, i),
    when 0 <= i
    via flatten_from_decreases
{
    if i >= s.len() {
        s
    } else {
        flatten_from(flatten_step(s, i), i + 1)
    }
}

/// The sequence a structured statement sequence flattens to.
pub open spec fn flatten_spec(s: Seq<Spanned<StatementView>>) -> Seq<Spanned<StatementView>> {
    flatten_from(s, 0)
}

/// One step of the transform keeps the statements before and after `i`, and
/// shrinks the measure by at least one.
proof fn lemma_flatten_step(s: Seq<Spanned<StatementView>>, i: int)
    requires
        0 <= i < s.len(),
    ensures
        flatten_step(s, i).len() >= s.len(),
        forall|j: int| 0 <= j < s.len() && j != i ==> flatten_step(s, i)[j] == s[j],
        flatten_step(s, i)[i].span == s[i].span,
        work_left(flatten_step(s, i), i + 1) < work_left(s, i),
{
    lemma_work_left_step(s, i);
    match s[i].inner {
        StatementView::If { cond_expr, if_true, if_false } => {
            let (s1, t_arm) = reloc_arm(s, if_true);
            let (s2, f_arm) = reloc_arm(s1, if_false);
            let s3 = flatten_step(s, i);
            assert(s2.skip(i + 1) =~= s.skip(i + 1) + if_true + if_false);
            assert(s3.skip(i + 1) =~= s2.skip(i + 1));
            lemma_block_size_append(s.skip(i + 1) + if_true, if_false);
            lemma_block_size_append(s.skip(i + 1), if_true);
        },
        _ => {},
    }
}

#[via_fn]
proof fn flatten_from_decreases(s: Seq<Spanned<StatementView>>, i: int) {
    if i < s.len() {
        lemma_flatten_step(s, i);
    }
}

// ---------------------------------------------------------------------------
// Shape of a flattened sequence.
// ---------------------------------------------------------------------------

/// A replacement block as flattening leaves it: empty (fall through), or a
/// single `Goto` whose stored target lies at or after the owning statement's
/// index `i` (the program counter moves strictly forward) and within the
/// sequence of length `n`.
pub open spec fn arm_flat(arm: Seq<Spanned<StatementView>>, i: int, n: int) -> bool {
    ||| arm.len() == 0
    ||| (arm.len() == 1 && (arm[0].inner matches StatementView::Goto(t) && i <= t < n))
}

/// The statement at index `i` of a flattened sequence of length `n` refers
/// to nested blocks only through flat replacement blocks, and jumps only
/// forward.
pub open spec fn stmt_flat(s: StatementView, i: int, n: int) -> bool {
    match s {
        StatementView::If { cond_expr, if_true, if_false } => arm_flat(if_true, i, n) && arm_flat(
            if_false,
            i,
            n,
        ),
        StatementView::Goto(t) => i <= t < n,
        _ => true,
    }
}

/// The whole sequence is in flattened form.  The interpreter relies on this:
/// it makes every jump land in bounds and move the program counter strictly
/// forward, so execution terminates.
pub open spec fn flat_wf(s: Seq<Spanned<StatementView>>) -> bool {
    forall|i: int| 0 <= i < s.len() ==> stmt_flat(#[trigger] s[i].inner, i, s.len() as int)
}

/// The statement holds no `Goto`, at any nesting depth.  The parser never
/// produces one; only flattening does.
pub open spec fn stmt_no_goto(s: StatementView) -> bool
    decreases s,
{
    match s {
        StatementView::If { cond_expr, if_true, if_false } => block_no_goto(if_true)
            && block_no_goto(if_false),
        StatementView::Goto(_) => false,
        _ => true,
    }
}

/// The block holds no `Goto`, at any nesting depth.
pub open spec fn block_no_goto(b: Seq<Spanned<StatementView>>) -> bool
    decreases b,
{
    forall|i: int| 0 <= i < b.len() ==> stmt_no_goto(#[trigger] b[i].inner)
}

/// Flattening a goto-free sequence whose variables are all in `dom` yields a
/// sequence in flattened form whose variables are all in `dom`, at least as
/// long as the input.
pub proof fn lemma_flatten_from_wf(
    s: Seq<Spanned<StatementView>>,
    i: int,
    dom: Set<Seq<char>>,
)
    requires
        0 <= i <= s.len(),
        forall|j: int| 0 <= j < i ==> stmt_flat(#[trigger] s[j].inner, j, s.len() as int),
        forall|j: int| i <= j < s.len() ==> stmt_no_goto(#[trigger] s[j].inner),
        crate::ast::block_vars_declared(s, dom),
    ensures
        flat_wf(flatten_from(s, i)),
        crate::ast::block_vars_declared(flatten_from(s, i), dom),
        flatten_from(s, i).len() >= s.len(),
    decreases work_left(s, i),
{
    if i >= s.len() {
    } else {
        lemma_flatten_step(s, i);
        let s2 = flatten_step(s, i);
        assert forall|j: int| 0 <= j < i + 1 implies stmt_flat(
            #[trigger] s2[j].inner,
            j,
            s2.len() as int,
        ) by {
            if j < i {
                assert(s2[j] == s[j]);
            } else {
                match s[i].inner {
                    StatementView::If { cond_expr, if_true, if_false } => {},
                    _ => {
                        assert(s2[i] == s[i]);
                    },
                }
            }
        }
        assert forall|j: int| i + 1 <= j < s2.len() implies stmt_no_goto(
            #[trigger] s2[j].inner,
        ) by {
            if j < s.len() {
                assert(s2[j] == s[j]);
            } else {
                match s[i].inner {
                    StatementView::If { cond_expr, if_true, if_false } => {
                        assert(stmt_no_goto(s[i].inner));
                        if j < s.len() + if_true.len() {
                            assert(s2[j] == if_true[j - s.len()]);
                        } else {
                            assert(s2[j] == if_false[j - s.len() - if_true.len()]);
                        }
                    },
                    _ => {},
                }
            }
        }
        assert forall|j: int| 0 <= j < s2.len() implies crate::ast::stmt_vars_declared(
            #[trigger] s2[j].inner,
            dom,
        ) by {
            if j < s.len() && j != i {
                assert(s2[j] == s[j]);
            } else if j == i {
                assert(crate::ast::stmt_vars_declared(s[i].inner, dom));
                match s[i].inner {
                    StatementView::If { cond_expr, if_true, if_false } => {
                        let (s1, t_arm) = reloc_arm(s, if_true);
                        let (sb, f_arm) = reloc_arm(s1, if_false);
                        assert forall|k: int| 0 <= k < t_arm.len() implies
                            crate::ast::stmt_vars_declared(#[trigger] t_arm[k].inner, dom) by {
                            assert(t_arm[k].inner is Goto);
                        }
                        assert forall|k: int| 0 <= k < f_arm.len() implies
                            crate::ast::stmt_vars_declared(#[trigger] f_arm[k].inner, dom) by {
                            assert(f_arm[k].inner is Goto);
                        }
                        assert(s2[i].inner == (StatementView::If {
                            cond_expr,
                            if_true: t_arm,
                            if_false: f_arm,
                        }));
                    },
                    _ => {
                        assert(s2[i] == s[i]);
                    },
                }
            } else {
                match s[i].inner {
                    StatementView::If { cond_expr, if_true, if_false } => {
                        assert(crate::ast::stmt_vars_declared(s[i].inner, dom));
                        if j < s.len() + if_true.len() {
                            assert(s2[j] == if_true[j - s.len()]);
                        } else {
                            assert(s2[j] == if_false[j - s.len() - if_true.len()]);
                        }
                    },
                    _ => {},
                }
            }
        }
        lemma_flatten_from_wf(s2, i + 1, dom);
    }
}

/// [`lemma_flatten_from_wf`] for the whole transform.
pub proof fn lemma_flatten_spec_wf(s: Seq<Spanned<StatementView>>, dom: Set<Seq<char>>)
    requires
        block_no_goto(s),
        crate::ast::block_vars_declared(s, dom),
    ensures
        flat_wf(flatten_spec(s)),
        crate::ast::block_vars_declared(flatten_spec(s), dom),
{
    lemma_flatten_from_wf(s, 0, dom);
}

// ---------------------------------------------------------------------------
// Laws of the transform.
// ---------------------------------------------------------------------------

/// A statement that owns no nested block and is no jump: the transform
/// leaves it untouched.
pub open spec fn simple_stmt(s: StatementView) -> bool {
    !(s is If) && !(s is Goto)
}

/// A block of simple statements.
pub open spec fn simple_block(b: Seq<Spanned<StatementView>>) -> bool {
    forall|i: int| 0 <= i < b.len() ==> simple_stmt(#[trigger] b[i].inner)
}

/// The transform leaves a region of simple statements unchanged.
proof fn lemma_flatten_from_simple(s: Seq<Spanned<StatementView>>, i: int)
    requires
        0 <= i <= s.len(),
        forall|j: int| i <= j < s.len() ==> !((#[trigger] s[j].inner) is If),
    ensures
        flatten_from(s, i) == s,
    decreases s.len() - i,
{
    if i < s.len() {
        assert(flatten_step(s, i) == s);
        lemma_flatten_from_simple(s, i + 1);
    }
}

/// Walking the transform across a region of simple statements changes
/// nothing but the position.
proof fn lemma_flatten_from_prefix(s: Seq<Spanned<StatementView>>, i: int, k: int)
    requires
        0 <= i <= k <= s.len(),
        forall|j: int| i <= j < k ==> !((#[trigger] s[j].inner) is If),
    ensures
        flatten_from(s, i) == flatten_from(s, k),
    decreases k - i,
{
    if i < k {
        assert(flatten_step(s, i) == s);
        lemma_flatten_from_prefix(s, i + 1, k);
    }
}

/// Law: flattening relocates a branch's bodies.  For a branch with
/// non-empty true and false bodies of simple statements, standing among
/// simple statements, both bodies appear once each after the original
/// sequence — true body first — and each arm of the branch becomes a single
/// `Goto` whose stored target is *(relocated start index − 1)*.
pub proof fn lemma_flatten_if_round_trip(
    pre: Seq<Spanned<StatementView>>,
    sp: Span,
    cond: Spanned<crate::ast::IntExprView>,
    t: Seq<Spanned<StatementView>>,
    f: Seq<Spanned<StatementView>>,
    post: Seq<Spanned<StatementView>>,
)
    requires
        t.len() > 0,
        f.len() > 0,
        simple_block(pre),
        simple_block(post),
        simple_block(t),
        simple_block(f),
    ensures
        ({
            let stmt = Spanned {
                span: sp,
                inner: StatementView::If { cond_expr: cond, if_true: t, if_false: f },
            };
            let input = pre + seq![stmt] + post;
            let n = input.len() as int;
            let rewritten = Spanned {
                span: sp,
                inner: StatementView::If {
                    cond_expr: cond,
                    if_true: seq![
                        Spanned { span: t[0].span, inner: StatementView::Goto(n - 1) },
                    ],
                    if_false: seq![
                        Spanned {
                            span: f[0].span,
                            inner: StatementView::Goto(n + t.len() - 1),
                        },
                    ],
                },
            };
            flatten_spec(input) == pre + seq![rewritten] + post + t + f
        }),
{
    let stmt = Spanned {
        span: sp,
        inner: StatementView::If { cond_expr: cond, if_true: t, if_false: f },
    };
    let input = pre + seq![stmt] + post;
    let n = input.len() as int;
    let i = pre.len() as int;
    assert forall|j: int| 0 <= j < i implies !((#[trigger] input[j].inner) is If) by {
        assert(input[j] == pre[j]);
    }
    lemma_flatten_from_prefix(input, 0, i);
    assert(input[i] == stmt);
    let s2 = flatten_step(input, i);
    let rewritten = Spanned {
        span: sp,
        inner: StatementView::If {
            cond_expr: cond,
            if_true: seq![Spanned { span: t[0].span, inner: StatementView::Goto(n - 1) }],
            if_false: seq![
                Spanned { span: f[0].span, inner: StatementView::Goto(n + t.len() - 1) },
            ],
        },
    };
    let expected = pre + seq![rewritten] + post + t + f;
    assert(s2 =~= expected);
    assert forall|j: int| i + 1 <= j < expected.len() implies !((#[trigger] expected[j].inner)
        is If) by {
        if j < n {
            assert(expected[j] == post[j - i - 1]);
        } else if j < n + t.len() {
            assert(expected[j] == t[j - n]);
        } else {
            assert(expected[j] == f[j - n - t.len()]);
        }
    }
    lemma_flatten_from_simple(expected, i + 1);
}

/// Law: flattening a branch with an empty arm leaves that arm empty, so
/// that executing it falls through to the statement after the branch.  The
/// non-empty arm is relocated as usual.
pub proof fn lemma_flatten_if_empty_arm(
    pre: Seq<Spanned<StatementView>>,
    sp: Span,
    cond: Spanned<crate::ast::IntExprView>,
    t: Seq<Spanned<StatementView>>,
    post: Seq<Spanned<StatementView>>,
)
    requires
        t.len() > 0,
        simple_block(pre),
        simple_block(post),
        simple_block(t),
    ensures
        ({
            let stmt = Spanned {
                span: sp,
                inner: StatementView::If {
                    cond_expr: cond,
                    if_true: t,
                    if_false: Seq::empty(),
                },
            };
            let input = pre + seq![stmt] + post;
            let n = input.len() as int;
            let rewritten = Spanned {
                span: sp,
                inner: StatementView::If {
                    cond_expr: cond,
                    if_true: seq![
                        Spanned { span: t[0].span, inner: StatementView::Goto(n - 1) },
                    ],
                    if_false: Seq::empty(),
                },
            };
            flatten_spec(input) == pre + seq![rewritten] + post + t
        }),
{
    let stmt = Spanned {
        span: sp,
        inner: StatementView::If { cond_expr: cond, if_true: t, if_false: Seq::empty() },
    };
    let input = pre + seq![stmt] + post;
    let n = input.len() as int;
    let i = pre.len() as int;
    assert forall|j: int| 0 <= j < i implies !((#[trigger] input[j].inner) is If) by {
        assert(input[j] == pre[j]);
    }
    lemma_flatten_from_prefix(input, 0, i);
    assert(input[i] == stmt);
    let s2 = flatten_step(input, i);
    let rewritten = Spanned {
        span: sp,
        inner: StatementView::If {
            cond_expr: cond,
            if_true: seq![Spanned { span: t[0].span, inner: StatementView::Goto(n - 1) }],
            if_false: Seq::empty(),
        },
    };
    let expected = pre + seq![rewritten] + post + t;
    assert(s2 =~= expected);
    assert forall|j: int| i + 1 <= j < expected.len() implies !((#[trigger] expected[j].inner)
        is If) by {
        if j < n {
            assert(expected[j] == post[j - i - 1]);
        } else {
            assert(expected[j] == t[j - n]);
        }
    }
    lemma_flatten_from_simple(expected, i + 1);
}

// ---------------------------------------------------------------------------
// The executable transform.
// ---------------------------------------------------------------------------

/// `block_view` distributes over concatenation.
proof fn lemma_block_view_append(a: Seq<Spanned<Statement>>, b: Seq<Spanned<Statement>>)
    ensures
        block_view(a + b) == block_view(a) + block_view(b),
    decreases b,
{
    if b.len() == 0 {
        assert(a + b =~= a);
        assert(block_view(a) + block_view(b) =~= block_view(a));
    } else {
        lemma_block_view_append(a, b.drop_last());
        assert((a + b).drop_last() =~= a + b.drop_last());
        assert((a + b).last() == b.last());
        assert(block_view(a + b) =~= block_view(a) + block_view(b));
    }
}

/// `block_view` commutes with updating one element.
proof fn lemma_block_view_update(s: Seq<Spanned<Statement>>, i: int, v: Spanned<Statement>)
    requires
        0 <= i < s.len(),
    ensures
        block_view(s.update(i, v)) == block_view(s).update(i, v@),
    decreases s,
{
    crate::ast::lemma_block_view_len(s);
    crate::ast::lemma_block_view_len(s.update(i, v));
    let su = s.update(i, v);
    assert forall|j: int| 0 <= j < s.len() implies block_view(su)[j] == block_view(s).update(
        i,
        v@,
    )[j] by {
        assert(block_view(su)[j] == su[j]@);
        assert(block_view(s)[j] == s[j]@);
    }
    assert(block_view(s.update(i, v)) =~= block_view(s).update(i, v@));
}

/// Moves the statements of `arm` to the end of `top` and returns the block
/// that stands in the arm's place: one `Goto` to the relocated statements,
/// or an empty block when the arm was empty.
fn relocate_arm(top: &mut StatementBlock, arm: StatementBlock) -> (replacement: StatementBlock)
    requires
        old(top).len() >= 1,
    ensures
        (block_view(final(top)@), block_view(replacement@)) == reloc_arm(
            block_view(old(top)@),
            block_view(arm@),
        ),
        final(top).len() >= old(top).len(),
{
    proof {
        crate::ast::lemma_block_view_len(arm@);
        crate::ast::lemma_block_view_len(top@);
    }
    if arm.len() == 0 {
        arm
    } else {
        let target = top.len() - 1;
        let span = arm[0].span;
        proof {
            assert(block_view(arm@)[0] == arm@[0]@);
        }
        let mut arm = arm;
        let ghost arm_seq = arm@;
        let ghost top_seq = top@;
        top.append(&mut arm);
        proof {
            lemma_block_view_append(top_seq, arm_seq);
        }
        let mut replacement: StatementBlock = Vec::new();
        replacement.push(Spanned { span, inner: Statement::Goto(target) });
        proof {
            crate::ast::lemma_block_view_len(replacement@);
            assert(block_view(replacement@)[0] == replacement@[0]@);
            assert(block_view(replacement@) =~= seq![
                Spanned { span, inner: StatementView::Goto(target as int) },
            ]);
        }
        replacement
    }
}

/// Flattens a statement tree in place, as [`flatten_spec`] describes.
pub fn flatten_block(block: &mut StatementBlock)
    ensures
        block_view(final(block)@) == flatten_spec(block_view(old(block)@)),
{
    let ghost orig = block_view(old(block)@);
    let mut i: usize = 0;
    proof {
        crate::ast::lemma_block_view_len(block@);
    }
    while i < block.len()
        invariant
            i <= block.len(),
            block_view(block@).len() == block@.len(),
            flatten_from(block_view(block@), i as int) == flatten_spec(orig),
        decreases work_left(block_view(block@), i as int),
    {
        let ghost pre = block_view(block@);
        let ghost pre_vec = block@;
        proof {
            lemma_flatten_step(pre, i as int);
        }
        let is_branch = match &block[i].inner {
            Statement::If { .. } => true,
            _ => false,
        };
        proof {
            crate::ast::lemma_block_view_len(block@);
            assert(pre[i as int] == pre_vec[i as int]@);
            crate::ast::lemma_stmt_view_if(pre_vec[i as int].inner);
        }
        if is_branch {
            let mut stmt = Spanned { span: Span { start: 0, end: 0 }, inner: Statement::End };
            core::mem::swap(&mut stmt, &mut block[i]);
            match stmt.inner {
                Statement::If { cond_expr, if_true, if_false } => {
                    proof {
                        lemma_block_view_update(
                            pre_vec,
                            i as int,
                            Spanned { span: Span { start: 0, end: 0 }, inner: Statement::End },
                        );
                    }
                    let t_arm = relocate_arm(block, if_true);
                    let f_arm = relocate_arm(block, if_false);
                    let ghost mid_vec = block@;
                    let rewritten = Spanned {
                        span: stmt.span,
                        inner: Statement::If { cond_expr, if_true: t_arm, if_false: f_arm },
                    };
                    block[i] = rewritten;
                    proof {
                        lemma_block_view_update(mid_vec, i as int, rewritten);
                        // The update at `i` commutes with the relocations,
                        // which only append.
                        assert(block_view(block@) =~= flatten_step(pre, i as int));
                        crate::ast::lemma_block_view_len(block@);
                    }
                },
                _ => {
                    proof {
                        assert(false);
                    }
                },
            }
        } else {
            proof {
                assert(block_view(block@) == flatten_step(pre, i as int));
            }
        }
        i = i + 1;
    }
    proof {
        assert(flatten_from(block_view(block@), i as int) == block_view(block@));
    }
}

} // verus!
