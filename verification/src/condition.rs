//! The boolean condition tree and its bounded, non-recursive interpreter.
//!
//! A condition is a finite tree over context attributes. Interpretation is
//! strict: a missing attribute is an error, not a non-match. The interpreter
//! never recurses on the call stack; it drives an explicit work stack of
//! fixed capacity [`EVAL_STACK_CAP`], so termination and absence of aborts
//! hold independently of the host's stack size.

use vstd::prelude::*;

use crate::error::PolicyError;
use crate::fixed_stack::FixedStack;
use crate::value::{Value, ValueModel};

verus! {

/// Capacity of the evaluation work stack. Any condition tree whose depth is
/// at most this bound evaluates without overflow.
pub const EVAL_STACK_CAP: usize = 64;

/// A recursive boolean expression over context attributes.
#[derive(Debug, PartialEq, Eq)]
pub enum Condition {
    /// Always true.
    True,
    /// Always false.
    False,
    /// True iff the context binds `attr` to a value type-strictly equal to
    /// `value`; a missing `attr` is an error.
    Equals { attr: String, value: Value },
    /// True iff the context binds `attr` to a value not type-strictly equal
    /// to `value`; a missing `attr` is still an error, not an inequality.
    NotEquals { attr: String, value: Value },
    /// Short-circuit conjunction: the right branch is not evaluated when the
    /// left is false.
    And(Box<Condition>, Box<Condition>),
    /// Short-circuit disjunction: the right branch is not evaluated when the
    /// left is true.
    Or(Box<Condition>, Box<Condition>),
    /// Logical negation.
    Not(Box<Condition>),
}

/// The model of a request context: ordered `(key, value)` bindings.
pub type ContextModel = Seq<(Seq<char>, ValueModel)>;

/// First-occurrence lookup: on duplicate keys the earliest binding wins.
pub open spec fn ctx_lookup(ctx: ContextModel, key: Seq<char>) -> Option<ValueModel>
    decreases ctx.len(),
{
    if ctx.len() == 0 {
        None
    } else if ctx[0].0 == key {
        Some(ctx[0].1)
    } else {
        ctx_lookup(ctx.skip(1), key)
    }
}

/// What interpreting a condition yields: a boolean, or the name of the first
/// missing attribute the (short-circuiting, left-to-right) interpretation
/// touched.
pub enum CondVerdict {
    Decided(bool),
    Missing(Seq<char>),
}

impl Condition {
    /// Depth of the tree: length of the longest root-to-leaf path; a bare
    /// leaf has depth 1.
    pub open spec fn spec_depth(self) -> nat
        decreases self,
    {
        match self {
            Condition::And(l, r) | Condition::Or(l, r) => 1 + if l.spec_depth()
                >= r.spec_depth() {
                l.spec_depth()
            } else {
                r.spec_depth()
            },
            Condition::Not(c) => 1 + c.spec_depth(),
            _ => 1,
        }
    }

    /// Number of nodes in the tree.
    pub open spec fn spec_size(self) -> nat
        decreases self,
    {
        match self {
            Condition::And(l, r) | Condition::Or(l, r) => 1 + l.spec_size() + r.spec_size(),
            Condition::Not(c) => 1 + c.spec_size(),
            _ => 1,
        }
    }

    /// The meaning of a condition under a context: strict left-to-right,
    /// short-circuit interpretation.
    pub open spec fn spec_eval(self, ctx: ContextModel) -> CondVerdict
        decreases self,
    {
        match self {
            Condition::True => CondVerdict::Decided(true),
            Condition::False => CondVerdict::Decided(false),
            Condition::Equals { attr, value } => match ctx_lookup(ctx, attr@) {
                Option::None => CondVerdict::Missing(attr@),
                Option::Some(v) => CondVerdict::Decided(v.strict_eq(value@)),
            },
            Condition::NotEquals { attr, value } => match ctx_lookup(ctx, attr@) {
                Option::None => CondVerdict::Missing(attr@),
                Option::Some(v) => CondVerdict::Decided(!v.strict_eq(value@)),
            },
            Condition::And(l, r) => match l.spec_eval(ctx) {
                CondVerdict::Missing(a) => CondVerdict::Missing(a),
                CondVerdict::Decided(b) => if !b {
                    CondVerdict::Decided(false)
                } else {
                    r.spec_eval(ctx)
                },
            },
            Condition::Or(l, r) => match l.spec_eval(ctx) {
                CondVerdict::Missing(a) => CondVerdict::Missing(a),
                CondVerdict::Decided(b) => if b {
                    CondVerdict::Decided(true)
                } else {
                    r.spec_eval(ctx)
                },
            },
            Condition::Not(c) => match c.spec_eval(ctx) {
                CondVerdict::Missing(a) => CondVerdict::Missing(a),
                CondVerdict::Decided(b) => CondVerdict::Decided(!b),
            },
        }
    }

    /// Every tree has depth at least 1.
    pub proof fn lemma_depth_pos(self)
        ensures
            self.spec_depth() >= 1,
    {
        match self {
            Condition::And(l, r) => {},
            Condition::Or(l, r) => {},
            Condition::Not(c) => {},
            _ => {},
        }
    }

    /// The exact depth of the tree, saturating at `usize::MAX`.
    pub fn depth(&self) -> (d: usize)
        ensures
            self.spec_depth() <= usize::MAX ==> d == self.spec_depth(),
            self.spec_depth() > usize::MAX ==> d == usize::MAX,
        decreases *self,
    {
        match self {
            Condition::And(l, r) | Condition::Or(l, r) => {
                let dl = l.depth();
                let dr = r.depth();
                let m = if dl >= dr {
                    dl
                } else {
                    dr
                };
                if m == usize::MAX {
                    usize::MAX
                } else {
                    m + 1
                }
            },
            Condition::Not(c) => {
                let dc = c.depth();
                if dc == usize::MAX {
                    usize::MAX
                } else {
                    dc + 1
                }
            },
            _ => 1,
        }
    }
}

/// First-occurrence lookup in a request context.
fn lookup<'a>(ctx: &'a Vec<(String, Value)>, key: &String) -> (r: Option<&'a Value>)
    ensures
        match r {
            Option::Some(v) => ctx_lookup(ctx.deep_view(), key@) == Some(v@),
            Option::None => ctx_lookup(ctx.deep_view(), key@) is None,
        },
{
    let ghost cm = ctx.deep_view();
    proof {
        assert(cm.skip(0) =~= cm);
    }
    let n = ctx.len();
    let mut j: usize = 0;
    while j < n
        invariant
            cm == ctx.deep_view(),
            n == ctx@.len(),
            j <= n,
            ctx_lookup(cm, key@) == ctx_lookup(cm.skip(j as int), key@),
        decreases n - j,
    {
        let p = &ctx[j];
        proof {
            assert(cm[j as int] == (ctx@[j as int].0@, ctx@[j as int].1.deep_view()));
            assert(cm.skip(j as int)[0] == cm[j as int]);
        }
        if *&p.0 == *key {
            return Some(&p.1);
        }
        proof {
            assert(cm.skip(j as int).skip(1) =~= cm.skip(j as int + 1));
        }
        j = j + 1;
    }
    proof {
        assert(cm.skip(n as int) =~= Seq::<(Seq<char>, ValueModel)>::empty());
    }
    None
}

/// A unit of pending work for the non-recursive interpreter: either a tree
/// still to interpret, or the continuation of a partially interpreted node.
enum Frame<'a> {
    /// Interpret this tree next.
    Eval(&'a Condition),
    /// A conjunction's left branch has just finished; its value is the
    /// accumulator. Interpret the stored right branch only if it was true.
    AndRhs(&'a Condition),
    /// A disjunction's left branch has just finished; interpret the stored
    /// right branch only if it was false.
    OrRhs(&'a Condition),
    /// Negate the accumulator.
    Negate,
}

/// Greatest stack height that finishing this frame's work can still need.
spec fn frame_need(f: Frame<'_>) -> nat {
    match f {
        Frame::Eval(c) => c.spec_depth(),
        Frame::AndRhs(r) => r.spec_depth(),
        Frame::OrRhs(r) => r.spec_depth(),
        Frame::Negate => 1,
    }
}

/// Termination measure of one frame.
spec fn frame_size(f: Frame<'_>) -> nat {
    match f {
        Frame::Eval(c) => 2 * c.spec_size(),
        Frame::AndRhs(r) => 2 * r.spec_size() + 1,
        Frame::OrRhs(r) => 2 * r.spec_size() + 1,
        Frame::Negate => 1,
    }
}

/// Termination measure of the whole work stack.
spec fn stack_measure(s: Seq<Frame<'_>>) -> nat
    decreases s.len(),
{
    if s.len() == 0 {
        0
    } else {
        stack_measure(s.drop_last()) + frame_size(s.last())
    }
}

/// The stack never again grows past the capacity: each frame, counted with
/// the frames below it, still fits.
spec fn stack_bounded(s: Seq<Frame<'_>>) -> bool {
    forall|i: int| 0 <= i < s.len() ==> i + frame_need(#[trigger] s[i]) <= EVAL_STACK_CAP
}

/// What the machine will produce from here: the pending frames, consumed
/// top-down with `acc` as the value of the last finished subtree.
spec fn resume(s: Seq<Frame<'_>>, acc: bool, ctx: ContextModel) -> CondVerdict
    decreases s.len(),
{
    if s.len() == 0 {
        CondVerdict::Decided(acc)
    } else {
        let rest = s.drop_last();
        match s.last() {
            Frame::Eval(c) => match c.spec_eval(ctx) {
                CondVerdict::Missing(a) => CondVerdict::Missing(a),
                CondVerdict::Decided(b) => resume(rest, b, ctx),
            },
            Frame::AndRhs(r) => if !acc {
                resume(rest, false, ctx)
            } else {
                match r.spec_eval(ctx) {
                    CondVerdict::Missing(a) => CondVerdict::Missing(a),
                    CondVerdict::Decided(b) => resume(rest, b, ctx),
                }
            },
            Frame::OrRhs(r) => if acc {
                resume(rest, true, ctx)
            } else {
                match r.spec_eval(ctx) {
                    CondVerdict::Missing(a) => CondVerdict::Missing(a),
                    CondVerdict::Decided(b) => resume(rest, b, ctx),
                }
            },
            Frame::Negate => resume(rest, !acc, ctx),
        }
    }
}

/// One unfolding of [`resume`] at a freshly pushed frame.
proof fn lemma_resume_push<'a>(s: Seq<Frame<'a>>, f: Frame<'a>, acc: bool, ctx: ContextModel)
    ensures
        resume(s.push(f), acc, ctx) == (match f {
            Frame::Eval(c) => match c.spec_eval(ctx) {
                CondVerdict::Missing(a) => CondVerdict::Missing(a),
                CondVerdict::Decided(b) => resume(s, b, ctx),
            },
            Frame::AndRhs(r) => if !acc {
                resume(s, false, ctx)
            } else {
                match r.spec_eval(ctx) {
                    CondVerdict::Missing(a) => CondVerdict::Missing(a),
                    CondVerdict::Decided(b) => resume(s, b, ctx),
                }
            },
            Frame::OrRhs(r) => if acc {
                resume(s, true, ctx)
            } else {
                match r.spec_eval(ctx) {
                    CondVerdict::Missing(a) => CondVerdict::Missing(a),
                    CondVerdict::Decided(b) => resume(s, b, ctx),
                }
            },
            Frame::Negate => resume(s, !acc, ctx),
        }),
{
    assert(s.push(f).last() == f);
    assert(s.push(f).drop_last() =~= s);
}

/// Pushing a frame keeps the whole-stack measure bookkeeping exact.
proof fn lemma_measure_push<'a>(s: Seq<Frame<'a>>, f: Frame<'a>)
    ensures
        stack_measure(s.push(f)) == stack_measure(s) + frame_size(f),
{
    assert(s.push(f).last() == f);
    assert(s.push(f).drop_last() =~= s);
}

/// Pushing a frame that fits keeps the stack within its capacity bound.
proof fn lemma_bounded_push<'a>(s: Seq<Frame<'a>>, f: Frame<'a>)
    requires
        stack_bounded(s),
        s.len() + frame_need(f) <= EVAL_STACK_CAP,
    ensures
        stack_bounded(s.push(f)),
{
    assert forall|i: int| 0 <= i < s.push(f).len() implies i + frame_need(#[trigger] s.push(f)[i])
        <= EVAL_STACK_CAP by {
        if i < s.len() {
            assert(s.push(f)[i] == s[i]);
        } else {
            assert(s.push(f)[i] == f);
        }
    }
}

impl Condition {
    /// Interpret the condition over a context using the fixed-capacity work
    /// stack; callers must have bounded the depth beforehand.
    fn eval_bounded(&self, ctx: &Vec<(String, Value)>) -> (r: Result<bool, PolicyError>)
        requires
            self.spec_depth() <= EVAL_STACK_CAP,
        ensures
            match self.spec_eval(ctx.deep_view()) {
                CondVerdict::Decided(b) => r == Ok::<bool, PolicyError>(b),
                CondVerdict::Missing(a) => r matches Err(PolicyError::AttributeMissing { attr })
                    && attr@ == a,
            },
    {
        let ghost cm = ctx.deep_view();
        let ghost goal = self.spec_eval(cm);
        let mut stack: FixedStack<Frame<'_>, EVAL_STACK_CAP> = FixedStack::new();
        let mut acc: bool = false;
        let ghost empty = Seq::<Frame<'_>>::empty();
        match stack.push(Frame::Eval(self)) {
            Ok(()) => {},
            Err(e) => {
                return Err(e);
            },
        }
        proof {
            assert(stack@ == empty.push(Frame::Eval(self)));
            assert(forall|b: bool| resume(empty, b, cm) == CondVerdict::Decided(b));
            lemma_resume_push(empty, Frame::Eval(self), acc, cm);
            lemma_bounded_push(empty, Frame::Eval(self));
        }
        loop
            invariant
                cm == ctx.deep_view(),
                goal == self.spec_eval(cm),
                stack_bounded(stack@),
                resume(stack@, acc, cm) == goal,
            ensures
                stack@.len() == 0,
                resume(stack@, acc, cm) == goal,
            decreases stack_measure(stack@),
        {
            let ghost pre = stack@;
            let fr = match stack.pop() {
                Option::Some(f) => f,
                Option::None => { break ; },
            };
            let ghost cur = stack@;
            proof {
                assert(pre == cur.push(fr));
                lemma_measure_push(cur, fr);
                lemma_resume_push(cur, fr, acc, cm);
                assert(cur.len() + frame_need(fr) <= EVAL_STACK_CAP) by {
                    assert(pre[cur.len() as int] == fr);
                }
                assert(stack_bounded(cur)) by {
                    assert(forall|i: int| 0 <= i < cur.len() ==> cur[i] == pre[i]);
                }
            }
            match fr {
                Frame::Eval(c) => {
                    match c {
                        Condition::True => {
                            acc = true;
                        },
                        Condition::False => {
                            acc = false;
                        },
                        Condition::Equals { attr, value } => {
                            match lookup(ctx, attr) {
                                Option::Some(v) => {
                                    acc = v.strict_eq(value);
                                },
                                Option::None => {
                                    return Err(
                                        PolicyError::AttributeMissing { attr: attr.clone() },
                                    );
                                },
                            }
                        },
                        Condition::NotEquals { attr, value } => {
                            match lookup(ctx, attr) {
                                Option::Some(v) => {
                                    acc = !v.strict_eq(value);
                                },
                                Option::None => {
                                    return Err(
                                        PolicyError::AttributeMissing { attr: attr.clone() },
                                    );
                                },
                            }
                        },
                        Condition::And(l, r) => {
                            proof {
                                l.lemma_depth_pos();
                                r.lemma_depth_pos();
                                lemma_bounded_push(cur, Frame::AndRhs(&**r));
                            }
                            push_must_fit(&mut stack, Frame::AndRhs(&**r));
                            proof {
                                lemma_bounded_push(cur.push(Frame::AndRhs(&**r)), Frame::Eval(&**l));
                            }
                            push_must_fit(&mut stack, Frame::Eval(&**l));
                            proof {
                                lemma_measure_push(cur, Frame::AndRhs(&**r));
                                lemma_measure_push(cur.push(Frame::AndRhs(&**r)), Frame::Eval(&**l));
                                lemma_resume_push(cur.push(Frame::AndRhs(&**r)), Frame::Eval(&**l), acc, cm);
                                assert forall|b: bool|
                                    resume(cur.push(Frame::AndRhs(&**r)), b, cm) == (if !b {
                                        resume(cur, false, cm)
                                    } else {
                                        match r.spec_eval(cm) {
                                            CondVerdict::Missing(a) => CondVerdict::Missing(a),
                                            CondVerdict::Decided(b2) => resume(cur, b2, cm),
                                        }
                                    }) by {
                                    lemma_resume_push(cur, Frame::AndRhs(&**r), b, cm);
                                }
                                assert(resume(stack@, acc, cm) == goal);
                            }
                        },
                        Condition::Or(l, r) => {
                            proof {
                                l.lemma_depth_pos();
                                r.lemma_depth_pos();
                                lemma_bounded_push(cur, Frame::OrRhs(&**r));
                            }
                            push_must_fit(&mut stack, Frame::OrRhs(&**r));
                            proof {
                                lemma_bounded_push(cur.push(Frame::OrRhs(&**r)), Frame::Eval(&**l));
                            }
                            push_must_fit(&mut stack, Frame::Eval(&**l));
                            proof {
                                lemma_measure_push(cur, Frame::OrRhs(&**r));
                                lemma_measure_push(cur.push(Frame::OrRhs(&**r)), Frame::Eval(&**l));
                                lemma_resume_push(cur.push(Frame::OrRhs(&**r)), Frame::Eval(&**l), acc, cm);
                                assert forall|b: bool|
                                    resume(cur.push(Frame::OrRhs(&**r)), b, cm) == (if b {
                                        resume(cur, true, cm)
                                    } else {
                                        match r.spec_eval(cm) {
                                            CondVerdict::Missing(a) => CondVerdict::Missing(a),
                                            CondVerdict::Decided(b2) => resume(cur, b2, cm),
                                        }
                                    }) by {
                                    lemma_resume_push(cur, Frame::OrRhs(&**r), b, cm);
                                }
                                assert(resume(stack@, acc, cm) == goal);
                            }
                        },
                        Condition::Not(c0) => {
                            proof {
                                c0.lemma_depth_pos();
                                lemma_bounded_push(cur, Frame::Negate);
                            }
                            push_must_fit(&mut stack, Frame::Negate);
                            proof {
                                lemma_bounded_push(cur.push(Frame::Negate), Frame::Eval(&**c0));
                            }
                            push_must_fit(&mut stack, Frame::Eval(&**c0));
                            proof {
                                lemma_measure_push(cur, Frame::Negate);
                                lemma_measure_push(cur.push(Frame::Negate), Frame::Eval(&**c0));
                                lemma_resume_push(cur.push(Frame::Negate), Frame::Eval(&**c0), acc, cm);
                                assert forall|b: bool|
                                    resume(cur.push(Frame::Negate), b, cm) == resume(cur, !b, cm) by {
                                    lemma_resume_push(cur, Frame::Negate, b, cm);
                                }
                                assert(resume(stack@, acc, cm) == goal);
                            }
                        },
                    }
                },
                Frame::AndRhs(r) => {
                    if acc {
                        proof {
                            r.lemma_depth_pos();
                            lemma_bounded_push(cur, Frame::Eval(r));
                            lemma_measure_push(cur, Frame::Eval(r));
                            lemma_resume_push(cur, Frame::Eval(r), acc, cm);
                        }
                        push_must_fit(&mut stack, Frame::Eval(r));
                    }
                },
                Frame::OrRhs(r) => {
                    if !acc {
                        proof {
                            r.lemma_depth_pos();
                            lemma_bounded_push(cur, Frame::Eval(r));
                            lemma_measure_push(cur, Frame::Eval(r));
                            lemma_resume_push(cur, Frame::Eval(r), acc, cm);
                        }
                        push_must_fit(&mut stack, Frame::Eval(r));
                    }
                },
                Frame::Negate => {
                    acc = !acc;
                },
            }
        }
        Ok(acc)
    }

    /// Interpret this condition over a context, per the strict semantics:
    /// returns the boolean meaning, `AttributeMissing` for the first absent
    /// attribute touched, or `EvalStackOverflow` iff the tree is deeper than
    /// [`EVAL_STACK_CAP`].
    pub fn eval(&self, ctx: &Vec<(String, Value)>) -> (r: Result<bool, PolicyError>)
        ensures
            self.spec_depth() <= EVAL_STACK_CAP ==> match self.spec_eval(ctx.deep_view()) {
                CondVerdict::Decided(b) => r == Ok::<bool, PolicyError>(b),
                CondVerdict::Missing(a) => r matches Err(PolicyError::AttributeMissing { attr })
                    && attr@ == a,
            },
            self.spec_depth() > EVAL_STACK_CAP ==> r == Err::<bool, PolicyError>(
                PolicyError::EvalStackOverflow { max: EVAL_STACK_CAP },
            ),
    {
        let d = self.depth();
        if d > EVAL_STACK_CAP {
            return Err(PolicyError::EvalStackOverflow { max: EVAL_STACK_CAP });
        }
        self.eval_bounded(ctx)
    }
}

/// Push a frame that the stack bound guarantees to fit.
fn push_must_fit<'a>(stack: &mut FixedStack<Frame<'a>, EVAL_STACK_CAP>, f: Frame<'a>)
    requires
        old(stack)@.len() + frame_need(f) <= EVAL_STACK_CAP,
        frame_need(f) >= 1,
    ensures
        final(stack)@ == old(stack)@.push(f),
{
    match stack.push(f) {
        Ok(()) => {},
        Err(_) => {
            proof {
                assert(false);
            }
        },
    }
}

} // verus!
