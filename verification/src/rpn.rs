use vstd::prelude::*;

use crate::error::DentakuError;
use crate::number::Number;

verus! {

/// One of the four arithmetic operators.
#[derive(Clone, Copy, Debug, PartialEq, Eq, Structural)]
pub enum Operator {
    Add,
    Sub,
    Mul,
    Div,
}

impl Operator {
    /// Binding strength: multiplication and division bind tighter than
    /// addition and subtraction; operators within each pair are equal.
    pub open spec fn spec_precedence(self) -> int {
        match self {
            Operator::Add => 1,
            Operator::Sub => 1,
            Operator::Mul => 2,
            Operator::Div => 2,
        }
    }

    /// Binding strength, for comparison only.
    pub fn precedence(self) -> (p: u8)
        ensures
            p as int == self.spec_precedence(),
    {
        match self {
            Operator::Add => 1,
            Operator::Sub => 1,
            Operator::Mul => 2,
            Operator::Div => 2,
        }
    }

    /// The operator applied to two values, left then right.
    pub open spec fn spec_apply(self, left: Number, right: Number) -> Number {
        match self {
            Operator::Add => left.spec_add(right),
            Operator::Sub => left.spec_sub(right),
            Operator::Mul => left.spec_mul(right),
            Operator::Div => left.spec_div(right),
        }
    }

    /// The operator applied to two values, left then right.
    pub fn apply(self, left: Number, right: Number) -> (r: Number)
        requires
            left.wf(),
            right.wf(),
        ensures
            r == self.spec_apply(left, right),
            r.wf(),
    {
        match self {
            Operator::Add => left.add(right),
            Operator::Sub => left.sub(right),
            Operator::Mul => left.mul(right),
            Operator::Div => left.div(right),
        }
    }
}

/// One token of a formula: an operand value or an operator.
#[derive(Clone, Copy, Debug, PartialEq, Eq, Structural)]
pub enum FormulaElement {
    Operator(Operator),
    Operand(Number),
}

/// An operand token holds a well-formed value; an operator token always
/// is well formed.
pub open spec fn element_wf(e: FormulaElement) -> bool {
    e matches FormulaElement::Operand(v) ==> v.wf()
}

/// Every operand token holds a well-formed value.
pub open spec fn tokens_wf(tokens: Seq<FormulaElement>) -> bool {
    forall|i: int| 0 <= i < tokens.len() ==> element_wf(#[trigger] tokens[i])
}

/// Pops the pending operators that bind at least as tightly as `op`,
/// appending each to the output as it is popped. Returns the remaining
/// stack and the extended output.
pub open spec fn spec_flush(
    stack: Seq<Operator>,
    op: Operator,
    out: Seq<FormulaElement>,
) -> (Seq<Operator>, Seq<FormulaElement>)
    decreases stack.len(),
{
    if stack.len() > 0 && stack.last().spec_precedence() >= op.spec_precedence() {
        spec_flush(stack.drop_last(), op, out.push(FormulaElement::Operator(stack.last())))
    } else {
        (stack, out)
    }
}

/// Drains a pending stack to the output in LIFO order: the top is
/// emitted first.
pub open spec fn spec_drain(stack: Seq<Operator>) -> Seq<FormulaElement>
    decreases stack.len(),
{
    if stack.len() == 0 {
        Seq::empty()
    } else {
        seq![FormulaElement::Operator(stack.last())] + spec_drain(stack.drop_last())
    }
}

/// The shunting-yard conversion: operands go straight to the output; an
/// operator first pops every pending operator that binds at least as
/// tightly (so equal precedence resolves left-to-right), then goes onto
/// the stack. Once the tokens are consumed the stack is drained to the
/// output in LIFO order.
pub open spec fn spec_shunt(
    tokens: Seq<FormulaElement>,
    stack: Seq<Operator>,
    out: Seq<FormulaElement>,
) -> Seq<FormulaElement>
    decreases tokens.len(),
{
    if tokens.len() == 0 {
        out + spec_drain(stack)
    } else {
        match tokens[0] {
            FormulaElement::Operand(_) => spec_shunt(tokens.skip(1), stack, out.push(tokens[0])),
            FormulaElement::Operator(op) => {
                let flushed = spec_flush(stack, op, out);
                spec_shunt(tokens.skip(1), flushed.0.push(op), flushed.1)
            },
        }
    }
}

/// The postfix (RPN) order of an infix token sequence.
pub open spec fn spec_rpn_of(tokens: Seq<FormulaElement>) -> Seq<FormulaElement> {
    spec_shunt(tokens, Seq::empty(), Seq::empty())
}

/// The outcome of running a postfix sequence against a value stack: an
/// operand is pushed; an operator needs two values (else
/// `InsufficientOperands`) and replaces them with `left op right`, where
/// the value pushed later is the right-hand operand; at the end exactly
/// one value must remain (else `MalformedExpression`).
pub open spec fn spec_rpn_run(tokens: Seq<FormulaElement>, stack: Seq<Number>) -> Result<
    Number,
    DentakuError,
>
    decreases tokens.len(),
{
    if tokens.len() == 0 {
        if stack.len() == 1 {
            Ok(stack[0])
        } else {
            Err(DentakuError::MalformedExpression)
        }
    } else {
        match tokens[0] {
            FormulaElement::Operand(v) => spec_rpn_run(tokens.skip(1), stack.push(v)),
            FormulaElement::Operator(op) => {
                if stack.len() < 2 {
                    Err(DentakuError::InsufficientOperands)
                } else {
                    let left = stack[stack.len() - 2];
                    let right = stack[stack.len() - 1];
                    spec_rpn_run(
                        tokens.skip(1),
                        stack.drop_last().drop_last().push(op.spec_apply(left, right)),
                    )
                }
            },
        }
    }
}

/// The value of a postfix sequence, starting from an empty stack.
pub open spec fn spec_calculate_rpn(tokens: Seq<FormulaElement>) -> Result<Number, DentakuError> {
    spec_rpn_run(tokens, Seq::empty())
}

/// Converts an infix token sequence (operand, operator, operand, ...)
/// to postfix order by operator precedence, shunting-yard style.
pub fn convert_infix_to_rpn(infix_formula_token: Vec<FormulaElement>) -> (r: Vec<FormulaElement>)
    ensures
        r@ == spec_rpn_of(infix_formula_token@),
        tokens_wf(infix_formula_token@) ==> tokens_wf(r@),
{
    let ghost all = infix_formula_token@;
    let mut rpn_tokens: Vec<FormulaElement> = Vec::new();
    let mut operator_stack: Vec<Operator> = Vec::new();
    let n = infix_formula_token.len();
    let mut i: usize = 0;
    proof {
        assert(all.skip(0) =~= all);
    }
    while i < n
        invariant
            i <= n,
            n == all.len(),
            infix_formula_token@ == all,
            spec_shunt(all.skip(i as int), operator_stack@, rpn_tokens@) == spec_rpn_of(all),
            tokens_wf(all) ==> tokens_wf(rpn_tokens@),
        decreases n - i,
    {
        let token = infix_formula_token[i];
        proof {
            assert(all.skip(i as int)[0] == all[i as int]);
            assert(all.skip(i as int).skip(1) =~= all.skip(i as int + 1));
        }
        match token {
            FormulaElement::Operand(_) => {
                rpn_tokens.push(token);
            },
            FormulaElement::Operator(op) => {
                let ghost stack0 = operator_stack@;
                let ghost out0 = rpn_tokens@;
                while operator_stack.len() > 0 && operator_stack[operator_stack.len()
                    - 1].precedence() >= op.precedence()
                    invariant
                        spec_flush(operator_stack@, op, rpn_tokens@) == spec_flush(
                            stack0,
                            op,
                            out0,
                        ),
                        tokens_wf(out0) ==> tokens_wf(rpn_tokens@),
                    decreases operator_stack@.len(),
                {
                    let top = operator_stack.pop().unwrap();
                    rpn_tokens.push(FormulaElement::Operator(top));
                }
                proof {
                    assert(spec_flush(operator_stack@, op, rpn_tokens@) == (
                        operator_stack@,
                        rpn_tokens@,
                    ));
                }
                operator_stack.push(op);
            },
        }
        i = i + 1;
    }
    proof {
        assert(all.skip(n as int) =~= Seq::<FormulaElement>::empty());
    }
    while operator_stack.len() > 0
        invariant
            rpn_tokens@ + spec_drain(operator_stack@) == spec_rpn_of(all),
            tokens_wf(all) ==> tokens_wf(rpn_tokens@),
        decreases operator_stack@.len(),
    {
        let ghost stack0 = operator_stack@;
        let ghost out0 = rpn_tokens@;
        let op = operator_stack.pop().unwrap();
        rpn_tokens.push(FormulaElement::Operator(op));
        proof {
            assert(rpn_tokens@ + spec_drain(operator_stack@) =~= out0 + spec_drain(stack0));
        }
    }
    proof {
        assert(rpn_tokens@ + spec_drain(operator_stack@) =~= rpn_tokens@);
    }
    rpn_tokens
}

/// Evaluates a postfix token sequence with a value stack: operands are
/// pushed; an operator pops the right then the left operand and pushes
/// `left op right`. Fails with `InsufficientOperands` when an operator
/// finds fewer than two values, and with `MalformedExpression` when the
/// final stack does not hold exactly one value. Division by zero is not
/// an error: it yields the non-finite value, as floating point yields an
/// infinity or NaN.
pub fn calculate_rpn(formula_tokens: Vec<FormulaElement>) -> (r: Result<Number, DentakuError>)
    requires
        tokens_wf(formula_tokens@),
    ensures
        r == spec_calculate_rpn(formula_tokens@),
        r matches Ok(v) ==> v.wf(),
{
    let ghost all = formula_tokens@;
    let mut stack: Vec<Number> = Vec::new();
    let n = formula_tokens.len();
    let mut i: usize = 0;
    proof {
        assert(all.skip(0) =~= all);
    }
    while i < n
        invariant
            i <= n,
            n == all.len(),
            formula_tokens@ == all,
            tokens_wf(all),
            forall|j: int| 0 <= j < stack@.len() ==> (#[trigger] stack@[j]).wf(),
            spec_rpn_run(all.skip(i as int), stack@) == spec_calculate_rpn(all),
        decreases n - i,
    {
        let token = formula_tokens[i];
        proof {
            assert(all.skip(i as int)[0] == all[i as int]);
            assert(all.skip(i as int).skip(1) =~= all.skip(i as int + 1));
        }
        match token {
            FormulaElement::Operand(v) => {
                stack.push(v);
            },
            FormulaElement::Operator(op) => {
                if stack.len() < 2 {
                    return Err(DentakuError::InsufficientOperands);
                }
                let right = stack.pop().unwrap();
                let left = stack.pop().unwrap();
                let value = op.apply(left, right);
                stack.push(value);
            },
        }
        i = i + 1;
    }
    proof {
        assert(all.skip(n as int) =~= Seq::<FormulaElement>::empty());
    }
    if stack.len() == 1 {
        let v = stack.pop().unwrap();
        Ok(v)
    } else {
        Err(DentakuError::MalformedExpression)
    }
}

/// Converts an infix token sequence to postfix order and evaluates it
/// in one step, as the equals key does.
pub fn convert_and_evaluate(infix_formula_token: Vec<FormulaElement>) -> (r: Result<
    Number,
    DentakuError,
>)
    requires
        tokens_wf(infix_formula_token@),
    ensures
        r == spec_calculate_rpn(spec_rpn_of(infix_formula_token@)),
        r matches Ok(v) ==> v.wf(),
        wf_infix(infix_formula_token@) ==> r is Ok,
{
    proof {
        if wf_infix(infix_formula_token@) {
            lemma_wf_infix_evaluates(infix_formula_token@);
        }
    }
    let rpn = convert_infix_to_rpn(infix_formula_token);
    calculate_rpn(rpn)
}

/// The net stack effect of a token sequence: an operand pushes one
/// value, an operator replaces two by one.
pub open spec fn stack_effect(s: Seq<FormulaElement>) -> int
    decreases s.len(),
{
    if s.len() == 0 {
        0
    } else {
        (if s[0] is Operand {
            1int
        } else {
            -1int
        }) + stack_effect(s.skip(1))
    }
}

/// Whether a postfix sequence never starves the value stack when run
/// with `k` values already on it.
pub open spec fn never_starves(s: Seq<FormulaElement>, k: int) -> bool
    decreases s.len(),
{
    if s.len() == 0 {
        true
    } else {
        match s[0] {
            FormulaElement::Operand(_) => never_starves(s.skip(1), k + 1),
            FormulaElement::Operator(_) => k >= 2 && never_starves(s.skip(1), k - 1),
        }
    }
}

/// A well-formed infix sequence: operand, operator, operand, ...,
/// starting and ending with an operand. `need_operand` says which kind
/// comes next.
pub open spec fn wf_infix_from(s: Seq<FormulaElement>, need_operand: bool) -> bool
    decreases s.len(),
{
    if s.len() == 0 {
        !need_operand
    } else if need_operand {
        s[0] is Operand && wf_infix_from(s.skip(1), false)
    } else {
        s[0] is Operator && wf_infix_from(s.skip(1), true)
    }
}

/// A well-formed infix sequence alternates operand, operator, operand,
/// ... and both starts and ends with an operand.
pub open spec fn wf_infix(s: Seq<FormulaElement>) -> bool {
    wf_infix_from(s, true)
}

/// Appending one token moves the net stack effect by exactly that
/// token's own effect.
proof fn lemma_stack_effect_push(s: Seq<FormulaElement>, x: FormulaElement)
    ensures
        stack_effect(s.push(x)) == stack_effect(s) + (if x is Operand {
            1int
        } else {
            -1int
        }),
    decreases s.len(),
{
    if s.len() == 0 {
        assert(s.push(x)[0] == x);
        assert(s.push(x).skip(1) =~= Seq::<FormulaElement>::empty());
        assert(stack_effect(s.push(x).skip(1)) == 0);
        assert(stack_effect(s) == 0);
        assert(stack_effect(s.push(x)) == (if x is Operand {
            1int
        } else {
            -1int
        }) + stack_effect(s.push(x).skip(1)));
    } else {
        assert(s.push(x)[0] == s[0]);
        assert(s.push(x).skip(1) =~= s.skip(1).push(x));
        lemma_stack_effect_push(s.skip(1), x);
        assert(stack_effect(s.push(x)) == (if s[0] is Operand {
            1int
        } else {
            -1int
        }) + stack_effect(s.skip(1).push(x)));
        assert(stack_effect(s) == (if s[0] is Operand {
            1int
        } else {
            -1int
        }) + stack_effect(s.skip(1)));
    }
}

/// Appending an operand never starves the stack; appending an operator
/// does not either, provided the sequence so far leaves at least two
/// values.
proof fn lemma_never_starves_push(s: Seq<FormulaElement>, k: int, x: FormulaElement)
    requires
        never_starves(s, k),
        x is Operator ==> k + stack_effect(s) >= 2,
    ensures
        never_starves(s.push(x), k),
    decreases s.len(),
{
    if s.len() == 0 {
        assert(s.push(x)[0] == x);
        assert(s.push(x).skip(1) =~= Seq::<FormulaElement>::empty());
        assert(stack_effect(s) == 0);
        assert(never_starves(Seq::<FormulaElement>::empty(), k + 1));
        assert(never_starves(Seq::<FormulaElement>::empty(), k - 1));
    } else {
        assert(s.push(x)[0] == s[0]);
        assert(s.push(x).skip(1) =~= s.skip(1).push(x));
        assert(stack_effect(s) == (if s[0] is Operand {
            1int
        } else {
            -1int
        }) + stack_effect(s.skip(1)));
        match s[0] {
            FormulaElement::Operand(_) => lemma_never_starves_push(s.skip(1), k + 1, x),
            FormulaElement::Operator(_) => lemma_never_starves_push(s.skip(1), k - 1, x),
        }
    }
}

/// A postfix sequence that never starves the stack and leaves exactly
/// one value evaluates without error.
proof fn lemma_rpn_run_ok(s: Seq<FormulaElement>, stack: Seq<Number>)
    requires
        never_starves(s, stack.len() as int),
        stack.len() + stack_effect(s) == 1,
    ensures
        spec_rpn_run(s, stack) is Ok,
    decreases s.len(),
{
    if s.len() > 0 {
        match s[0] {
            FormulaElement::Operand(v) => {
                lemma_rpn_run_ok(s.skip(1), stack.push(v));
            },
            FormulaElement::Operator(op) => {
                let left = stack[stack.len() - 2];
                let right = stack[stack.len() - 1];
                lemma_rpn_run_ok(
                    s.skip(1),
                    stack.drop_last().drop_last().push(op.spec_apply(left, right)),
                );
            },
        }
    }
}

/// Draining a pending stack onto an output that holds one more operand
/// surplus than the stack has operators yields a sequence that never
/// starves and leaves exactly one value.
proof fn lemma_drain_ok(stack: Seq<Operator>, out: Seq<FormulaElement>)
    requires
        never_starves(out, 0),
        stack_effect(out) == stack.len() + 1,
    ensures
        never_starves(out + spec_drain(stack), 0),
        stack_effect(out + spec_drain(stack)) == 1,
    decreases stack.len(),
{
    if stack.len() == 0 {
        assert(out + spec_drain(stack) =~= out);
    } else {
        let x = FormulaElement::Operator(stack.last());
        assert(out + spec_drain(stack) =~= out.push(x) + spec_drain(stack.drop_last()));
        lemma_never_starves_push(out, 0, x);
        lemma_stack_effect_push(out, x);
        lemma_drain_ok(stack.drop_last(), out.push(x));
    }
}

/// Flushing the pending operators onto a well-shaped output keeps it
/// well shaped: the one-more-operand surplus over the remaining stack
/// is preserved.
proof fn lemma_flush_ok(stack: Seq<Operator>, op: Operator, out: Seq<FormulaElement>)
    requires
        never_starves(out, 0),
        stack_effect(out) == stack.len() + 1,
    ensures
        ({
            let flushed = spec_flush(stack, op, out);
            &&& never_starves(flushed.1, 0)
            &&& stack_effect(flushed.1) == flushed.0.len() + 1
        }),
    decreases stack.len(),
{
    if stack.len() > 0 && stack.last().spec_precedence() >= op.spec_precedence() {
        let x = FormulaElement::Operator(stack.last());
        lemma_never_starves_push(out, 0, x);
        lemma_stack_effect_push(out, x);
        lemma_flush_ok(stack.drop_last(), op, out.push(x));
    }
}

/// The conversion of the rest of a well-formed infix sequence, from a
/// mid-run state whose output already holds one operand surplus for
/// every pending operator, never starves and leaves exactly one value.
proof fn lemma_shunt_ok(
    tokens: Seq<FormulaElement>,
    stack: Seq<Operator>,
    out: Seq<FormulaElement>,
    need_operand: bool,
)
    requires
        wf_infix_from(tokens, need_operand),
        never_starves(out, 0),
        stack_effect(out) == stack.len() + (if need_operand {
            0int
        } else {
            1int
        }),
    ensures
        never_starves(spec_shunt(tokens, stack, out), 0),
        stack_effect(spec_shunt(tokens, stack, out)) == 1,
    decreases tokens.len(),
{
    if tokens.len() == 0 {
        lemma_drain_ok(stack, out);
    } else {
        match tokens[0] {
            FormulaElement::Operand(_) => {
                lemma_never_starves_push(out, 0, tokens[0]);
                lemma_stack_effect_push(out, tokens[0]);
                lemma_shunt_ok(tokens.skip(1), stack, out.push(tokens[0]), false);
            },
            FormulaElement::Operator(op) => {
                lemma_flush_ok(stack, op, out);
                let flushed = spec_flush(stack, op, out);
                lemma_shunt_ok(tokens.skip(1), flushed.0.push(op), flushed.1, true);
            },
        }
    }
}

/// Law: evaluation is owed to every well-formed infix sequence. A
/// sequence that alternates operand, operator, operand, ... and starts
/// and ends with an operand always converts and evaluates to a value,
/// never to an error.
pub proof fn lemma_wf_infix_evaluates(tokens: Seq<FormulaElement>)
    requires
        wf_infix(tokens),
    ensures
        spec_calculate_rpn(spec_rpn_of(tokens)) is Ok,
{
    lemma_shunt_ok(tokens, Seq::empty(), Seq::empty(), true);
    lemma_rpn_run_ok(spec_rpn_of(tokens), Seq::empty());
}

/// Law: a single binary operation survives the round trip. For any
/// `a OP b` with a nonzero right operand, converting the infix sequence
/// to postfix and evaluating it yields exactly the direct arithmetic of
/// `a OP b`.
pub proof fn lemma_single_operation_round_trip(a: Number, op: Operator, b: Number)
    requires
        a.wf(),
        b.wf(),
        b.num != 0,
    ensures
        spec_calculate_rpn(
            spec_rpn_of(
                seq![
                    FormulaElement::Operand(a),
                    FormulaElement::Operator(op),
                    FormulaElement::Operand(b),
                ],
            ),
        ) == Ok::<Number, DentakuError>(op.spec_apply(a, b)),
{
    let infix = seq![
        FormulaElement::Operand(a),
        FormulaElement::Operator(op),
        FormulaElement::Operand(b),
    ];
    let s2 = seq![FormulaElement::Operator(op), FormulaElement::Operand(b)];
    let s3 = seq![FormulaElement::Operand(b)];
    let es = Seq::<Operator>::empty();
    let eo = Seq::<FormulaElement>::empty();
    let e = Seq::<FormulaElement>::empty();
    let out1 = seq![FormulaElement::Operand(a)];
    let out2 = seq![FormulaElement::Operand(a), FormulaElement::Operand(b)];
    let stack1 = es.push(op);
    let postfix = seq![
        FormulaElement::Operand(a),
        FormulaElement::Operand(b),
        FormulaElement::Operator(op),
    ];
    assert(infix.skip(1) =~= s2);
    assert(s2.skip(1) =~= s3);
    assert(s3.skip(1) =~= e);
    assert(eo.push(infix[0]) =~= out1);
    assert(spec_shunt(infix, es, eo) == spec_shunt(s2, es, out1));
    assert(spec_flush(es, op, out1) == (es, out1));
    assert(spec_shunt(s2, es, out1) == spec_shunt(s3, stack1, out1));
    assert(out1.push(s3[0]) =~= out2);
    assert(spec_shunt(s3, stack1, out1) == spec_shunt(e, stack1, out2));
    assert(stack1.drop_last() =~= es);
    assert(spec_drain(es) =~= e);
    assert(spec_drain(stack1) =~= seq![FormulaElement::Operator(op)]);
    assert(spec_shunt(e, stack1, out2) == out2 + spec_drain(stack1));
    assert(out2 + spec_drain(stack1) =~= postfix);
    assert(spec_rpn_of(infix) == postfix);

    let en = Seq::<Number>::empty();
    let st1 = en.push(a);
    let st2 = st1.push(b);
    let p2 = seq![FormulaElement::Operand(b), FormulaElement::Operator(op)];
    let p3 = seq![FormulaElement::Operator(op)];
    assert(postfix.skip(1) =~= p2);
    assert(p2.skip(1) =~= p3);
    assert(p3.skip(1) =~= e);
    assert(spec_rpn_run(postfix, en) == spec_rpn_run(p2, st1));
    assert(spec_rpn_run(p2, st1) == spec_rpn_run(p3, st2));
    assert(st2.len() == 2);
    assert(st2[st2.len() - 2] == a);
    assert(st2[st2.len() - 1] == b);
    let st3 = st2.drop_last().drop_last().push(op.spec_apply(a, b));
    assert(spec_rpn_run(p3, st2) == spec_rpn_run(e, st3));
    assert(st3.len() == 1);
    assert(st3[0] == op.spec_apply(a, b));
    assert(spec_rpn_run(e, st3) == Ok::<Number, DentakuError>(op.spec_apply(a, b)));
    assert(spec_calculate_rpn(spec_rpn_of(infix)) == Ok::<Number, DentakuError>(
        op.spec_apply(a, b),
    ));
}

} // verus!
