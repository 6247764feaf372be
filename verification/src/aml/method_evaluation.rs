//! Running methods: the statements of a term list decide, one by one,
//! whether to go on, to enter an `If` or `While` body, to wait, or to end
//! the list; expressions are evaluated for what they store.
//!
//! Waits are not made here: they are handed back, in order, for the caller
//! to make. Every nesting of a body and every round of a loop spends one
//! unit of a budget; a list that would spend more than it is given is
//! refused.
use vstd::prelude::*;
use super::AmlError;
use super::aml_variable::AmlVariable;
use super::expression_evaluator::{EvaluationFrame, Evaluator, Operand, agrees, read_source, same_error};
use super::method_table::MethodTable;
use super::named_object::Method;
use super::statement_opcode::{StatementOpcode, While, spec_if_read, spec_while_read};
use super::term_object::{TermArg, TermList, TermObj, simple_term, simple_term_obj};
use super::data_object::{ComputationalData, ConstData, DataObject};
use super::opcode;

verus! {

/// The budget a method is run with.
pub const EVALUATION_FUEL: usize = 0x10000;

/// A wait a method asks for: `Sleep` in milliseconds, `Stall` in
/// microseconds.
#[derive(Debug, Clone, Copy, PartialEq, Eq, Structural)]
pub enum Wait {
    Sleep(usize),
    Stall(usize),
}

/// How a list of terms ended: at its end, by `Break`, `Continue`,
/// `Return` (with what its operand evaluated to) or `Fatal`.
#[derive(Debug, Clone, Copy, PartialEq, Eq, Structural)]
pub enum Completion {
    Normal,
    Break,
    Continue,
    Return(Operand),
    Fatal,
}

/// What a statement decides: go on with the next term; take the `If` body
/// (`true`) or the `Else` body; enter the `While` body (`true`) or leave
/// the loop; end the list; or wait.
#[derive(Debug, Clone, Copy, PartialEq, Eq, Structural)]
pub enum Decision {
    Next,
    Branch(bool),
    Loop(bool),
    Complete(Completion),
    Wait(Wait),
}

/// The number of arguments before the first uninitialized one.
pub open spec fn valid_prefix(arguments: Seq<AmlVariable>) -> nat
    decreases arguments.len(),
{
    if arguments.len() == 0 || arguments[0] is Uninitialized {
        0
    } else {
        1 + valid_prefix(arguments.drop_first())
    }
}

/// What a method whose body ended as `c`, leaving `store`, gives as `r`:
/// uninitialized where it ended without `Return`, what `Return` returned
/// (an integer, or a copy of what a read of its variable reaches where
/// that holds its value); `Fatal`, `Break` and `Continue` are
/// `InvalidOperation`.
pub open spec fn method_value(store: Seq<AmlVariable>, c: Result<Completion, AmlError>, r: Result<AmlVariable, AmlError>) -> bool {
    match c {
        Err(e) => r matches Err(x) && same_error(x, e),
        Ok(Completion::Normal) => r == Ok::<AmlVariable, AmlError>(AmlVariable::Uninitialized),
        Ok(Completion::Return(Operand::Integer(k))) => r == Ok::<AmlVariable, AmlError>(AmlVariable::ConstData(k)),
        Ok(Completion::Return(Operand::Variable(h))) => match read_source(store, h) {
            Err(e) => r == Err::<AmlVariable, AmlError>(e),
            Ok(k) => if store[k as int].spec_is_constant_data() {
                r matches Ok(v) && store[k as int].same_value(&v)
            } else {
                r == Err::<AmlVariable, AmlError>(AmlError::InvalidOperation)
            },
        },
        Ok(Completion::Return(Operand::Value)) => r == Err::<AmlVariable, AmlError>(AmlError::UnsupportedType),
        Ok(_) => r == Err::<AmlVariable, AmlError>(AmlError::InvalidOperation),
    }
}

/// `waits` begins with `before`.
pub open spec fn extends(before: Seq<Wait>, waits: Seq<Wait>) -> bool {
    &&& before.len() <= waits.len()
    &&& forall|i: int| 0 <= i < before.len() ==> #[trigger] waits[i] == before[i]
}

impl EvaluationFrame {
    /// What the statement `s` decides, and the store it leaves: the
    /// predicate of `If` and `While` as a condition, the operand of
    /// `Return`, the length of `Sleep` and `Stall` as integers; `Release`
    /// lowers the mutex; `Notify`, `Noop` and `BreakPoint` go on; `Reset`
    /// and `Signal` are not supported.
    pub open spec fn statement_val(&self, store: Seq<AmlVariable>, s: StatementOpcode) -> (
        Seq<AmlVariable>,
        Result<Decision, AmlError>,
    ) {
        match s {
            StatementOpcode::DefBreak => (store, Ok(Decision::Complete(Completion::Break))),
            StatementOpcode::DefContinue => (store, Ok(Decision::Complete(Completion::Continue))),
            StatementOpcode::DefFatal(_) => (store, Ok(Decision::Complete(Completion::Fatal))),
            StatementOpcode::DefBreakPoint | StatementOpcode::DefNoop | StatementOpcode::DefNotify(_) => (
                store,
                Ok(Decision::Next),
            ),
            StatementOpcode::DefIfElse(i) => {
                let (s1, b) = self.bool_val(store, i.spec_predicate());
                match b {
                    Ok(v) => (s1, Ok(Decision::Branch(v))),
                    Err(e) => (s1, Err(e)),
                }
            },
            StatementOpcode::DefWhile(w) => {
                let (s1, b) = self.bool_val(store, w.spec_predicate());
                match b {
                    Ok(v) => (s1, Ok(Decision::Loop(v))),
                    Err(e) => (s1, Err(e)),
                }
            },
            StatementOpcode::DefRelease(m) => {
                let (s1, r) = self.release_val(store, m);
                match r {
                    Ok(_) => (s1, Ok(Decision::Next)),
                    Err(e) => (s1, Err(e)),
                }
            },
            StatementOpcode::DefReset(_) | StatementOpcode::DefSignal(_) => (store, Err(AmlError::UnsupportedType)),
            StatementOpcode::DefReturn(t) => {
                let (s1, o) = self.term_val(store, t);
                match o {
                    Ok(v) => (s1, Ok(Decision::Complete(Completion::Return(v)))),
                    Err(e) => (s1, Err(e)),
                }
            },
            StatementOpcode::DefSleep(t) => {
                let (s1, x) = self.int_val(store, t);
                match x {
                    Ok(c) => (s1, Ok(Decision::Wait(Wait::Sleep(c.spec_value() as usize)))),
                    Err(e) => (s1, Err(e)),
                }
            },
            StatementOpcode::DefStall(t) => {
                let (s1, x) = self.int_val(store, t);
                match x {
                    Ok(c) => (s1, Ok(Decision::Wait(Wait::Stall(c.spec_value() as usize)))),
                    Err(e) => (s1, Err(e)),
                }
            },
        }
    }
}

impl EvaluationFrame {
    /// Running the terms from `p` in the window ending at `end` over
    /// `store` with a budget of `fuel`, where each term read up to the one
    /// that ends the list is simple (see `simple_term_obj`) or an `If` or
    /// `While` with a simple predicate (see `spec_if_read` and
    /// `spec_while_read`): the store it leaves and how the list ends.
    /// Statements decide and expressions store as `statement_val` and
    /// `expr_val` say; a body runs with one unit less of the budget, and a
    /// loop's rounds as `while_rounds` says. `None` where a term read is of
    /// another kind.
    #[verifier::opaque]
    pub open spec fn run_list(&self, store: Seq<AmlVariable>, s: Seq<u8>, p: int, end: int, fuel: nat) -> Option<
        (Seq<AmlVariable>, Result<Completion, AmlError>),
    >
        decreases fuel, 1int, end - p,
    {
        if fuel == 0 {
            Some((store, Err(AmlError::InvalidOperation)))
        } else if p >= end {
            Some((store, Ok(Completion::Normal)))
        } else {
            match simple_term_obj(s, p, end) {
                Some((t, q)) => if q <= p || q > end {
                    None
                } else {
                    match t {
                        TermObj::StatementOpcode(st) => {
                            let (s1, d) = self.statement_val(store, st);
                            match d {
                                Err(e) => Some((s1, Err(e))),
                                Ok(Decision::Next) => self.run_list(s1, s, q, end, fuel),
                                Ok(Decision::Complete(c)) => Some((s1, Ok(c))),
                                Ok(_) => None,
                            }
                        },
                        TermObj::ExpressionOpcode(e) => {
                            let (s1, v) = self.expr_val(store, e);
                            match v {
                                Err(x) => Some((s1, Err(x))),
                                Ok(_) => self.run_list(s1, s, q, end, fuel),
                            }
                        },
                        _ => None,
                    }
                },
                None => if s[p] == opcode::IF_OP {
                    match spec_if_read(s, p + 1, end) {
                        Some((pred, bs, be, els, next)) => if next <= p || next > end {
                            None
                        } else {
                            let (s1, b) = self.bool_val(store, pred);
                            match b {
                                Err(e) => Some((s1, Err(e))),
                                Ok(v) => {
                                    let body = if v {
                                        Some((bs, be))
                                    } else {
                                        els
                                    };
                                    match body {
                                        None => self.run_list(s1, s, next, end, fuel),
                                        Some((x, y)) => match self.run_list(s1, s, x, y, (fuel - 1) as nat) {
                                            Some((s2, Ok(Completion::Normal))) => self.run_list(s2, s, next, end, fuel),
                                            Some((s2, c)) => Some((s2, c)),
                                            None => None,
                                        },
                                    }
                                },
                            }
                        },
                        None => None,
                    }
                } else if s[p] == opcode::WHILE_OP {
                    match spec_while_read(s, p + 1, end) {
                        Some((pred, bs, be, next)) => if next <= p || next > end {
                            None
                        } else {
                            let (s1, b) = self.bool_val(store, pred);
                            match b {
                                Err(e) => Some((s1, Err(e))),
                                Ok(false) => self.run_list(s1, s, next, end, fuel),
                                Ok(true) => if fuel == 1 {
                                    Some((s1, Err(AmlError::InvalidOperation)))
                                } else {
                                    match self.while_rounds(s1, pred, s, bs, be, (fuel - 2) as nat, (fuel - 1) as nat) {
                                        Some((s2, Ok(Completion::Normal))) => self.run_list(s2, s, next, end, fuel),
                                        Some((s2, c)) => Some((s2, c)),
                                        None => None,
                                    }
                                },
                            }
                        },
                        None => None,
                    }
                } else {
                    None
                },
            }
        }
    }

    /// The rounds of a loop whose predicate `pred` held, at most `left`
    /// more: its body (the window from `bs` to `be`, run with a budget of
    /// `fuel`), then its predicate again. `Break` leaves the loop,
    /// `Continue` goes on with the next round; `Return` and `Fatal` end it;
    /// running out of rounds is `InvalidOperation`.
    pub open spec fn while_rounds(
        &self,
        store: Seq<AmlVariable>,
        pred: TermArg,
        s: Seq<u8>,
        bs: int,
        be: int,
        fuel: nat,
        left: nat,
    ) -> Option<(Seq<AmlVariable>, Result<Completion, AmlError>)>
        decreases fuel + 1, 0int, left,
    {
        if left == 0 {
            Some((store, Err(AmlError::InvalidOperation)))
        } else {
            match self.run_list(store, s, bs, be, fuel) {
                None => None,
                Some((s1, Err(e))) => Some((s1, Err(e))),
                Some((s1, Ok(Completion::Break))) => Some((s1, Ok(Completion::Normal))),
                Some((s1, Ok(Completion::Normal))) | Some((s1, Ok(Completion::Continue))) => {
                    let (s2, b) = self.bool_val(s1, pred);
                    match b {
                        Err(e) => Some((s2, Err(e))),
                        Ok(true) => self.while_rounds(s2, pred, s, bs, be, fuel, (left - 1) as nat),
                        Ok(false) => Some((s2, Ok(Completion::Normal))),
                    }
                },
                Some((s1, Ok(c))) => Some((s1, Ok(c))),
            }
        }
    }
}

/// The position after the term at `p` that `run_list` reads: a simple
/// term, an `If` or a `While`; `p` where there is none.
pub open spec fn next_of(s: Seq<u8>, p: int, end: int) -> int {
    match simple_term_obj(s, p, end) {
        Some((_, q)) => q,
        None => if s[p] == opcode::IF_OP {
            match spec_if_read(s, p + 1, end) {
                Some((_, _, _, _, n)) => n,
                None => p,
            }
        } else if s[p] == opcode::WHILE_OP {
            match spec_while_read(s, p + 1, end) {
                Some((_, _, _, n)) => n,
                None => p,
            }
        } else {
            p
        },
    }
}

/// How `run_list` reads the list at `p`: it ends there, or the term there
/// is simple, an `If` or a `While`, each moving on.
proof fn lemma_run_cases(frame: EvaluationFrame, store: Seq<AmlVariable>, s: Seq<u8>, p: int, end: int, fuel: nat)
    requires
        fuel > 0,
        p < end,
        frame.run_list(store, s, p, end, fuel) is Some,
    ensures
        (simple_term_obj(s, p, end) is Some && p < next_of(s, p, end) <= end) || (simple_term_obj(s, p, end) is None
            && s[p] == opcode::IF_OP && spec_if_read(s, p + 1, end) is Some && p < next_of(s, p, end) <= end) || (
        simple_term_obj(s, p, end) is None && s[p] == opcode::WHILE_OP && spec_while_read(s, p + 1, end) is Some
            && p < next_of(s, p, end) <= end),
{
    reveal(EvaluationFrame::run_list);
}

/// `run_list` at the end of its window, or with no budget.
proof fn lemma_run_end(frame: EvaluationFrame, store: Seq<AmlVariable>, s: Seq<u8>, p: int, end: int, fuel: nat)
    ensures
        fuel == 0 ==> frame.run_list(store, s, p, end, fuel) == Some(
            (store, Err::<Completion, AmlError>(AmlError::InvalidOperation)),
        ),
        (fuel > 0 && p >= end) ==> frame.run_list(store, s, p, end, fuel) == Some(
            (store, Ok::<Completion, AmlError>(Completion::Normal)),
        ),
{
    reveal(EvaluationFrame::run_list);
}

/// `run_list` over a simple term at `p`: the term decides, then the rest.
proof fn lemma_run_plain(frame: EvaluationFrame, store: Seq<AmlVariable>, s: Seq<u8>, p: int, end: int, fuel: nat)
    requires
        fuel > 0,
        p < end,
        simple_term_obj(s, p, end) matches Some((t, q)) && p < q <= end,
    ensures
        ({
            let (t, q) = simple_term_obj(s, p, end)->0;
            frame.run_list(store, s, p, end, fuel) == match t {
                TermObj::StatementOpcode(st) => {
                    let (s1, d) = frame.statement_val(store, st);
                    match d {
                        Err(e) => Some((s1, Err(e))),
                        Ok(Decision::Next) => frame.run_list(s1, s, q, end, fuel),
                        Ok(Decision::Complete(c)) => Some((s1, Ok(c))),
                        Ok(_) => None,
                    }
                },
                TermObj::ExpressionOpcode(e) => {
                    let (s1, v) = frame.expr_val(store, e);
                    match v {
                        Err(x) => Some((s1, Err(x))),
                        Ok(_) => frame.run_list(s1, s, q, end, fuel),
                    }
                },
                _ => None,
            }
        }),
{
    reveal(EvaluationFrame::run_list);
}

/// `run_list` over an `If` at `p`: its predicate, the body it picks (with
/// one unit less of the budget), then the rest.
proof fn lemma_run_if(frame: EvaluationFrame, store: Seq<AmlVariable>, s: Seq<u8>, p: int, end: int, fuel: nat)
    requires
        fuel > 0,
        p < end,
        simple_term_obj(s, p, end) is None,
        s[p] == opcode::IF_OP,
        spec_if_read(s, p + 1, end) matches Some((_, _, _, _, next)) && p < next <= end,
    ensures
        ({
            let (pred, bs, be, els, next) = spec_if_read(s, p + 1, end)->0;
            let (s1, b) = frame.bool_val(store, pred);
            frame.run_list(store, s, p, end, fuel) == match b {
                Err(e) => Some((s1, Err(e))),
                Ok(v) => {
                    let body = if v {
                        Some((bs, be))
                    } else {
                        els
                    };
                    match body {
                        None => frame.run_list(s1, s, next, end, fuel),
                        Some((x, y)) => match frame.run_list(s1, s, x, y, (fuel - 1) as nat) {
                            Some((s2, Ok(Completion::Normal))) => frame.run_list(s2, s, next, end, fuel),
                            Some((s2, c)) => Some((s2, c)),
                            None => None,
                        },
                    }
                },
            }
        }),
{
    reveal(EvaluationFrame::run_list);
}

/// `run_list` over a `While` at `p`: its predicate, its rounds (see
/// `while_rounds`), then the rest.
proof fn lemma_run_while(frame: EvaluationFrame, store: Seq<AmlVariable>, s: Seq<u8>, p: int, end: int, fuel: nat)
    requires
        fuel > 0,
        p < end,
        simple_term_obj(s, p, end) is None,
        s[p] == opcode::WHILE_OP,
        spec_while_read(s, p + 1, end) matches Some((_, _, _, next)) && p < next <= end,
    ensures
        ({
            let (pred, bs, be, next) = spec_while_read(s, p + 1, end)->0;
            let (s1, b) = frame.bool_val(store, pred);
            frame.run_list(store, s, p, end, fuel) == match b {
                Err(e) => Some((s1, Err(e))),
                Ok(false) => frame.run_list(s1, s, next, end, fuel),
                Ok(true) => if fuel == 1 {
                    Some((s1, Err(AmlError::InvalidOperation)))
                } else {
                    match frame.while_rounds(s1, pred, s, bs, be, (fuel - 2) as nat, (fuel - 1) as nat) {
                        Some((s2, Ok(Completion::Normal))) => frame.run_list(s2, s, next, end, fuel),
                        Some((s2, c)) => Some((s2, c)),
                        None => None,
                    }
                },
            }
        }),
{
    reveal(EvaluationFrame::run_list);
}

/// One round of `while_rounds`: the body, then the predicate.
proof fn lemma_rounds_unfold(
    frame: EvaluationFrame,
    store: Seq<AmlVariable>,
    pred: TermArg,
    s: Seq<u8>,
    bs: int,
    be: int,
    fuel: nat,
    left: nat,
)
    requires
        left > 0,
    ensures
        frame.while_rounds(store, pred, s, bs, be, fuel, left) == match frame.run_list(store, s, bs, be, fuel) {
            None => None,
            Some((s1, Err(e))) => Some((s1, Err(e))),
            Some((s1, Ok(Completion::Break))) => Some((s1, Ok(Completion::Normal))),
            Some((s1, Ok(Completion::Normal))) | Some((s1, Ok(Completion::Continue))) => {
                let (s2, b) = frame.bool_val(s1, pred);
                match b {
                    Err(e) => Some((s2, Err(e))),
                    Ok(true) => frame.while_rounds(s2, pred, s, bs, be, fuel, (left - 1) as nat),
                    Ok(false) => Some((s2, Ok(Completion::Normal))),
                }
            },
            Some((s1, Ok(c))) => Some((s1, Ok(c))),
        },
{
    reveal(EvaluationFrame::run_list);
    reveal_with_fuel(EvaluationFrame::while_rounds, 1);
}

/// A body whose one term is `Return` of the integer constant `c` ends
/// returning `c` and leaves the store as it was.
pub proof fn lemma_return_constant(
    frame: EvaluationFrame,
    store: Seq<AmlVariable>,
    s: Seq<u8>,
    p: int,
    end: int,
    c: ConstData,
    fuel: nat,
)
    requires
        fuel > 0,
        0 <= p < end <= s.len(),
        s[p] == opcode::RETURN_OP,
        simple_term(s, p + 1, end) == Some(
            (TermArg::DataObject(DataObject::ComputationalData(ComputationalData::ConstData(c))), end),
        ),
    ensures
        frame.run_list(store, s, p, end, fuel) == Some(
            (store, Ok::<Completion, AmlError>(Completion::Return(Operand::Integer(c)))),
        ),
{
    reveal(EvaluationFrame::run_list);
}

impl Evaluator {
    /// Decides the statement `s`, as `statement_val` says.
    pub fn eval_statement(&mut self, s: &StatementOpcode) -> (r: Result<Decision, AmlError>)
        requires
            old(self).wf(),
        ensures
            final(self).wf(),
            final(self).same_frame(old(self)),
            final(self).spec_store() == old(self).spec_frame().statement_val(old(self).spec_store(), *s).0,
            agrees(r, old(self).spec_frame().statement_val(old(self).spec_store(), *s).1),
    {
        match s {
            StatementOpcode::DefBreak => Ok(Decision::Complete(Completion::Break)),
            StatementOpcode::DefContinue => Ok(Decision::Complete(Completion::Continue)),
            StatementOpcode::DefFatal(_) => Ok(Decision::Complete(Completion::Fatal)),
            StatementOpcode::DefBreakPoint => Ok(Decision::Next),
            StatementOpcode::DefNoop => Ok(Decision::Next),
            StatementOpcode::DefNotify(_) => Ok(Decision::Next),
            StatementOpcode::DefIfElse(i) => match self.eval_bool_expression(i.get_predicate()) {
                Ok(v) => Ok(Decision::Branch(v)),
                Err(e) => Err(e),
            },
            StatementOpcode::DefWhile(w) => match self.eval_bool_expression(w.get_predicate()) {
                Ok(v) => Ok(Decision::Loop(v)),
                Err(e) => Err(e),
            },
            StatementOpcode::DefRelease(m) => match self.release_mutex(m) {
                Ok(_) => Ok(Decision::Next),
                Err(e) => Err(e),
            },
            StatementOpcode::DefReset(_) => Err(AmlError::UnsupportedType),
            StatementOpcode::DefSignal(_) => Err(AmlError::UnsupportedType),
            StatementOpcode::DefReturn(t) => match self.eval_term_arg(t) {
                Ok(v) => Ok(Decision::Complete(Completion::Return(v))),
                Err(e) => Err(e),
            },
            StatementOpcode::DefSleep(t) => match self.eval_integer_expression(t) {
                Ok(c) => Ok(Decision::Wait(Wait::Sleep(c.to_int()))),
                Err(e) => Err(e),
            },
            StatementOpcode::DefStall(t) => match self.eval_integer_expression(t) {
                Ok(c) => Ok(Decision::Wait(Wait::Stall(c.to_int()))),
                Err(e) => Err(e),
            },
        }
    }

    /// Runs the rest of a `While` loop whose predicate held: its body, then
    /// its predicate again, for at most `fuel` rounds. `Break` leaves the
    /// loop, `Continue` goes on with the next round; `Return` and `Fatal`
    /// end it.
    pub fn eval_while(&mut self, w: &While, table: &MethodTable, waits: &mut Vec<Wait>, fuel: usize) -> (r: Result<
        Completion,
        AmlError,
    >)
        requires
            old(self).wf(),
        ensures
            final(self).wf(),
            final(self).same_frame(old(self)),
            extends(old(waits)@, final(waits)@),
            r matches Ok(c) ==> !(c is Break) && !(c is Continue),
            fuel == 0 ==> r == Err::<Completion, AmlError>(AmlError::InvalidOperation) && final(self).spec_store()
                == old(self).spec_store() && final(waits)@ == old(waits)@,
            (fuel > 0 && w.spec_term_list().window().wf()) ==> (old(self).spec_frame().while_rounds(
                old(self).spec_store(),
                w.spec_predicate(),
                w.spec_term_list().window().bytes(),
                w.spec_term_list().window().pos(),
                w.spec_term_list().window().end(),
                (fuel - 1) as nat,
                fuel as nat,
            ) matches Some((s1, c)) ==> (final(self).spec_store() == s1 && agrees(r, c) && final(waits)@ == old(
                waits,
            )@)),
            (fuel > 1 && w.spec_term_list().window().wf() && w.spec_term_list().window().rem() == 0) ==> ({
                let (s1, b) = old(self).spec_frame().bool_val(old(self).spec_store(), w.spec_predicate());
                &&& b == Ok::<bool, AmlError>(false) ==> r == Ok::<Completion, AmlError>(Completion::Normal)
                    && final(self).spec_store() == s1
                &&& b matches Err(e) ==> (r matches Err(x) && same_error(x, e))
            }),
        decreases fuel, 0int,
    {
        if fuel == 0 {
            return Err(AmlError::InvalidOperation);
        }
        let ghost empty = fuel > 1 && w.spec_term_list().window().wf() && w.spec_term_list().window().rem() == 0;
        let ghost first = old(self).spec_frame().bool_val(old(self).spec_store(), w.spec_predicate());
        let ghost frame = self.spec_frame();
        let ghost win = w.spec_term_list().window();
        let ghost target = frame.while_rounds(
            self.spec_store(),
            w.spec_predicate(),
            win.bytes(),
            win.pos(),
            win.end(),
            (fuel - 1) as nat,
            fuel as nat,
        );
        let mut rounds: usize = 0;
        while rounds < fuel
            invariant
                self.wf(),
                self.same_frame(old(self)),
                extends(old(waits)@, waits@),
                fuel > 0,
                empty == (fuel > 1 && w.spec_term_list().window().wf() && w.spec_term_list().window().rem() == 0),
                first == old(self).spec_frame().bool_val(old(self).spec_store(), w.spec_predicate()),
                empty && rounds == 0 ==> self.spec_store() == old(self).spec_store(),
                empty && rounds > 0 ==> first.1 == Ok::<bool, AmlError>(true),
                rounds <= fuel,
                frame == old(self).spec_frame(),
                win == w.spec_term_list().window(),
                target == frame.while_rounds(
                    old(self).spec_store(),
                    w.spec_predicate(),
                    win.bytes(),
                    win.pos(),
                    win.end(),
                    (fuel - 1) as nat,
                    fuel as nat,
                ),
                (win.wf() && target is Some) ==> frame.while_rounds(
                    self.spec_store(),
                    w.spec_predicate(),
                    win.bytes(),
                    win.pos(),
                    win.end(),
                    (fuel - 1) as nat,
                    (fuel - rounds) as nat,
                ) == target && waits@ == old(waits)@,
            decreases fuel - rounds,
        {
            let ghost before_round = self.spec_store();
            let ghost left = (fuel - rounds) as nat;
            proof {
                if win.wf() && target is Some {
                    lemma_rounds_unfold(frame, before_round, w.spec_predicate(), win.bytes(), win.pos(), win.end(), (fuel - 1) as nat, left);
                    assert(frame.run_list(before_round, win.bytes(), win.pos(), win.end(), (fuel - 1) as nat) is Some);
                }
            }
            let body = self.eval_term_list(w.get_term_list(), table, waits, fuel - 1);
            proof {
                if win.wf() && target is Some {
                    let (s1, c) = frame.run_list(before_round, win.bytes(), win.pos(), win.end(), (fuel - 1) as nat)->0;
                    assert(self.spec_store() == s1 && agrees(body, c));
                }
            }
            match body {
                Ok(Completion::Normal) => {},
                Ok(Completion::Continue) => {},
                Ok(Completion::Break) => {
                    return Ok(Completion::Normal);
                },
                Ok(c) => {
                    return Ok(c);
                },
                Err(e) => {
                    return Err(e);
                },
            }
            let ghost after_body = self.spec_store();
            proof {
                if win.wf() && target is Some {
                    assert(frame.while_rounds(before_round, w.spec_predicate(), win.bytes(), win.pos(), win.end(), (fuel - 1) as nat, left) == {
                        let (s2, b) = frame.bool_val(after_body, w.spec_predicate());
                        match b {
                            Err(e) => Some((s2, Err(e))),
                            Ok(true) => frame.while_rounds(s2, w.spec_predicate(), win.bytes(), win.pos(), win.end(), (fuel - 1) as nat, (left - 1) as nat),
                            Ok(false) => Some((s2, Ok(Completion::Normal))),
                        }
                    });
                }
            }
            match self.eval_bool_expression(w.get_predicate()) {
                Ok(true) => {},
                Ok(false) => {
                    return Ok(Completion::Normal);
                },
                Err(e) => {
                    return Err(e);
                },
            }
            rounds = rounds + 1;
        }
        Err(AmlError::InvalidOperation)
    }

    /// Runs the terms of `list` in turn (names are parsed with `table`):
    /// expressions are evaluated, statements decided, `If` and `While`
    /// bodies run with one unit less of `fuel`, and the waits asked for
    /// are added to `waits`. Named objects and namespace modifiers in it
    /// are passed over.
    #[verifier::rlimit(60)]
    pub fn eval_term_list(&mut self, list: &TermList, table: &MethodTable, waits: &mut Vec<Wait>, fuel: usize) -> (r:
        Result<Completion, AmlError>)
        requires
            old(self).wf(),
        ensures
            final(self).wf(),
            final(self).same_frame(old(self)),
            extends(old(waits)@, final(waits)@),
            fuel == 0 ==> r == Err::<Completion, AmlError>(AmlError::InvalidOperation),
            fuel > 0 && !list.window().wf() ==> r == Err::<Completion, AmlError>(AmlError::AccessOutOfRange),
            fuel > 0 && list.window().wf() && list.window().rem() == 0 ==> r == Ok::<Completion, AmlError>(
                Completion::Normal,
            ) && final(self).spec_store() == old(self).spec_store() && final(waits)@ == old(waits)@,
            list.window().wf() ==> (old(self).spec_frame().run_list(
                old(self).spec_store(),
                list.window().bytes(),
                list.window().pos(),
                list.window().end(),
                fuel as nat,
            ) matches Some((s1, c)) ==> (final(self).spec_store() == s1 && agrees(r, c) && final(waits)@ == old(
                waits,
            )@)),
        decreases fuel, 1int,
    {
        if fuel == 0 {
            proof {
                lemma_run_end(
                    self.spec_frame(),
                    self.spec_store(),
                    list.window().bytes(),
                    list.window().pos(),
                    list.window().end(),
                    0,
                );
            }
            return Err(AmlError::InvalidOperation);
        }
        let ghost empty = list.window().wf() && list.window().rem() == 0;
        let ghost frame = self.spec_frame();
        let ghost bytes = list.window().bytes();
        let ghost end = list.window().end();
        let ghost target = frame.run_list(self.spec_store(), bytes, list.window().pos(), end, fuel as nat);
        let mut terms = list.clone();
        if !terms.is_readable() {
            return Err(AmlError::AccessOutOfRange);
        }
        loop
            invariant
                self.wf(),
                self.same_frame(old(self)),
                extends(old(waits)@, waits@),
                terms.window().wf(),
                fuel > 0,
                empty == (list.window().wf() && list.window().rem() == 0),
                list.window().wf(),
                empty ==> terms.window().rem() == 0 && self.spec_store() == old(self).spec_store() && waits@ == old(
                    waits,
                )@,
                frame == old(self).spec_frame(),
                bytes == list.window().bytes(),
                end == list.window().end(),
                terms.window().bytes() == bytes,
                terms.window().end() == end,
                target == frame.run_list(old(self).spec_store(), bytes, list.window().pos(), end, fuel as nat),
                target is Some ==> frame.run_list(self.spec_store(), bytes, terms.window().pos(), end, fuel as nat)
                    == target && waits@ == old(waits)@,
            decreases terms.window().rem(),
        {
            let ghost cur = terms.window().pos();
            let ghost st0 = self.spec_store();
            proof {
                if cur >= end {
                    lemma_run_end(frame, st0, bytes, cur, end, fuel as nat);
                } else if target is Some {
                    lemma_run_cases(frame, st0, bytes, cur, end, fuel as nat);
                    if simple_term_obj(bytes, cur, end) is Some {
                        lemma_run_plain(frame, st0, bytes, cur, end, fuel as nat);
                    } else if bytes[cur] == opcode::IF_OP {
                        lemma_run_if(frame, st0, bytes, cur, end, fuel as nat);
                    } else {
                        lemma_run_while(frame, st0, bytes, cur, end, fuel as nat);
                    }
                }
            }
            let term = match terms.next(table) {
                Ok(Some(t)) => t,
                Ok(None) => {
                    return Ok(Completion::Normal);
                },
                Err(e) => {
                    return Err(e);
                },
            };
            match term {
                TermObj::NamespaceModifierObj(_) => {},
                TermObj::NamedObj(_) => {},
                TermObj::ExpressionOpcode(e) => {
                    if let Err(x) = self.eval_expression(&e) {
                        return Err(x);
                    }
                },
                TermObj::StatementOpcode(s) => {
                    let decision = match self.eval_statement(&s) {
                        Ok(d) => d,
                        Err(e) => {
                            return Err(e);
                        },
                    };
                    match decision {
                        Decision::Next => {},
                        Decision::Wait(w) => {
                            waits.push(w);
                        },
                        Decision::Complete(c) => {
                            return Ok(c);
                        },
                        Decision::Branch(b) => {
                            if let StatementOpcode::DefIfElse(i) = &s {
                                let body = if b {
                                    Some(i.get_if_true_term_list())
                                } else {
                                    match i.get_if_false_term_list() {
                                        Some(l) => Some(l),
                                        None => None,
                                    }
                                };
                                if let Some(l) = body {
                                    match self.eval_term_list(l, table, waits, fuel - 1) {
                                        Ok(Completion::Normal) => {},
                                        Ok(c) => {
                                            return Ok(c);
                                        },
                                        Err(e) => {
                                            return Err(e);
                                        },
                                    }
                                }
                            }
                        },
                        Decision::Loop(b) => {
                            if let StatementOpcode::DefWhile(w) = &s {
                                if b {
                                    match self.eval_while(w, table, waits, fuel - 1) {
                                        Ok(Completion::Normal) => {},
                                        Ok(c) => {
                                            return Ok(c);
                                        },
                                        Err(e) => {
                                            return Err(e);
                                        },
                                    }
                                }
                            }
                        },
                    }
                },
            }
        }
    }

    /// Runs `method` with `arguments` (names in its body parsed with
    /// `table`) with a budget of `EVALUATION_FUEL`: the locals start
    /// uninitialized and the arguments hold the given values. It gives what
    /// `Return` returned (uninitialized where the body ends without one);
    /// `Fatal`, or `Break` or `Continue` outside a loop, is
    /// `InvalidOperation`. Arguments that do not match the method's count,
    /// counted up to the first uninitialized one, are refused.
    pub fn eval_method(&mut self, method: &Method, arguments: Vec<AmlVariable>, table: &MethodTable, waits: &mut Vec<
        Wait,
    >) -> (r: Result<AmlVariable, AmlError>)
        requires
            old(self).wf(),
        ensures
            final(self).wf(),
            final(self).same_frame(old(self)),
            extends(old(waits)@, final(waits)@),
            ({
                let count = (method.spec_flags() % 8) as usize;
                (count != arguments@.len() && valid_prefix(arguments@) != count) ==> (r == Err::<
                    AmlVariable,
                    AmlError,
                >(AmlError::InvalidOperation) && final(self).spec_store() == old(self).spec_store())
            }),
            ({
                let count = (method.spec_flags() % 8) as usize;
                let w = method.spec_term_list().window();
                let s0 = old(self).spec_frame().reset_store(old(self).spec_store(), arguments@);
                let run = old(self).spec_frame().run_list(s0, w.bytes(), w.pos(), w.end(), EVALUATION_FUEL as nat);
                ((count == arguments@.len() || valid_prefix(arguments@) == count) && w.wf()) ==> (run matches Some(
                    (s1, c),
                ) ==> (final(self).spec_store() == s1 && method_value(s1, c, r) && final(waits)@ == old(waits)@))
            }),
    {
        let count = method.get_argument_count();
        if count != arguments.len() {
            let mut valid: usize = 0;
            proof {
                assert(arguments@.subrange(0, arguments@.len() as int) =~= arguments@);
            }
            while valid < arguments.len()
                invariant
                    valid <= arguments@.len(),
                    valid_prefix(arguments@) == valid + valid_prefix(
                        arguments@.subrange(valid as int, arguments@.len() as int),
                    ),
                ensures
                    valid == valid_prefix(arguments@),
                decreases arguments@.len() - valid,
            {
                let ghost rest = arguments@.subrange(valid as int, arguments@.len() as int);
                assert(rest.drop_first() =~= arguments@.subrange(valid + 1, arguments@.len() as int));
                assert(rest[0] == arguments@[valid as int]);
                if let AmlVariable::Uninitialized = &arguments[valid] {
                    break;
                }
                valid = valid + 1;
            }
            if valid != count {
                return Err(AmlError::InvalidOperation);
            }
        }
        self.reset_frame(arguments);
        match self.eval_term_list(method.get_term_list(), table, waits, EVALUATION_FUEL) {
            Err(e) => Err(e),
            Ok(Completion::Normal) => Ok(AmlVariable::Uninitialized),
            Ok(Completion::Return(o)) => self.value_of(o),
            Ok(_) => Err(AmlError::InvalidOperation),
        }
    }
}

} // verus!
