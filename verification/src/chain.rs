//! The middleware chain: an ordered sequence of links, each a terminal
//! handler or a pass-through step holding a one-shot continuation for the
//! remainder of the chain. One dispatch yields exactly one terminal outcome
//! — a response or a dispatch error — never nothing.

use vstd::prelude::*;

use crate::context::HttpContext;
use crate::kvlist::{insert_kv, kv_wf, lookup_kv};
use crate::response::HttpResponse;
use crate::text::{all_digits, dec_val};

verus! {

/// A chain-structure misuse surfaced during dispatch. Both are programming
/// errors of a step body, reported deterministically, never a panic.
#[derive(Clone, Copy, PartialEq, Eq, Structural, Debug)]
pub enum DispatchError {
    /// A step invoked its continuation while no successor link exists.
    NoSuccessor,
    /// A step invoked its continuation a second time.
    ContinuationConsumed,
}

/// What a terminal handler does with the context it receives.
pub enum HandlerScript {
    /// Respond with this status.
    Respond(u16),
    /// Respond with the status stored in this named context variable
    /// (decimal), or with the fallback status when the variable is absent
    /// or does not parse.
    RespondFromVar(String, u16),
}

/// What a pass-through step does with the context and its continuation.
pub enum StepScript {
    /// Short-circuit with this status; the continuation is never invoked
    /// and no later link runs.
    Respond(u16),
    /// Invoke the continuation once and return its outcome unchanged.
    Forward,
    /// Store a context variable, then forward: the rest of the chain sees
    /// the mutated context.
    SetVarThenForward(String, String),
    /// Forward, then replace the status of a successful outcome with this
    /// one on the way out (wrap-around behaviour).
    ForwardThenSetStatus(u16),
    /// Forward, and convert a failed outcome into a response with this
    /// status; a successful outcome passes through (error-handling
    /// middleware).
    ForwardCatch(u16),
    /// Erroneously invoke the continuation twice: the second invocation is
    /// refused deterministically and the refusal is this step's outcome.
    ForwardTwice,
}

/// One link of a chain.
pub enum Link {
    Handler(HandlerScript),
    Step(StepScript),
}

/// The status a handler derives from the context variables.
pub open spec fn var_status(
    vars: Seq<(Seq<char>, Seq<char>)>,
    name: Seq<char>,
    fallback: u16,
) -> u16 {
    match lookup_kv(vars, name) {
        Some(v) => if all_digits(v) && dec_val(v) <= u16::MAX {
            dec_val(v) as u16
        } else {
            fallback
        },
        None => fallback,
    }
}

/// The outcome and final variables of running the chain from link `i`.
/// A fresh one-shot continuation binds each step to the remainder starting
/// at `i + 1`; invoking it with no successor, or a second time, yields the
/// corresponding error to the step body.
pub open spec fn run_link_spec(
    links: Seq<Link>,
    i: int,
    vars: Seq<(Seq<char>, Seq<char>)>,
) -> (Result<HttpResponse, DispatchError>, Seq<(Seq<char>, Seq<char>)>)
    decreases links.len() - i when 0 <= i < links.len()
{
    match links[i] {
        Link::Handler(h) => match h {
            HandlerScript::Respond(st) => (Ok(HttpResponse { status: st }), vars),
            HandlerScript::RespondFromVar(name, fb) => (
                Ok(HttpResponse { status: var_status(vars, name@, fb) }),
                vars,
            ),
        },
        Link::Step(s) => match s {
            StepScript::Respond(st) => (Ok(HttpResponse { status: st }), vars),
            StepScript::Forward => if i + 1 < links.len() {
                run_link_spec(links, i + 1, vars)
            } else {
                (Err(DispatchError::NoSuccessor), vars)
            },
            StepScript::SetVarThenForward(k, v) => if i + 1 < links.len() {
                run_link_spec(links, i + 1, insert_kv(vars, k@, v@))
            } else {
                (Err(DispatchError::NoSuccessor), insert_kv(vars, k@, v@))
            },
            StepScript::ForwardThenSetStatus(st) => if i + 1 < links.len() {
                let inner = run_link_spec(links, i + 1, vars);
                match inner.0 {
                    Ok(_) => (Ok(HttpResponse { status: st }), inner.1),
                    Err(e) => (Err(e), inner.1),
                }
            } else {
                (Err(DispatchError::NoSuccessor), vars)
            },
            StepScript::ForwardCatch(st) => if i + 1 < links.len() {
                let inner = run_link_spec(links, i + 1, vars);
                match inner.0 {
                    Ok(resp) => (Ok(resp), inner.1),
                    Err(_) => (Ok(HttpResponse { status: st }), inner.1),
                }
            } else {
                (Ok(HttpResponse { status: st }), vars)
            },
            StepScript::ForwardTwice => if i + 1 < links.len() {
                let inner = run_link_spec(links, i + 1, vars);
                (Err(DispatchError::ContinuationConsumed), inner.1)
            } else {
                (Err(DispatchError::NoSuccessor), vars)
            },
        },
    }
}

/// A one-shot continuation: "run the remainder of the chain", consumable at
/// most once. A step that tries again, or that has no successor, gets a
/// deterministic error instead of corrupted state.
pub struct Continuation {
    pub next: Option<usize>,
    pub consumed: bool,
}

impl Continuation {
    pub open spec fn spec_next(&self) -> Option<usize> {
        self.next
    }

    pub open spec fn spec_consumed(&self) -> bool {
        self.consumed
    }

    /// Binds a fresh, unconsumed continuation to the successor position.
    pub fn new(next: Option<usize>) -> (r: Continuation)
        ensures
            r.spec_next() == next,
            !r.spec_consumed(),
    {
        Continuation { next, consumed: false }
    }

    /// Claims the continuation: the successor index on first use, an error
    /// on reuse or when no successor exists.
    pub fn try_consume(&mut self) -> (r: Result<usize, DispatchError>)
        ensures
            old(self).spec_consumed() ==> r == Err::<usize, DispatchError>(
                DispatchError::ContinuationConsumed,
            ) && *final(self) == *old(self),
            !old(self).spec_consumed() && old(self).spec_next() is None ==> r == Err::<
                usize,
                DispatchError,
            >(DispatchError::NoSuccessor) && *final(self) == *old(self),
            !old(self).spec_consumed() && old(self).spec_next() is Some ==> r == Ok::<
                usize,
                DispatchError,
            >(old(self).spec_next().unwrap()) && final(self).spec_consumed()
                && final(self).spec_next() == old(self).spec_next(),
    {
        if self.consumed {
            return Err(DispatchError::ContinuationConsumed);
        }
        match self.next {
            None => Err(DispatchError::NoSuccessor),
            Some(n) => {
                self.consumed = true;
                Ok(n)
            },
        }
    }
}

/// An ordered middleware chain. A chain with zero links is invalid, and a
/// handler, having no successor, can only stand at the tail.
pub struct Chain {
    pub links: Vec<Link>,
}

impl Chain {
    pub open spec fn wf(&self) -> bool {
        &&& self.links@.len() >= 1
        &&& forall|i: int| 0 <= i < self.links@.len() - 1 ==> self.links@[i] is Step
    }

    /// Builds a chain, refusing an empty sequence or a handler anywhere but
    /// the tail.
    pub fn new(links: Vec<Link>) -> (r: Option<Chain>)
        ensures
            match r {
                Some(c) => c.links@ == links@ && c.wf(),
                None => links@.len() == 0 || exists|i: int|
                    0 <= i < links@.len() - 1 && !(links@[i] is Step),
            },
    {
        let n = links.len();
        if n == 0 {
            return None;
        }
        let mut i: usize = 0;
        while i < n - 1
            invariant
                n == links@.len(),
                1 <= n,
                i <= n - 1,
                forall|k: int| 0 <= k < i ==> links@[k] is Step,
            decreases n - 1 - i,
        {
            match links[i] {
                Link::Step(_) => {},
                Link::Handler(_) => {
                    return None;
                },
            }
            i = i + 1;
        }
        Some(Chain { links })
    }

    pub fn len(&self) -> (r: usize)
        ensures
            r == self.links@.len(),
    {
        self.links.len()
    }
}

/// Runs the chain from link `i` against the context. Each step gets a fresh
/// one-shot continuation bound to the remainder of the chain.
fn run_from(links: &Vec<Link>, i: usize, ctx: &mut HttpContext) -> (r: Result<
    HttpResponse,
    DispatchError,
>)
    requires
        i < links@.len(),
        kv_wf(old(ctx).spec_vars()),
    ensures
        ({
            let o = run_link_spec(links@, i as int, old(ctx).spec_vars());
            r == o.0 && final(ctx).spec_vars() == o.1
        }),
        final(ctx).request == old(ctx).request,
        kv_wf(final(ctx).spec_vars()),
    decreases links@.len() - i,
{
    let n = links.len();
    let successor: Option<usize> = if i + 1 < n {
        Some(i + 1)
    } else {
        None
    };
    match &links[i] {
        Link::Handler(h) => match h {
            HandlerScript::Respond(st) => Ok(HttpResponse::new(*st)),
            HandlerScript::RespondFromVar(name, fb) => {
                let status = match ctx.get_var(name.as_str()) {
                    Some(v) => match crate::text::parse_usize(v.as_str()) {
                        Some(p) => if p <= u16::MAX as usize {
                            p as u16
                        } else {
                            *fb
                        },
                        None => *fb,
                    },
                    None => *fb,
                };
                Ok(HttpResponse::new(status))
            },
        },
        Link::Step(s) => match s {
            StepScript::Respond(st) => Ok(HttpResponse::new(*st)),
            StepScript::Forward => {
                let mut cont = Continuation::new(successor);
                match cont.try_consume() {
                    Ok(next) => run_from(links, next, ctx),
                    Err(e) => Err(e),
                }
            },
            StepScript::SetVarThenForward(k, v) => {
                ctx.set_var(k.clone(), v.clone());
                let mut cont = Continuation::new(successor);
                match cont.try_consume() {
                    Ok(next) => run_from(links, next, ctx),
                    Err(e) => Err(e),
                }
            },
            StepScript::ForwardThenSetStatus(st) => {
                let mut cont = Continuation::new(successor);
                match cont.try_consume() {
                    Ok(next) => match run_from(links, next, ctx) {
                        Ok(_) => Ok(HttpResponse::new(*st)),
                        Err(e) => Err(e),
                    },
                    Err(e) => Err(e),
                }
            },
            StepScript::ForwardCatch(st) => {
                let mut cont = Continuation::new(successor);
                match cont.try_consume() {
                    Ok(next) => match run_from(links, next, ctx) {
                        Ok(resp) => Ok(resp),
                        Err(_) => Ok(HttpResponse::new(*st)),
                    },
                    Err(_) => Ok(HttpResponse::new(*st)),
                }
            },
            StepScript::ForwardTwice => {
                let mut cont = Continuation::new(successor);
                match cont.try_consume() {
                    Ok(next) => {
                        let first = run_from(links, next, ctx);
                        let second = cont.try_consume();
                        match second {
                            Ok(_) => {
                                proof {
                                    assert(false);
                                }
                                first
                            },
                            Err(e) => Err(e),
                        }
                    },
                    Err(e) => Err(e),
                }
            },
        },
    }
}

/// Drives one dispatch: the head link runs against the context and the
/// chain yields exactly one terminal outcome — a response or a dispatch
/// error — never nothing. The function is total: it terminates for every
/// well-formed chain and never panics.
pub fn run_chain(chain: &Chain, ctx: &mut HttpContext) -> (r: Result<HttpResponse, DispatchError>)
    requires
        chain.wf(),
        kv_wf(old(ctx).spec_vars()),
    ensures
        ({
            let o = run_link_spec(chain.links@, 0, old(ctx).spec_vars());
            r == o.0 && final(ctx).spec_vars() == o.1
        }),
        final(ctx).request == old(ctx).request,
        kv_wf(final(ctx).spec_vars()),
{
    run_from(&chain.links, 0, ctx)
}

/// A step that invokes its continuation twice is rejected deterministically:
/// whatever the rest of the chain did on the first invocation, the step's
/// own outcome is the reuse error, never a silently accepted second run.
pub proof fn lemma_second_invocation_refused(
    links: Seq<Link>,
    i: int,
    vars: Seq<(Seq<char>, Seq<char>)>,
)
    requires
        0 <= i < links.len() - 1,
        links[i] == Link::Step(StepScript::ForwardTwice),
    ensures
        run_link_spec(links, i, vars).0 == Err::<HttpResponse, DispatchError>(
            DispatchError::ContinuationConsumed,
        ),
{
}

/// A step standing at the tail of the chain has no successor: invoking its
/// continuation fails with the distinguished no-successor error.
pub proof fn lemma_tail_step_no_successor(
    links: Seq<Link>,
    vars: Seq<(Seq<char>, Seq<char>)>,
)
    requires
        links.len() >= 1,
        links[links.len() - 1] == Link::Step(StepScript::Forward),
    ensures
        run_link_spec(links, links.len() - 1, vars).0 == Err::<HttpResponse, DispatchError>(
            DispatchError::NoSuccessor,
        ),
{
}

} // verus!
