use swagweb::chain::{run_chain, Chain, Continuation, DispatchError, HandlerScript, Link, StepScript};
use swagweb::content::Content;
use swagweb::context::HttpContext;
use swagweb::headers::Headers;
use swagweb::request::Request;

fn ping_context() -> HttpContext {
    let request = Request::new(
        "/ping".to_string(),
        "GET".to_string(),
        Headers::new(),
        Content::Plain(String::new()),
    );
    HttpContext::new(request)
}

fn chain_of(links: Vec<Link>) -> Chain {
    Chain::new(links).expect("chain should be well-formed")
}

#[test]
fn single_handler_responds() {
    let chain = chain_of(vec![Link::Handler(HandlerScript::Respond(200))]);
    let mut ctx = ping_context();
    let r = run_chain(&chain, &mut ctx);
    assert_eq!(r.expect("should respond").status, 200);
}

#[test]
fn forwarding_step_reaches_the_handler() {
    let chain = chain_of(vec![
        Link::Step(StepScript::Forward),
        Link::Handler(HandlerScript::Respond(204)),
    ]);
    let mut ctx = ping_context();
    let r = run_chain(&chain, &mut ctx);
    assert_eq!(r.expect("should respond").status, 204);
}

#[test]
fn auth_rejection_short_circuits_and_logging_wraps() {
    // A chain of a logging step, an auth step that rejects, and a handler:
    // the auth step never invokes its continuation, the handler never runs,
    // and the logging step observes the rejection on the way out.
    let chain = chain_of(vec![
        Link::Step(StepScript::Forward),
        Link::Step(StepScript::Respond(401)),
        Link::Handler(HandlerScript::Respond(200)),
    ]);
    let mut ctx = ping_context();
    let r = run_chain(&chain, &mut ctx);
    assert_eq!(r.expect("should respond").status, 401);
}

#[test]
fn wrapping_step_transforms_the_response_on_the_way_out() {
    let chain = chain_of(vec![
        Link::Step(StepScript::ForwardThenSetStatus(299)),
        Link::Handler(HandlerScript::Respond(200)),
    ]);
    let mut ctx = ping_context();
    let r = run_chain(&chain, &mut ctx);
    assert_eq!(r.expect("should respond").status, 299);
}

#[test]
fn context_mutation_flows_to_the_handler() {
    let chain = chain_of(vec![
        Link::Step(StepScript::SetVarThenForward("status".to_string(), "418".to_string())),
        Link::Handler(HandlerScript::RespondFromVar("status".to_string(), 200)),
    ]);
    let mut ctx = ping_context();
    let r = run_chain(&chain, &mut ctx);
    assert_eq!(r.expect("should respond").status, 418);
    assert_eq!(ctx.get_var("status").map(|s| s.as_str()), Some("418"));
}

#[test]
fn double_continuation_invocation_is_rejected() {
    let chain = chain_of(vec![
        Link::Step(StepScript::ForwardTwice),
        Link::Handler(HandlerScript::Respond(200)),
    ]);
    let mut ctx = ping_context();
    let r = run_chain(&chain, &mut ctx);
    assert!(matches!(r, Err(DispatchError::ContinuationConsumed)));
}

#[test]
fn tail_step_invoking_continuation_fails_with_no_successor() {
    let chain = chain_of(vec![Link::Step(StepScript::Forward)]);
    let mut ctx = ping_context();
    let r = run_chain(&chain, &mut ctx);
    assert!(matches!(r, Err(DispatchError::NoSuccessor)));
}

#[test]
fn error_handling_step_converts_a_failure_into_a_response() {
    let chain = chain_of(vec![
        Link::Step(StepScript::ForwardCatch(502)),
        Link::Step(StepScript::Forward),
    ]);
    let mut ctx = ping_context();
    let r = run_chain(&chain, &mut ctx);
    assert_eq!(r.expect("should respond").status, 502);
}

#[test]
fn empty_chain_is_invalid() {
    assert!(Chain::new(vec![]).is_none());
}

#[test]
fn handler_before_the_tail_is_invalid() {
    let r = Chain::new(vec![
        Link::Handler(HandlerScript::Respond(200)),
        Link::Handler(HandlerScript::Respond(500)),
    ]);
    assert!(r.is_none());
}

#[test]
fn continuation_is_one_shot() {
    let mut cont = Continuation::new(Some(1));
    assert!(matches!(cont.try_consume(), Ok(1)));
    assert!(matches!(cont.try_consume(), Err(DispatchError::ContinuationConsumed)));
    let mut none = Continuation::new(None);
    assert!(matches!(none.try_consume(), Err(DispatchError::NoSuccessor)));
    assert!(matches!(none.try_consume(), Err(DispatchError::NoSuccessor)));
}
