use hush::frame::{Response, StatusCode};
use hush::logger::Level;
use hush::middleware::{
    log_entry, logging_middleware, observed_call, rate_limit_middleware, recovery_middleware, require_api_key_id,
};
use hush::server::Request;
use hush::time::Duration;
use hush::tlv::TlvMap;
use std::cell::{Cell, RefCell};

type Observer = fn(u16, &Result<Response, String>, Duration);

fn ok_handler() -> impl Fn(Request) -> Result<Response, String> {
    |_req: Request| {
        Ok(Response { status: StatusCode::Success, payload: Some(TlvMap::new()), seq: 0 })
    }
}

fn err_handler() -> impl Fn(Request) -> Result<Response, String> {
    |_req: Request| Err("oops".into())
}

fn request(id: &str) -> Request {
    Request { opcode: 0x0101, payload: TlvMap::new(), session_id: 1, api_key_id: id.into() }
}

#[test]
fn test_middleware_passthrough() {
    let wrapped = logging_middleware(None::<Observer>, ok_handler());
    let resp = wrapped(request("test")).unwrap();
    assert_eq!(resp.status, StatusCode::Success);
}

#[test]
fn test_recovery_middleware() {
    let panic_handler = |_req: Request| -> Result<Response, String> {
        panic!("boom");
    };
    let runtime = tokio::runtime::Runtime::new().unwrap();
    let wrapped = recovery_middleware(move |req: Request| {
        runtime.block_on(async { tokio::spawn(async move { panic_handler(req) }).await.ok() })
    });
    let result = wrapped(request("test"));
    assert!(result.is_err());
}

#[test]
fn test_require_api_key() {
    let wrapped = require_api_key_id(vec!["admin".into()], ok_handler());
    assert!(wrapped(request("admin")).is_ok());
    assert!(wrapped(request("hacker")).is_err());
}

#[test]
fn refused_key_is_named() {
    let wrapped = require_api_key_id(vec!["a".into(), "b".into()], ok_handler());
    assert!(wrapped(request("b")).is_ok());
    assert_eq!(wrapped(request("c")).unwrap_err(), "api key 'c' not authorized");
    let none = require_api_key_id(vec![], ok_handler());
    assert_eq!(none(request("")).unwrap_err(), "api key '' not authorized");
}

#[test]
fn rate_limit_counts() {
    let count = Cell::new(0u64);
    let calls = Cell::new(0u32);
    let wrapped = rate_limit_middleware(
        || {
            count.set(count.get() + 1);
            count.get()
        },
        2,
        |req| {
            calls.set(calls.get() + 1);
            ok_handler()(req)
        },
    );
    assert!(wrapped(request("x")).is_ok());
    assert!(wrapped(request("x")).is_ok());
    assert_eq!(wrapped(request("x")).unwrap_err(), "rate limit exceeded");
    assert_eq!(calls.get(), 2);
}

#[test]
fn logging_observes_and_passes_on() {
    let seen: RefCell<Vec<(u16, bool)>> = RefCell::new(vec![]);
    let wrapped = logging_middleware(
        Some(|opcode: u16, r: &Result<Response, String>, _d: Duration| {
            seen.borrow_mut().push((opcode, r.is_ok()));
        }),
        err_handler(),
    );
    assert_eq!(wrapped(request("x")).unwrap_err(), "oops");
    assert_eq!(*seen.borrow(), vec![(0x0101, false)]);
}

#[test]
fn one_request_is_observed() {
    let seen: RefCell<Vec<(u16, bool, Duration)>> = RefCell::new(vec![]);
    let observe = Some(|opcode: u16, r: &Result<Response, String>, d: Duration| {
        seen.borrow_mut().push((opcode, r.is_ok(), d));
    });
    assert!(observed_call(&observe, &ok_handler(), request("x")).is_ok());
    let calls = seen.borrow();
    assert_eq!((calls.len(), calls[0].0, calls[0].1), (1, 0x0101, true));
    assert!(calls[0].2.nanos < 10_000_000_000);
    let e = observed_call(&None::<Observer>, &err_handler(), request("x")).unwrap_err();
    assert_eq!(e, "oops");
}

#[test]
fn what_is_logged_of_a_request() {
    let ok = Ok(Response { status: StatusCode::NotFound, payload: None, seq: 3 });
    let (level, text) = log_entry(0x01af, &ok, "0.25");
    assert_eq!(level, Level::Info);
    assert_eq!(text, "[MW] opcode=0x01af status=4 elapsed=0.25s");
    let (level, text) = log_entry(7, &Err("oops".into()), "1");
    assert_eq!(level, Level::Warn);
    assert_eq!(text, "[MW] opcode=0x0007 ERROR elapsed=1s err=oops");
}

#[test]
fn recovery_reports_an_internal_error() {
    let wrapped = recovery_middleware(|_req: Request| None);
    assert_eq!(wrapped(request("x")).unwrap_err(), "internal error (panic)");
    let wrapped = recovery_middleware(|req: Request| Some(err_handler()(req)));
    assert_eq!(wrapped(request("x")).unwrap_err(), "oops");
    let wrapped = recovery_middleware(|req: Request| Some(ok_handler()(req)));
    assert!(wrapped(request("x")).is_ok());
}

#[test]
fn middleware_composes() {
    let inner = require_api_key_id(vec!["admin".into()], ok_handler());
    let wrapped = rate_limit_middleware(|| 1, 1, inner);
    assert!(wrapped(request("admin")).is_ok());
    assert_eq!(wrapped(request("x")).unwrap_err(), "api key 'x' not authorized");
}
