//! Middleware: each takes a handler and gives a new one that does something
//! around it.

use crate::frame::message::{Response, ResponseView};
use crate::frame::status;
use crate::logger::Level;
use crate::server::reply;
use crate::server::request::Request;
use crate::text;
use crate::time;
use crate::time::{Clock, Duration};
use vstd::prelude::*;

verus! {

/// `id` is one of `allowed`.
pub open spec fn allows(allowed: Seq<String>, id: Seq<char>) -> bool {
    exists|i: int| 0 <= i < allowed.len() && (#[trigger] allowed[i])@ == id
}

/// `r` is the error with the given text.
pub open spec fn is_error(r: Result<Response, String>, text: Seq<char>) -> bool {
    r matches Err(e) && e@ == text
}

/// Nobody is let through by an empty list, and each name on a list lets exactly that
/// name through.
pub proof fn law_allows(allowed: Seq<String>, name: String, id: Seq<char>)
    ensures
        !allows(Seq::<String>::empty(), id),
        allows(allowed.push(name), id) <==> allows(allowed, id) || name@ == id,
{
    let more = allowed.push(name);
    if allows(allowed, id) {
        let i = choose|i: int| 0 <= i < allowed.len() && (#[trigger] allowed[i])@ == id;
        assert(more[i]@ == id);
    }
    if name@ == id {
        assert(more[allowed.len() as int]@ == id);
    }
    if allows(more, id) {
        let i = choose|i: int| 0 <= i < more.len() && (#[trigger] more[i])@ == id;
        if i < allowed.len() {
            assert(allowed[i]@ == id);
        }
    }
}

/// An error is no response, and has its text.
pub proof fn law_is_error(r: Result<Response, String>, text: Seq<char>)
    requires
        is_error(r, text),
    ensures
        r is Err,
        r->Err_0@ == text,
{
}

/// Whether `id` is one of `allowed`.
fn is_allowed(allowed: &Vec<String>, id: &String) -> (r: bool)
    ensures
        r == allows(allowed@, id@),
{
    let mut i: usize = 0;
    while i < allowed.len()
        invariant
            i <= allowed@.len(),
            forall|j: int| 0 <= j < i ==> (#[trigger] allowed@[j])@ != id@,
        decreases allowed@.len() - i,
    {
        if allowed[i] == *id {
            assert(allowed@[i as int]@ == id@);
            return true;
        }
        i = i + 1;
    }
    false
}

/// Let only the API keys in `allowed` through to `next`. Others are refused
/// with an error that names the key, and `next` is not called.
pub fn require_api_key_id<H: Fn(Request) -> Result<Response, String>>(
    allowed: Vec<String>,
    next: H,
) -> (wrapped: impl Fn(Request) -> Result<Response, String>)
    requires
        forall|req: Request| #[trigger] call_requires(next, (req,)),
    ensures
        forall|req: Request| #[trigger] call_requires(wrapped, (req,)),
        forall|req: Request, r: Result<Response, String>| #[trigger]
            call_ensures(wrapped, (req,), r) ==> if allows(allowed@, req.api_key_id@) {
                call_ensures(next, (req,), r)
            } else {
                is_error(r, "api key '"@ + req.api_key_id@ + "' not authorized"@)
            },
{
    move |req: Request| -> (r: Result<Response, String>)
        ensures
            if allows(allowed@, req.api_key_id@) {
                call_ensures(next, (req,), r)
            } else {
                is_error(r, "api key '"@ + req.api_key_id@ + "' not authorized"@)
            },
        {
            if !is_allowed(&allowed, &req.api_key_id) {
                return Err(
                    text::concat3("api key '", req.api_key_id.as_str(), "' not authorized"),
                );
            }
            next(req)
        }
}

/// Refuse a request once `limiter` counts more than `max`. A request that is
/// refused does not reach `next`.
pub fn rate_limit_middleware<L: Fn() -> u64, H: Fn(Request) -> Result<Response, String>>(
    limiter: L,
    max: u64,
    next: H,
) -> (wrapped: impl Fn(Request) -> Result<Response, String>)
    requires
        call_requires(limiter, ()),
        forall|req: Request| #[trigger] call_requires(next, (req,)),
    ensures
        forall|req: Request| #[trigger] call_requires(wrapped, (req,)),
        forall|req: Request, r: Result<Response, String>| #[trigger]
            call_ensures(wrapped, (req,), r) ==> exists|count: u64| #[trigger]
                call_ensures(limiter, (), count) && if count > max {
                    is_error(r, "rate limit exceeded"@)
                } else {
                    call_ensures(next, (req,), r)
                },
{
    move |req: Request| -> (r: Result<Response, String>)
        ensures
            exists|count: u64| #[trigger] call_ensures(limiter, (), count) && if count > max {
                is_error(r, "rate limit exceeded"@)
            } else {
                call_ensures(next, (req,), r)
            },
        {
            if limiter() > max {
                return Err("rate limit exceeded".to_owned());
            }
            next(req)
        }
}

/// The observer, where there is one, was told an opcode, a result and a span of
/// time that a clock measured.
pub open spec fn told<O: Fn(u16, &Result<Response, String>, Duration)>(
    observe: Option<O>,
    opcode: u16,
    r: Result<Response, String>,
) -> bool {
    observe matches Some(o) ==> exists|d: Duration|
        time::measured(d@) && #[trigger] call_ensures(o, (opcode, &r, d), ())
}

/// An observer that was told of a request was told its opcode, its result and a time
/// that was read off a clock.
pub proof fn law_told<O: Fn(u16, &Result<Response, String>, Duration)>(
    observe: O,
    opcode: u16,
    r: Result<Response, String>,
)
    requires
        told(Some(observe), opcode, r),
    ensures
        exists|clock: Clock, d: Duration|
            clock.started() && #[trigger] clock.reads(d@) && #[trigger] call_ensures(
                observe,
                (opcode, &r, d),
                (),
            ),
{
    let d = choose|d: Duration|
        time::measured(d@) && #[trigger] call_ensures(observe, (opcode, &r, d), ());
    let clock = choose|clock: Clock| clock.started() && #[trigger] clock.reads(d@);
    assert(clock.reads(d@) && call_ensures(observe, (opcode, &r, d), ()));
}

/// Hand a request to `next`, and tell `observe`, where there is one, its opcode,
/// what `next` returned and how long it took. What `next` returned is passed on.
pub fn observed_call<
    O: Fn(u16, &Result<Response, String>, Duration),
    H: Fn(Request) -> Result<Response, String>,
>(observe: &Option<O>, next: &H, req: Request) -> (r: Result<Response, String>)
    requires
        *observe matches Some(o) ==> forall|opcode: u16, r: Result<Response, String>, d: Duration|
            #[trigger] call_requires(o, (opcode, &r, d)),
        call_requires(*next, (req,)),
    ensures
        call_ensures(*next, (req,), r),
        told(*observe, req.opcode, r),
        *observe matches Some(o) ==> exists|clock: Clock, d: Duration|
            clock.started() && #[trigger] clock.reads(d@) && #[trigger] call_ensures(
                o,
                (req.opcode, &r, d),
                (),
            ),
{
    let opcode: u16 = req.opcode;
    let clock = Clock::start();
    let result = (*next)(req);
    if let Some(o) = observe {
        let took = Duration::from_nanos(clock.now().nanos);
        assert(clock.reads(took@));
        o(opcode, &result, took);
    }
    result
}

/// Tell `observe`, where there is one, the opcode of each request, what `next`
/// returned and how long it took. What `next` returned is passed on.
pub fn logging_middleware<
    O: Fn(u16, &Result<Response, String>, Duration),
    H: Fn(Request) -> Result<Response, String>,
>(observe: Option<O>, next: H) -> (wrapped: impl Fn(Request) -> Result<Response, String>)
    requires
        observe matches Some(o) ==> forall|opcode: u16, r: Result<Response, String>, d: Duration|
            #[trigger] call_requires(o, (opcode, &r, d)),
        forall|req: Request| #[trigger] call_requires(next, (req,)),
    ensures
        forall|req: Request| #[trigger] call_requires(wrapped, (req,)),
        forall|req: Request, r: Result<Response, String>| #[trigger]
            call_ensures(wrapped, (req,), r) ==> call_ensures(next, (req,), r) && told(
                observe,
                req.opcode,
                r,
            ),
{
    move |req: Request| -> (r: Result<Response, String>)
        ensures
            call_ensures(next, (req,), r) && told(observe, req.opcode, r),
        {
            observed_call(&observe, &next, req)
        }
}

/// What to log of a request: how serious it is, and the text. The time that the
/// request took, in seconds, is given as text.
pub open spec fn entry(
    opcode: u16,
    result: Result<ResponseView, Seq<char>>,
    elapsed: Seq<char>,
) -> (Level, Seq<char>) {
    let start = "[MW] opcode=0x"@ + text::four_hex_digits(opcode);
    match result {
        Ok(resp) => (
            Level::Info,
            start + " status="@ + text::decimal(status::status_code(resp.status) as nat)
                + " elapsed="@ + elapsed + "s"@,
        ),
        Err(e) => (Level::Warn, start + " ERROR elapsed="@ + elapsed + "s err="@ + e),
    }
}

/// What to log of a request: a response for information, and an error as a
/// warning. The time that the request took, in seconds, is given as text.
pub fn log_entry(opcode: u16, result: &Result<Response, String>, elapsed: &str) -> (r: (
    Level,
    String,
))
    ensures
        (r.0, r.1@) == entry(opcode, reply::result_view(*result), elapsed@),
        match *result {
            Ok(resp) => r.0 == Level::Info && r.1@ == "[MW] opcode=0x"@ + text::four_hex_digits(
                opcode,
            ) + " status="@ + text::decimal(status::status_code(resp.status) as nat)
                + " elapsed="@ + elapsed@ + "s"@,
            Err(e) => r.0 == Level::Warn && r.1@ == "[MW] opcode=0x"@ + text::four_hex_digits(
                opcode,
            ) + " ERROR elapsed="@ + elapsed@ + "s err="@ + e@,
        },
{
    let mut s = "[MW] opcode=0x".to_owned();
    text::push_four_hex_digits(&mut s, opcode);
    match result {
        Ok(resp) => {
            s.append(" status=");
            text::push_decimal(&mut s, resp.status.to_u8() as u64);
            s.append(" elapsed=");
            s.append(elapsed);
            s.append("s");
            (Level::Info, s)
        },
        Err(e) => {
            s.append(" ERROR elapsed=");
            s.append(elapsed);
            s.append("s err=");
            s.append(e.as_str());
            (Level::Warn, s)
        },
    }
}

/// Turn a handler that may have failed without returning, and then gives
/// nothing, into one that reports an internal error.
pub fn recovery_middleware<H: Fn(Request) -> Option<Result<Response, String>>>(next: H) -> (wrapped:
    impl Fn(Request) -> Result<Response, String>)
    requires
        forall|req: Request| #[trigger] call_requires(next, (req,)),
    ensures
        forall|req: Request| #[trigger] call_requires(wrapped, (req,)),
        forall|req: Request, r: Result<Response, String>| #[trigger]
            call_ensures(wrapped, (req,), r) ==> call_ensures(next, (req,), Some(r)) || (
            call_ensures(next, (req,), None) && is_error(r, "internal error (panic)"@)),
{
    move |req: Request| -> (r: Result<Response, String>)
        ensures
            call_ensures(next, (req,), Some(r)) || (call_ensures(next, (req,), None)
                && is_error(r, "internal error (panic)"@)),
        {
            match next(req) {
                Some(result) => result,
                None => Err("internal error (panic)".to_owned()),
            }
        }
}

} // verus!
