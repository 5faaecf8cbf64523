//! The request line that selects a page, and the response that carries it.

use vstd::prelude::*;
use vstd::string::StringSliceAdditionalSpecFns;

verus! {

/// What a request asks for, as far as this server tells requests apart.
#[derive(Clone, Copy, PartialEq, Eq, Structural, Debug)]
pub enum Route {
    /// The front page.
    Home,
    /// The front page, served after a pause.
    Sleep,
    /// Anything else.
    NotFound,
}

/// The request line of the front page, as bytes.
pub open spec fn home_line() -> Seq<u8> {
    "GET / HTTP/1.1\r\n".spec_bytes()
}

/// The request line of the slow page, as bytes.
pub open spec fn sleep_line() -> Seq<u8> {
    "GET /sleep HTTP/1.1\r\n".spec_bytes()
}

/// The route that the bytes of a request select: by the request line they
/// begin with.
pub open spec fn route_of(request: Seq<u8>) -> Route {
    if home_line().is_prefix_of(request) {
        Route::Home
    } else if sleep_line().is_prefix_of(request) {
        Route::Sleep
    } else {
        Route::NotFound
    }
}

/// The decimal digits of `n` in ASCII, without leading zeros.
pub open spec fn decimal(n: nat) -> Seq<u8>
    decreases n,
{
    if n < 10 {
        seq![(48 + n) as u8]
    } else {
        decimal(n / 10).push((48 + n % 10) as u8)
    }
}

/// The response with this status line and this body: the status line, the
/// length of the body in a header of its own, an empty line, the body.
pub open spec fn response_of(status_line: Seq<u8>, contents: Seq<u8>) -> Seq<u8> {
    status_line + "\r\nContent-Length: ".spec_bytes() + decimal(contents.len())
        + "\r\n\r\n".spec_bytes() + contents
}

/// Whether `bytes` begins with `prefix`.
pub fn starts_with(bytes: &[u8], prefix: &[u8]) -> (found: bool)
    ensures
        found == prefix@.is_prefix_of(bytes@),
{
    if prefix.len() > bytes.len() {
        return false;
    }
    let mut i: usize = 0;
    while i < prefix.len()
        invariant
            i <= prefix@.len() <= bytes@.len(),
            forall|k: int| 0 <= k < i ==> prefix@[k] == bytes@[k],
        decreases prefix.len() - i,
    {
        if prefix[i] != bytes[i] {
            assert(!prefix@.is_prefix_of(bytes@)) by {
                if prefix@.is_prefix_of(bytes@) {
                    assert(bytes@.subrange(0, prefix@.len() as int)[i as int] == prefix@[i as int]);
                }
            }
            return false;
        }
        i += 1;
    }
    assert(prefix@ =~= bytes@.subrange(0, prefix@.len() as int));
    true
}

/// Tells which page the bytes read from a connection ask for.
pub fn route(request: &[u8]) -> (route: Route)
    ensures
        route == route_of(request@),
{
    if starts_with(request, "GET / HTTP/1.1\r\n".as_bytes()) {
        Route::Home
    } else if starts_with(request, "GET /sleep HTTP/1.1\r\n".as_bytes()) {
        Route::Sleep
    } else {
        Route::NotFound
    }
}

impl Route {
    /// The status line of the answer.
    pub fn status_line(self) -> (line: &'static str)
        ensures
            line@ == (if self == Route::NotFound {
                "HTTP/1.1 404 NOT FOUND"@
            } else {
                "HTTP/1.1 200 OK"@
            }),
    {
        match self {
            Route::Home | Route::Sleep => "HTTP/1.1 200 OK",
            Route::NotFound => "HTTP/1.1 404 NOT FOUND",
        }
    }

    /// The name of the file that holds the answer's body.
    pub fn filename(self) -> (name: &'static str)
        ensures
            name@ == (if self == Route::NotFound {
                "404.html"@
            } else {
                "hello.html"@
            }),
    {
        match self {
            Route::Home | Route::Sleep => "hello.html",
            Route::NotFound => "404.html",
        }
    }

    /// The pause before the answer is made, in seconds, where there is one.
    pub fn delay_secs(self) -> (secs: Option<u64>)
        ensures
            secs == (if self == Route::Sleep {
                Some(5u64)
            } else {
                None
            }),
    {
        match self {
            Route::Sleep => Some(5),
            Route::Home | Route::NotFound => None,
        }
    }
}

/// Appends `bytes` to `out`.
fn append(out: &mut Vec<u8>, bytes: &[u8])
    ensures
        final(out)@ == old(out)@ + bytes@,
{
    let mut i: usize = 0;
    while i < bytes.len()
        invariant
            i <= bytes@.len(),
            out@ == old(out)@ + bytes@.subrange(0, i as int),
        decreases bytes.len() - i,
    {
        out.push(bytes[i]);
        assert(out@ =~= old(out)@ + bytes@.subrange(0, i + 1));
        i += 1;
    }
    assert(bytes@.subrange(0, i as int) =~= bytes@);
}

/// Appends the decimal digits of `n` to `out`.
fn append_decimal(out: &mut Vec<u8>, n: usize)
    ensures
        final(out)@ == old(out)@ + decimal(n as nat),
    decreases n,
{
    if n >= 10 {
        append_decimal(out, n / 10);
    }
    let digit: u8 = (n % 10) as u8;
    out.push(48 + digit);
    assert(out@ =~= old(out)@ + decimal(n as nat));
}

/// Builds the bytes of the response with this status line and this body.
pub fn response(status_line: &str, contents: &[u8]) -> (bytes: Vec<u8>)
    ensures
        bytes@ == response_of(status_line.spec_bytes(), contents@),
{
    let mut bytes: Vec<u8> = Vec::new();
    append(&mut bytes, status_line.as_bytes());
    append(&mut bytes, "\r\nContent-Length: ".as_bytes());
    append_decimal(&mut bytes, contents.len());
    append(&mut bytes, "\r\n\r\n".as_bytes());
    append(&mut bytes, contents);
    assert(bytes@ =~= response_of(status_line.spec_bytes(), contents@));
    bytes
}

} // verus!
