//! Methods, request-line parsing, and exact-path routing.

use vstd::prelude::*;

use crate::text::{find_char, find_char_from, lemma_find_char};

verus! {

/// An HTTP method. The set is closed: any request token other than `GET`
/// collapses to `POST` (a deliberate quirk — unrecognized methods are not
/// rejected).
#[derive(Clone, Copy, PartialEq, Eq, Structural, Debug)]
pub enum Method {
    GET,
    POST,
}

impl Method {
    /// The wire name of this method.
    pub open spec fn spec_name(self) -> Seq<char> {
        match self {
            Method::GET => "GET"@,
            Method::POST => "POST"@,
        }
    }

    /// The wire name of this method.
    pub fn as_str(&self) -> (r: &'static str)
        ensures
            r@ == self.spec_name(),
    {
        match self {
            Method::GET => "GET",
            Method::POST => "POST",
        }
    }

    /// The method a request token denotes: `GET` names GET; any other token
    /// collapses to POST.
    pub open spec fn spec_of_token(s: Seq<char>) -> Method {
        if s == "GET"@ {
            Method::GET
        } else {
            Method::POST
        }
    }
}

impl From<String> for Method {
    fn from(v: String) -> (m: Method) {
        let g: String = "GET".to_owned();
        if v == g {
            Method::GET
        } else {
            Method::POST
        }
    }
}

impl vstd::std_specs::convert::FromSpecImpl<String> for Method {
    open spec fn obeys_from_spec() -> bool {
        true
    }

    open spec fn from_spec(v: String) -> Method {
        Method::spec_of_token(v@)
    }
}

/// Why a connection is abandoned without a handler running.
#[derive(Clone, Copy, PartialEq, Eq, Structural, Debug)]
pub enum RequestError {
    /// The request line held fewer than two space-separated tokens.
    MalformedRequestLine,
    /// No handler is registered for the (method, path) key.
    NoRoute,
}

/// What a request line parses to. The token before the first space names the
/// method and the token between the first and the second space (or the end of
/// the line) is the path; a line without any space is malformed.
pub open spec fn spec_parse_request_line(line: Seq<char>) -> Option<(Method, Seq<char>)> {
    let i = find_char(line, ' ', 0);
    if i == line.len() {
        None
    } else {
        Some(
            (
                Method::spec_of_token(line.take(i)),
                line.subrange(i + 1, find_char(line, ' ', i + 1)),
            ),
        )
    }
}

/// Splits the request line on spaces into its method and path tokens, or
/// reports a line with fewer than two tokens.
pub fn parse_request_line(line: &str) -> (r: Option<(Method, String)>)
    ensures
        match r {
            Some((m, p)) => spec_parse_request_line(line@) == Some::<(Method, Seq<char>)>(
                (m, p@),
            ),
            None => spec_parse_request_line(line@) is None,
        },
{
    let n = line.unicode_len();
    let i = find_char_from(line, ' ', 0);
    proof {
        lemma_find_char(line@, ' ', 0);
    }
    if i == n {
        return None;
    }
    let method_token: String = line.substring_char(0, i).to_owned();
    let m = Method::from(method_token);
    let j = find_char_from(line, ' ', i + 1);
    proof {
        lemma_find_char(line@, ' ', i + 1);
    }
    let p: String = line.substring_char(i + 1, j).to_owned();
    Some((m, p))
}

/// The route key of a registration entry.
pub open spec fn route_key<H>(e: (Method, String, H)) -> (Method, Seq<char>) {
    (e.0, e.1@)
}

/// The mapping the registrations denote: a later registration for a key
/// overrides an earlier one.
pub open spec fn route_map_of<H>(s: Seq<(Method, String, H)>) -> Map<(Method, Seq<char>), H>
    decreases s.len(),
{
    if s.len() == 0 {
        Map::empty()
    } else {
        route_map_of(s.drop_last()).insert(route_key(s.last()), s.last().2)
    }
}

/// A registry of handlers keyed by (method, exact path). Handlers are opaque
/// values of type `H`, moved in at registration and owned by the server.
pub struct Server<H> {
    handlers: Vec<(Method, String, H)>,
}

impl<H> Server<H> {
    /// The mapping from (method, path) to the most recently registered
    /// handler for that key.
    pub closed spec fn routes(self) -> Map<(Method, Seq<char>), H> {
        route_map_of(self.handlers@)
    }

    /// Creates a server with no routes.
    pub fn new() -> (s: Server<H>)
        ensures
            s.routes() == Map::<(Method, Seq<char>), H>::empty(),
    {
        Server { handlers: Vec::new() }
    }

    /// Registers `ffn` for the exact key (`method`, `pattern`), replacing any
    /// prior handler for that key.
    fn register(&mut self, method: Method, pattern: &str, ffn: H)
        ensures
            final(self).routes() == old(self).routes().insert((method, pattern@), ffn),
    {
        self.handlers.push((method, pattern.to_owned(), ffn));
        proof {
            assert(self.handlers@.drop_last() =~= old(self).handlers@);
        }
    }

    /// Registers `ffn` for GET requests on the exact path `pattern` and
    /// returns the same instance, so that calls can be chained.
    pub fn handler_get(&mut self, pattern: &str, ffn: H) -> (r: &mut Self)
        ensures
            r.routes() == old(self).routes().insert((Method::GET, pattern@), ffn),
            *final(self) == *final(r),
    {
        self.register(Method::GET, pattern, ffn);
        self
    }

    /// Registers `ffn` for POST requests on the exact path `pattern` and
    /// returns the same instance, so that calls can be chained.
    pub fn handler_post(&mut self, pattern: &str, ffn: H) -> (r: &mut Self)
        ensures
            r.routes() == old(self).routes().insert((Method::POST, pattern@), ffn),
            *final(self) == *final(r),
    {
        self.register(Method::POST, pattern, ffn);
        self
    }

    /// Looks up the handler registered for the exact key (`method`, `path`),
    /// or reports that none exists.
    pub fn resolve(&self, method: Method, path: &String) -> (r: Option<&H>)
        ensures
            match r {
                Some(h) => {
                    &&& self.routes().contains_key((method, path@))
                    &&& *h == self.routes()[(method, path@)]
                },
                None => !self.routes().contains_key((method, path@)),
            },
    {
        let n = self.handlers.len();
        let mut i: usize = n;
        while i > 0
            invariant
                i <= n,
                n == self.handlers.len(),
                forall|j: int|
                    i <= j < n ==> route_key(#[trigger] self.handlers@[j]) != (method, path@),
            decreases i,
        {
            i = i - 1;
            let e = &self.handlers[i];
            if e.0 == method && e.1.eq(path) {
                proof {
                    lemma_route_map_suffix(self.handlers@, i + 1, method, path@);
                    assert(self.handlers@.take(i + 1).drop_last() =~= self.handlers@.take(i as int));
                    assert(self.handlers@.take(i + 1).last() == self.handlers@[i as int]);
                }
                return Some(&e.2);
            }
        }
        proof {
            lemma_route_map_suffix(self.handlers@, 0, method, path@);
            assert(self.handlers@.take(0) =~= Seq::<(Method, String, H)>::empty());
        }
        None
    }

    /// Decides one request: parses the request line, then resolves the route.
    /// Either yields the registered handler, or says why none runs.
    pub fn dispatch(&self, request_line: &str) -> (r: Result<&H, RequestError>)
        ensures
            match spec_parse_request_line(request_line@) {
                None => r == Err::<&H, RequestError>(RequestError::MalformedRequestLine),
                Some((m, p)) => match r {
                    Ok(h) => {
                        &&& self.routes().contains_key((m, p))
                        &&& *h == self.routes()[(m, p)]
                    },
                    Err(e) => {
                        &&& e == RequestError::NoRoute
                        &&& !self.routes().contains_key((m, p))
                    },
                },
            },
    {
        match parse_request_line(request_line) {
            None => Err(RequestError::MalformedRequestLine),
            Some((m, p)) => match self.resolve(m, &p) {
                Some(h) => Ok(h),
                None => Err(RequestError::NoRoute),
            },
        }
    }
}

/// Registrations whose keys differ from a key leave that key's binding as the
/// shorter prefix of registrations has it.
proof fn lemma_route_map_suffix<H>(
    s: Seq<(Method, String, H)>,
    i: int,
    method: Method,
    path: Seq<char>,
)
    requires
        0 <= i <= s.len(),
        forall|j: int| i <= j < s.len() ==> route_key(#[trigger] s[j]) != (method, path),
    ensures
        route_map_of(s).contains_key((method, path)) == route_map_of(s.take(i)).contains_key(
            (method, path),
        ),
        route_map_of(s).contains_key((method, path)) ==> route_map_of(s)[(method, path)]
            == route_map_of(s.take(i))[(method, path)],
    decreases s.len() - i,
{
    if i == s.len() {
        assert(s.take(i) =~= s);
    } else {
        let s2 = s.drop_last();
        assert(route_key(s.last()) != (method, path));
        lemma_route_map_suffix(s2, i, method, path);
        assert(s2.take(i) =~= s.take(i));
    }
}

/// The handler most recently registered for a key is the one the route map
/// holds for that key, whatever was registered for it before.
pub proof fn lemma_last_registration_wins<H>(
    routes: Map<(Method, Seq<char>), H>,
    method: Method,
    path: Seq<char>,
    ffn: H,
)
    ensures
        routes.insert((method, path), ffn).contains_key((method, path)),
        routes.insert((method, path), ffn)[(method, path)] == ffn,
{
}

/// A key that no registration ever named is absent from the route map, so
/// resolving it reports "not found" and no handler is produced.
pub proof fn lemma_unregistered_not_found<H>(
    s: Seq<(Method, String, H)>,
    method: Method,
    path: Seq<char>,
)
    requires
        forall|j: int| 0 <= j < s.len() ==> route_key(#[trigger] s[j]) != (method, path),
    ensures
        !route_map_of(s).contains_key((method, path)),
    decreases s.len(),
{
    if s.len() > 0 {
        lemma_unregistered_not_found(s.drop_last(), method, path);
    }
}

} // verus!
