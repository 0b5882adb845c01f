//! The route registry: one table of handlers for each method.

use crate::request::{same_text, HttpRequest, RequestType};
use crate::response::{not_found_text, HttpResponse};
use vstd::prelude::*;
use vstd::string::*;

verus! {

/// One route of a table: a path and the handler that answers it.
pub struct Endpoint<H> {
    pub path: String,
    pub handler: H,
}

/// Entry `i` of `entries` is the one for `path`.
pub open spec fn holds<H>(entries: Seq<Endpoint<H>>, path: Seq<char>, i: int) -> bool {
    0 <= i < entries.len() && entries[i].path@ == path
}

/// No path stands twice in `entries`.
pub open spec fn distinct<H>(entries: Seq<Endpoint<H>>) -> bool {
    forall|i: int, j: int|
        0 <= i < j < entries.len() ==> #[trigger] entries[i].path@ != #[trigger] entries[j].path@
}

/// The table that `entries` write down: each path with its handler.
pub open spec fn table_of<H>(entries: Seq<Endpoint<H>>) -> Map<Seq<char>, H> {
    Map::new(
        |p: Seq<char>| exists|i: int| holds(entries, p, i),
        |p: Seq<char>| entries[choose|i: int| holds(entries, p, i)].handler,
    )
}

/// The two tables of a registry.
pub ghost struct RouteTables<H> {
    pub get: Map<Seq<char>, H>,
    pub post: Map<Seq<char>, H>,
}

/// The tables with `handler` answering `path` under `method`. Nothing can
/// be registered under `UNDEFINED`.
pub open spec fn registered<H>(
    tables: RouteTables<H>,
    method: RequestType,
    path: Seq<char>,
    handler: H,
) -> RouteTables<H> {
    match method {
        RequestType::GET => RouteTables { get: tables.get.insert(path, handler), ..tables },
        RequestType::POST => RouteTables { post: tables.post.insert(path, handler), ..tables },
        RequestType::UNDEFINED => tables,
    }
}

/// The handler that answers `path` under `method`, if there is one. The
/// path is matched as it is written, character by character.
pub open spec fn resolved<H>(tables: RouteTables<H>, method: RequestType, path: Seq<char>) -> Option<
    H,
> {
    match method {
        RequestType::GET => if tables.get.contains_key(path) {
            Some(tables.get[path])
        } else {
            None
        },
        RequestType::POST => if tables.post.contains_key(path) {
            Some(tables.post[path])
        } else {
            None
        },
        RequestType::UNDEFINED => None,
    }
}

/// A handler registered for a method and a path is the one that this
/// method and this path resolve to, and every other method and path
/// resolves as before.
pub proof fn lemma_registered_route_resolves<H>(
    tables: RouteTables<H>,
    method: RequestType,
    path: Seq<char>,
    handler: H,
)
    requires
        method != RequestType::UNDEFINED,
    ensures
        resolved(registered(tables, method, path, handler), method, path) == Some(handler),
        forall|m: RequestType, p: Seq<char>|
            m != method || p != path ==> #[trigger] resolved(
                registered(tables, method, path, handler),
                m,
                p,
            ) == resolved(tables, m, p),
{
}

/// Nothing resolves under `UNDEFINED`, and nothing resolves in tables
/// without routes.
pub proof fn lemma_unregistered_route_is_not_found<H>(
    tables: RouteTables<H>,
    method: RequestType,
    path: Seq<char>,
)
    ensures
        resolved(tables, RequestType::UNDEFINED, path) is None,
        resolved(RouteTables::<H> { get: Map::empty(), post: Map::empty() }, method, path) is None,
        method == RequestType::GET && !tables.get.contains_key(path) ==> resolved(
            tables,
            method,
            path,
        ) is None,
        method == RequestType::POST && !tables.post.contains_key(path) ==> resolved(
            tables,
            method,
            path,
        ) is None,
{
}

/// Where `path` stands in `entries`.
fn position<H>(entries: &Vec<Endpoint<H>>, path: &str) -> (r: Option<usize>)
    ensures
        match r {
            Some(i) => holds(entries@, path@, i as int),
            None => forall|i: int| !holds(entries@, path@, i),
        },
{
    let mut i: usize = 0;
    while i < entries.len()
        invariant
            i <= entries.len(),
            forall|j: int| 0 <= j < i ==> !holds(entries@, path@, j),
        decreases entries.len() - i,
    {
        if same_text(entries[i].path.as_str(), path) {
            return Some(i);
        }
        i += 1;
    }
    None
}

/// Looks `path` up in `entries`.
fn lookup<'a, H>(entries: &'a Vec<Endpoint<H>>, path: &str) -> (r: Option<&'a H>)
    requires
        distinct(entries@),
    ensures
        match r {
            Some(h) => table_of(entries@).contains_key(path@) && table_of(entries@)[path@] == *h,
            None => !table_of(entries@).contains_key(path@),
        },
{
    match position(entries, path) {
        Some(i) => {
            proof {
                let k = choose|k: int| holds(entries@, path@, k);
                assert(holds(entries@, path@, k));
                assert(k == i);
            }
            Some(&entries[i].handler)
        },
        None => None,
    }
}

/// Writes `handler` down for `path`, in place of the handler that `path`
/// had, if it had one.
fn put<H>(entries: &mut Vec<Endpoint<H>>, path: &str, handler: H)
    requires
        distinct(old(entries)@),
    ensures
        distinct(final(entries)@),
        table_of(final(entries)@) == table_of(old(entries)@).insert(path@, handler),
{
    let ghost before = entries@;
    let entry = Endpoint { path: String::from_str(path), handler };
    let found = position(entries, path);
    match found {
        Some(i) => {
            entries.set(i, entry);
        },
        None => {
            entries.push(entry);
        },
    }
    proof {
        let after = entries@;
        let w: int = match found {
            Some(i) => i as int,
            None => before.len() as int,
        };
        assert(holds(after, path@, w));
        assert(after[w].handler == handler);
        assert forall|a: int| 0 <= a < before.len() && a != w implies after[a] == before[a] by {}
        assert forall|a: int| 0 <= a < before.len() && a != w implies before[a].path@
            != path@ by {
            if holds(before, path@, a) {
                assert(holds(before, path@, w));
            }
        }
        assert(distinct(after)) by {
            assert forall|a: int, b: int| 0 <= a < b < after.len() implies #[trigger] after[a].path@
                != #[trigger] after[b].path@ by {
                if a != w && b != w {
                    assert(before[a].path@ != before[b].path@);
                }
            }
        }
        let goal = table_of(before).insert(path@, handler);
        assert forall|p: Seq<char>| #[trigger] table_of(after).contains_key(p) == goal.contains_key(
            p,
        ) by {
            if table_of(after).contains_key(p) && p != path@ {
                let k = choose|k: int| holds(after, p, k);
                assert(holds(before, p, k));
            }
            if goal.contains_key(p) && p != path@ {
                let k = choose|k: int| holds(before, p, k);
                assert(holds(after, p, k));
            }
        }
        assert forall|p: Seq<char>| #[trigger] table_of(after).contains_key(p) implies table_of(
            after,
        )[p] == goal[p] by {
            let k = choose|k: int| holds(after, p, k);
            if p == path@ {
                assert(k == w);
            } else {
                assert(holds(before, p, k));
                let m = choose|m: int| holds(before, p, m);
                assert(m == k);
            }
        }
        assert(table_of(after) =~= goal);
    }
}

/// What the engine does with a request once it is read.
pub enum Dispatch<'a, H> {
    /// The handler that answers the request is to be called.
    Invoke(&'a H),
    /// No handler answers it: the text of the response for that case, to be
    /// written as it is.
    NotFound(String),
}

/// The registry of an engine: the address to listen on, and for each of
/// GET and POST a table from paths to handlers. A path stands once in a
/// table.
pub struct App<H> {
    addr: String,
    get_endpoints: Vec<Endpoint<H>>,
    post_endpoints: Vec<Endpoint<H>>,
}

impl<H> View for App<H> {
    type V = RouteTables<H>;

    closed spec fn view(&self) -> RouteTables<H> {
        RouteTables { get: table_of(self.get_endpoints@), post: table_of(self.post_endpoints@) }
    }
}

impl<H> App<H> {
    /// No path stands twice in a table.
    pub closed spec fn wf(&self) -> bool {
        distinct(self.get_endpoints@) && distinct(self.post_endpoints@)
    }

    /// The address that the registry was made for.
    pub closed spec fn address(&self) -> Seq<char> {
        self.addr@
    }

    /// A registry for `addr` with no route.
    pub fn new(addr: &str) -> (r: Self)
        ensures
            r.wf(),
            r.address() == addr@,
            r@ == (RouteTables::<H> { get: Map::empty(), post: Map::empty() }),
    {
        let r = App { addr: String::from_str(addr), get_endpoints: Vec::new(), post_endpoints: Vec::new() };
        assert(table_of(r.get_endpoints@) =~= Map::empty());
        assert(table_of(r.post_endpoints@) =~= Map::empty());
        r
    }

    /// The address to listen on.
    pub fn addr(&self) -> (a: &str)
        ensures
            a@ == self.address(),
    {
        self.addr.as_str()
    }

    /// Registers `handler` for requests to `route` under `method`. A handler
    /// that the route had before is replaced; under `UNDEFINED` nothing is
    /// registered.
    pub fn register(&mut self, method: RequestType, route: &str, handler: H)
        requires
            old(self).wf(),
        ensures
            final(self).wf(),
            final(self)@ == registered(old(self)@, method, route@, handler),
            final(self).address() == old(self).address(),
    {
        match method {
            RequestType::GET => put(&mut self.get_endpoints, route, handler),
            RequestType::POST => put(&mut self.post_endpoints, route, handler),
            RequestType::UNDEFINED => {},
        }
    }

    /// Registers `handler` for GET requests to `route`. A handler that
    /// `route` had before is replaced.
    pub fn get(&mut self, route: &str, handler: H)
        requires
            old(self).wf(),
        ensures
            final(self).wf(),
            final(self)@ == registered(old(self)@, RequestType::GET, route@, handler),
            final(self).address() == old(self).address(),
    {
        self.register(RequestType::GET, route, handler);
    }

    /// Registers `handler` for POST requests to `route`. A handler that
    /// `route` had before is replaced.
    pub fn post(&mut self, route: &str, handler: H)
        requires
            old(self).wf(),
        ensures
            final(self).wf(),
            final(self)@ == registered(old(self)@, RequestType::POST, route@, handler),
            final(self).address() == old(self).address(),
    {
        self.register(RequestType::POST, route, handler);
    }

    /// The handler registered for `method` and `path`, if there is one.
    pub fn resolve(&self, method: RequestType, path: &str) -> (r: Option<&H>)
        requires
            self.wf(),
        ensures
            match r {
                Some(h) => resolved(self@, method, path@) == Some(*h),
                None => resolved(self@, method, path@) is None,
            },
    {
        match method {
            RequestType::GET => lookup(&self.get_endpoints, path),
            RequestType::POST => lookup(&self.post_endpoints, path),
            RequestType::UNDEFINED => None,
        }
    }

    /// Decides what answers `req`: the handler registered for its method
    /// and path, or, where there is none, the fixed response with status
    /// 404 and an empty body.
    pub fn dispatch(&self, req: &HttpRequest) -> (r: Dispatch<'_, H>)
        requires
            self.wf(),
        ensures
            match r {
                Dispatch::Invoke(h) => resolved(self@, req.request_type, req.route@) == Some(*h),
                Dispatch::NotFound(text) => resolved(self@, req.request_type, req.route@) is None
                    && text@ == not_found_text(),
            },
    {
        match self.resolve(req.request_type, req.route.as_str()) {
            Some(h) => Dispatch::Invoke(h),
            None => {
                let mut res = HttpResponse::new();
                match res.send_not_found() {
                    Some(text) => Dispatch::NotFound(text),
                    None => Dispatch::NotFound(String::new()),
                }
            },
        }
    }
}

} // verus!
