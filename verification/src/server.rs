//! The routes of the server, and who may use them.

use vstd::prelude::*;
use vstd::string::*;

use crate::handlers::headers::{is_header_value, valid_header_value};
use crate::text::{begins_with, views};

verus! {

#[derive(Debug, Clone, Copy, PartialEq, Eq, Structural)]
pub enum Method {
    Get,
    Post,
    Delete,
}

/// What a route does.
#[derive(Debug, Clone, Copy, PartialEq, Eq, Structural)]
pub enum Endpoint {
    Index,
    Health,
    Storage,
    Config,
    OpenApi,
    ServeFile,
    StoreFile,
    StoreFileStreaming,
    DeleteFile,
    RenameFile,
    StatFile,
    ConcatFiles,
    StoreFileTicket,
}

/// Who may use a route.
#[derive(Debug, Clone, Copy, PartialEq, Eq, Structural)]
pub enum Guard {
    Anyone,
    /// Anyone who is not banned.
    NotBanned,
    /// Who has the API key, or a file capability.
    ApiKey,
    /// Who has the API key or a ticket.
    ApiKeyOrTicket,
}

/// A route.
#[derive(Debug, Clone, Copy, PartialEq, Eq)]
pub struct Route {
    pub method: Method,
    pub path: &'static str,
    pub endpoint: Endpoint,
    pub guard: Guard,
    /// The most bytes of a body that is read as a whole.
    pub body_limit: Option<u64>,
    /// Seconds that a request may take, where it is less than any request may.
    pub timeout: Option<u64>,
}

/// Bytes of a request to concatenate files.
pub const CONCAT_BODY_LIMIT: u64 = 65536;

/// Seconds that a request to a public endpoint may take.
pub const PUBLIC_TIMEOUT: u64 = 300;

pub open spec fn open_route(method: Method, path: &'static str, endpoint: Endpoint) -> Route {
    Route {
        method,
        path,
        endpoint,
        guard: Guard::Anyone,
        body_limit: None,
        timeout: Some(PUBLIC_TIMEOUT),
    }
}

pub open spec fn internal_route(
    method: Method,
    path: &'static str,
    endpoint: Endpoint,
    limit: u64,
) -> Route {
    Route {
        method,
        path,
        endpoint,
        guard: Guard::ApiKey,
        body_limit: Some(limit),
        timeout: None,
    }
}

/// The routes of a host that takes files of at most `max` bytes.
pub open spec fn route_table(max: u64) -> Seq<Route> {
    seq![
        Route {
            method: Method::Get,
            path: "/",
            endpoint: Endpoint::Index,
            guard: Guard::Anyone,
            body_limit: None,
            timeout: None,
        },
        open_route(Method::Get, "/api/health", Endpoint::Health),
        open_route(Method::Get, "/api/storage", Endpoint::Storage),
        open_route(Method::Get, "/api/config", Endpoint::Config),
        open_route(Method::Get, "/api/openapi.json", Endpoint::OpenApi),
        Route {
            method: Method::Get,
            path: "/f/*path",
            endpoint: Endpoint::ServeFile,
            guard: Guard::NotBanned,
            body_limit: None,
            timeout: None,
        },
        internal_route(Method::Post, "/internal/file", Endpoint::StoreFile, max),
        internal_route(
            Method::Post,
            "/internal/file/stream/:id/:filename",
            Endpoint::StoreFileStreaming,
            max,
        ),
        internal_route(Method::Delete, "/internal/file/:id", Endpoint::DeleteFile, max),
        internal_route(Method::Post, "/internal/file/:id/rename", Endpoint::RenameFile, max),
        internal_route(Method::Get, "/internal/file/:id/stat", Endpoint::StatFile, max),
        internal_route(
            Method::Post,
            "/internal/file/concat",
            Endpoint::ConcatFiles,
            CONCAT_BODY_LIMIT,
        ),
        Route {
            method: Method::Post,
            path: "/internal/file/upload/:id",
            endpoint: Endpoint::StoreFileTicket,
            guard: Guard::ApiKeyOrTicket,
            body_limit: Some(max),
            timeout: None,
        },
    ]
}

fn public(method: Method, path: &'static str, endpoint: Endpoint) -> (r: Route)
    ensures
        r == open_route(method, path, endpoint),
{
    Route {
        method,
        path,
        endpoint,
        guard: Guard::Anyone,
        body_limit: None,
        timeout: Some(PUBLIC_TIMEOUT),
    }
}

fn internal(method: Method, path: &'static str, endpoint: Endpoint, limit: u64) -> (r: Route)
    ensures
        r == internal_route(method, path, endpoint, limit),
{
    Route {
        method,
        path,
        endpoint,
        guard: Guard::ApiKey,
        body_limit: Some(limit),
        timeout: None,
    }
}

/// The routes of a host that takes files of at most `max` bytes.
pub fn build_router(max: u64) -> (r: Vec<Route>)
    ensures
        r@ == route_table(max),
{
    let mut r: Vec<Route> = Vec::new();
    r.push(
        Route {
            method: Method::Get,
            path: "/",
            endpoint: Endpoint::Index,
            guard: Guard::Anyone,
            body_limit: None,
            timeout: None,
        },
    );
    r.push(public(Method::Get, "/api/health", Endpoint::Health));
    r.push(public(Method::Get, "/api/storage", Endpoint::Storage));
    r.push(public(Method::Get, "/api/config", Endpoint::Config));
    r.push(public(Method::Get, "/api/openapi.json", Endpoint::OpenApi));
    r.push(
        Route {
            method: Method::Get,
            path: "/f/*path",
            endpoint: Endpoint::ServeFile,
            guard: Guard::NotBanned,
            body_limit: None,
            timeout: None,
        },
    );
    r.push(internal(Method::Post, "/internal/file", Endpoint::StoreFile, max));
    r.push(
        internal(
            Method::Post,
            "/internal/file/stream/:id/:filename",
            Endpoint::StoreFileStreaming,
            max,
        ),
    );
    r.push(internal(Method::Delete, "/internal/file/:id", Endpoint::DeleteFile, max));
    r.push(internal(Method::Post, "/internal/file/:id/rename", Endpoint::RenameFile, max));
    r.push(internal(Method::Get, "/internal/file/:id/stat", Endpoint::StatFile, max));
    r.push(
        internal(
            Method::Post,
            "/internal/file/concat",
            Endpoint::ConcatFiles,
            CONCAT_BODY_LIMIT,
        ),
    );
    r.push(
        Route {
            method: Method::Post,
            path: "/internal/file/upload/:id",
            endpoint: Endpoint::StoreFileTicket,
            guard: Guard::ApiKeyOrTicket,
            body_limit: Some(max),
            timeout: None,
        },
    );
    assert(r@ =~= route_table(max));
    r
}

/// Every internal route is guarded.
pub proof fn internal_routes_are_guarded(max: u64, index: int)
    requires
        0 <= index < route_table(max).len(),
        begins_with(route_table(max)[index].path@, "/internal/"@),
    ensures
        route_table(max)[index].guard == Guard::ApiKey || route_table(max)[index].guard
            == Guard::ApiKeyOrTicket,
{
    reveal_strlit("/internal/");
    reveal_strlit("/");
    reveal_strlit("/api/health");
    reveal_strlit("/api/storage");
    reveal_strlit("/api/config");
    reveal_strlit("/api/openapi.json");
    reveal_strlit("/f/*path");
    let path = route_table(max)[index].path@;
    assert(path.take(10)[1] == "/internal/"@[1]);
}

/// The texts that can be sent as header values.
pub open spec fn header_values(list: Seq<Seq<char>>) -> Seq<Seq<char>>
    decreases list.len(),
{
    if list.len() == 0 {
        Seq::empty()
    } else if is_header_value(list.last()) {
        header_values(list.drop_last()).push(list.last())
    } else {
        header_values(list.drop_last())
    }
}

/// The origins from which browsers may ask, or none where they may from any.
pub fn cors_origins(allowed: &Vec<String>) -> (r: Option<Vec<String>>)
    ensures
        match r {
            None => allowed@.len() == 0,
            Some(list) => allowed@.len() > 0 && views(list@) == header_values(views(allowed@)),
        },
{
    if allowed.len() == 0 {
        return None;
    }
    let mut out: Vec<String> = Vec::new();
    let mut i: usize = 0;
    while i < allowed.len()
        invariant
            i <= allowed@.len(),
            views(out@) == header_values(views(allowed@).take(i as int)),
        decreases allowed@.len() - i,
    {
        let ghost now = views(allowed@).take(i + 1);
        assert(now.drop_last() =~= views(allowed@).take(i as int));
        assert(now.last() == allowed@[i as int]@);
        if valid_header_value(allowed[i].as_str()) {
            let ghost before = out@;
            out.push(allowed[i].clone());
            assert(views(out@) =~= views(before).push(allowed@[i as int]@));
        }
        i = i + 1;
    }
    assert(views(allowed@).take(allowed@.len() as int) =~= views(allowed@));
    Some(out)
}

/// Every endpoint is reached by one route, and who may use it is fixed: files are served to all who are
/// not banned, the ticket upload takes the key or a ticket, every change takes the key or a capability,
/// and what the host tells of itself is open.
pub proof fn endpoints_have_their_guards(max: u64, index: int)
    requires
        0 <= index < route_table(max).len(),
    ensures
        ({
            let route = route_table(max)[index];
            &&& route.guard == (match route.endpoint {
                Endpoint::Index | Endpoint::Health | Endpoint::Storage | Endpoint::Config
                | Endpoint::OpenApi => Guard::Anyone,
                Endpoint::ServeFile => Guard::NotBanned,
                Endpoint::StoreFileTicket => Guard::ApiKeyOrTicket,
                _ => Guard::ApiKey,
            })
            &&& route.method == (match route.endpoint {
                Endpoint::DeleteFile => Method::Delete,
                Endpoint::StoreFile | Endpoint::StoreFileStreaming | Endpoint::RenameFile
                | Endpoint::ConcatFiles | Endpoint::StoreFileTicket => Method::Post,
                _ => Method::Get,
            })
            &&& route.body_limit == (match route.endpoint {
                Endpoint::Index | Endpoint::Health | Endpoint::Storage | Endpoint::Config
                | Endpoint::OpenApi | Endpoint::ServeFile => None,
                Endpoint::ConcatFiles => Some(65536u64),
                _ => Some(max),
            })
            &&& route.timeout == (match route.endpoint {
                Endpoint::Health | Endpoint::Storage | Endpoint::Config | Endpoint::OpenApi => Some(
                    300u64,
                ),
                _ => None,
            })
            &&& route.path@ == (match route.endpoint {
                Endpoint::Index => "/"@,
                Endpoint::Health => "/api/health"@,
                Endpoint::Storage => "/api/storage"@,
                Endpoint::Config => "/api/config"@,
                Endpoint::OpenApi => "/api/openapi.json"@,
                Endpoint::ServeFile => "/f/*path"@,
                Endpoint::StoreFile => "/internal/file"@,
                Endpoint::StoreFileStreaming => "/internal/file/stream/:id/:filename"@,
                Endpoint::DeleteFile => "/internal/file/:id"@,
                Endpoint::RenameFile => "/internal/file/:id/rename"@,
                Endpoint::StatFile => "/internal/file/:id/stat"@,
                Endpoint::ConcatFiles => "/internal/file/concat"@,
                Endpoint::StoreFileTicket => "/internal/file/upload/:id"@,
            })
        }),
{
}

/// No endpoint is missing, and none has two routes.
pub proof fn every_endpoint_has_one_route(max: u64, endpoint: Endpoint)
    ensures
        exists|i: int|
            0 <= i < route_table(max).len() && (#[trigger] route_table(max)[i]).endpoint == endpoint,
        forall|i: int, j: int|
            0 <= i < route_table(max).len() && 0 <= j < route_table(max).len() && (
            #[trigger] route_table(max)[i]).endpoint == (#[trigger] route_table(max)[j]).endpoint
                ==> i == j,
{
    let table = route_table(max);
    let i: int = match endpoint {
        Endpoint::Index => 0,
        Endpoint::Health => 1,
        Endpoint::Storage => 2,
        Endpoint::Config => 3,
        Endpoint::OpenApi => 4,
        Endpoint::ServeFile => 5,
        Endpoint::StoreFile => 6,
        Endpoint::StoreFileStreaming => 7,
        Endpoint::DeleteFile => 8,
        Endpoint::RenameFile => 9,
        Endpoint::StatFile => 10,
        Endpoint::ConcatFiles => 11,
        Endpoint::StoreFileTicket => 12,
    };
    assert(table[i].endpoint == endpoint);
}

/// Of the origins that are listed, exactly those that can be sent are allowed, in their order.
pub proof fn sendable_origins_are_kept(list: Seq<Seq<char>>, origin: Seq<char>)
    ensures
        header_values(list.push(origin)) == (if is_header_value(origin) {
            header_values(list).push(origin)
        } else {
            header_values(list)
        }),
        header_values(list).contains(origin) <==> list.contains(origin) && is_header_value(origin),
        (forall|i: int| 0 <= i < list.len() ==> is_header_value(#[trigger] list[i]))
            ==> header_values(list) == list,
    decreases list.len(),
{
    assert(list.push(origin).drop_last() =~= list);
    if list.len() > 0 {
        let fewer = list.drop_last();
        sendable_origins_are_kept(fewer, origin);
        assert(list[list.len() - 1] == list.last());
        if header_values(list).contains(origin) && !header_values(fewer).contains(origin) {
            let k = choose|k: int| 0 <= k < header_values(list).len() && header_values(list)[k]
                == origin;
            if k < header_values(fewer).len() {
                assert(header_values(fewer)[k] == origin);
                assert(header_values(fewer).contains(origin));
            }
            assert(origin == list.last());
        }
        if fewer.contains(origin) {
            let k = choose|k: int| 0 <= k < fewer.len() && fewer[k] == origin;
            assert(list[k] == origin);
        }
        if list.contains(origin) && is_header_value(origin) {
            let k = choose|k: int| 0 <= k < list.len() && list[k] == origin;
            if k < fewer.len() {
                assert(fewer[k] == origin);
                let m = choose|m: int| 0 <= m < header_values(fewer).len() && header_values(fewer)[m]
                    == origin;
                assert(header_values(list)[m] == origin);
            } else {
                let n = header_values(fewer).len() as int;
                assert(header_values(list)[n] == origin);
            }
        }
        if forall|i: int| 0 <= i < list.len() ==> is_header_value(#[trigger] list[i]) {
            assert forall|i: int| 0 <= i < fewer.len() implies is_header_value(
                #[trigger] fewer[i],
            ) by {
                assert(fewer[i] == list[i]);
            }
            assert(header_values(list) =~= list);
        }
    } else {
        assert(header_values(list) =~= list);
    }
}

} // verus!
