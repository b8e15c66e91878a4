//! The route grammar of the HTTP surface: which method and path name
//! which operation, and the identifier carried in the path.

use vstd::prelude::*;
use vstd::string::StrSliceExecFns;
use crate::ids::{parse_uuid, uuid_of};

verus! {

/// The request methods the surface distinguishes.
#[derive(Clone, Copy, Debug, PartialEq, Eq, Structural)]
pub enum Method {
    Get,
    Post,
    Delete,
}

/// One operation of the surface, with the identifier its path names.
#[derive(Clone, Copy, Debug, PartialEq, Eq, Structural)]
pub enum Route {
    /// `GET /`
    Health,
    /// `GET /api/v1/users`
    ListUsers,
    /// `GET /api/v1/users/{id}`
    GetUser(u128),
    /// `POST /api/v1/create`
    CreateUser,
    /// `POST /api/v1/update/name/{id}`
    UpdateName(u128),
    /// `POST /api/v1/update/age/{id}`
    UpdateAge(u128),
    /// `DELETE /api/v1/delete/{id}`
    DeleteUser(u128),
}

/// Why a request matches no operation.
#[derive(Clone, Copy, Debug, PartialEq, Eq, Structural)]
pub enum RouteError {
    /// No route has this method and path shape.
    NoRoute,
    /// The path shape matches, but its identifier segment is not a
    /// valid textual identifier.
    BadId,
}

/// `p` is the first part of `s`.
pub open spec fn has_prefix(s: Seq<char>, p: Seq<char>) -> bool {
    p.len() <= s.len() && s.subrange(0, p.len() as int) == p
}

/// What remains of `s` after a prefix of the length of `p`.
pub open spec fn tail_after(s: Seq<char>, p: Seq<char>) -> Seq<char> {
    s.subrange(p.len() as int, s.len() as int)
}

/// `s` holds a path separator, so it spans more than one segment.
pub open spec fn has_slash(s: Seq<char>) -> bool {
    exists|k: int| 0 <= k < s.len() && s[k] == '/'
}

/// The route an identifier-carrying tail yields: a tail of several
/// segments matches no route, a single segment that is no valid
/// identifier is rejected, and a valid one is handed to `mk`.
pub open spec fn spec_id_route(tail: Seq<char>, mk: spec_fn(u128) -> Route) -> Result<
    Route,
    RouteError,
> {
    if has_slash(tail) {
        Err(RouteError::NoRoute)
    } else {
        match uuid_of(tail) {
            Some(id) => Ok(mk(id)),
            None => Err(RouteError::BadId),
        }
    }
}

/// The operation a request method and path name, or why none does.
pub open spec fn spec_route(m: Method, path: Seq<char>) -> Result<Route, RouteError> {
    if m == Method::Get {
        if path == "/"@ {
            Ok(Route::Health)
        } else if path == "/api/v1/users"@ {
            Ok(Route::ListUsers)
        } else if has_prefix(path, "/api/v1/users/"@) {
            spec_id_route(tail_after(path, "/api/v1/users/"@), |id: u128| Route::GetUser(id))
        } else {
            Err(RouteError::NoRoute)
        }
    } else if m == Method::Post {
        if path == "/api/v1/create"@ {
            Ok(Route::CreateUser)
        } else if has_prefix(path, "/api/v1/update/name/"@) {
            spec_id_route(
                tail_after(path, "/api/v1/update/name/"@),
                |id: u128| Route::UpdateName(id),
            )
        } else if has_prefix(path, "/api/v1/update/age/"@) {
            spec_id_route(
                tail_after(path, "/api/v1/update/age/"@),
                |id: u128| Route::UpdateAge(id),
            )
        } else {
            Err(RouteError::NoRoute)
        }
    } else {
        if has_prefix(path, "/api/v1/delete/"@) {
            spec_id_route(tail_after(path, "/api/v1/delete/"@), |id: u128| Route::DeleteUser(id))
        } else {
            Err(RouteError::NoRoute)
        }
    }
}

/// Character-by-character equality of two strings.
fn str_eq(a: &str, b: &str) -> (r: bool)
    ensures
        r == (a@ == b@),
{
    let na = a.unicode_len();
    let nb = b.unicode_len();
    if na != nb {
        proof {
            if a@ == b@ {
                assert(a@.len() == b@.len());
            }
        }
        return false;
    }
    let mut i: usize = 0;
    while i < na
        invariant
            na == a@.len(),
            nb == b@.len(),
            na == nb,
            i <= na,
            forall|k: int| 0 <= k < i ==> a@[k] == b@[k],
        decreases na - i,
    {
        if a.get_char(i) != b.get_char(i) {
            proof {
                if a@ == b@ {
                    assert(a@[i as int] == b@[i as int]);
                }
            }
            return false;
        }
        i += 1;
    }
    proof {
        assert(a@ =~= b@);
    }
    true
}

/// Whether `p` is the first part of `s`.
fn str_has_prefix(s: &str, p: &str) -> (r: bool)
    ensures
        r == has_prefix(s@, p@),
{
    let ns = s.unicode_len();
    let np = p.unicode_len();
    if np > ns {
        return false;
    }
    let mut i: usize = 0;
    while i < np
        invariant
            ns == s@.len(),
            np == p@.len(),
            np <= ns,
            i <= np,
            forall|k: int| 0 <= k < i ==> s@[k] == p@[k],
        decreases np - i,
    {
        if s.get_char(i) != p.get_char(i) {
            proof {
                if has_prefix(s@, p@) {
                    assert(s@.subrange(0, p@.len() as int)[i as int] == p@[i as int]);
                }
            }
            return false;
        }
        i += 1;
    }
    proof {
        assert(s@.subrange(0, p@.len() as int) =~= p@);
    }
    true
}

/// Whether `s` holds a path separator.
fn str_has_slash(s: &str) -> (r: bool)
    ensures
        r == has_slash(s@),
{
    let n = s.unicode_len();
    let mut i: usize = 0;
    while i < n
        invariant
            n == s@.len(),
            i <= n,
            forall|k: int| 0 <= k < i ==> s@[k] != '/',
        decreases n - i,
    {
        if s.get_char(i) == '/' {
            proof {
                assert(s@[i as int] == '/');
            }
            return true;
        }
        i += 1;
    }
    false
}

/// The identifier in the single path segment that follows the prefix
/// `p`, or why there is none.
fn parse_id_after(s: &str, p: &str) -> (r: Result<u128, RouteError>)
    requires
        has_prefix(s@, p@),
    ensures
        has_slash(tail_after(s@, p@)) ==> r == Err::<u128, RouteError>(RouteError::NoRoute),
        !has_slash(tail_after(s@, p@)) ==> match uuid_of(tail_after(s@, p@)) {
            Some(id) => r == Ok::<u128, RouteError>(id),
            None => r == Err::<u128, RouteError>(RouteError::BadId),
        },
{
    let ns = s.unicode_len();
    let np = p.unicode_len();
    let tail = s.substring_char(np, ns);
    if str_has_slash(tail) {
        return Err(RouteError::NoRoute);
    }
    match parse_uuid(tail) {
        Some(id) => Ok(id),
        None => Err(RouteError::BadId),
    }
}

/// Match a request method and path against the surface's routes.
pub fn parse_route(m: Method, path: &str) -> (r: Result<Route, RouteError>)
    ensures
        r == spec_route(m, path@),
{
    match m {
        Method::Get => {
            if str_eq(path, "/") {
                Ok(Route::Health)
            } else if str_eq(path, "/api/v1/users") {
                Ok(Route::ListUsers)
            } else if str_has_prefix(path, "/api/v1/users/") {
                match parse_id_after(path, "/api/v1/users/") {
                    Ok(id) => Ok(Route::GetUser(id)),
                    Err(e) => Err(e),
                }
            } else {
                Err(RouteError::NoRoute)
            }
        },
        Method::Post => {
            if str_eq(path, "/api/v1/create") {
                Ok(Route::CreateUser)
            } else if str_has_prefix(path, "/api/v1/update/name/") {
                match parse_id_after(path, "/api/v1/update/name/") {
                    Ok(id) => Ok(Route::UpdateName(id)),
                    Err(e) => Err(e),
                }
            } else if str_has_prefix(path, "/api/v1/update/age/") {
                match parse_id_after(path, "/api/v1/update/age/") {
                    Ok(id) => Ok(Route::UpdateAge(id)),
                    Err(e) => Err(e),
                }
            } else {
                Err(RouteError::NoRoute)
            }
        },
        Method::Delete => {
            if str_has_prefix(path, "/api/v1/delete/") {
                match parse_id_after(path, "/api/v1/delete/") {
                    Ok(id) => Ok(Route::DeleteUser(id)),
                    Err(e) => Err(e),
                }
            } else {
                Err(RouteError::NoRoute)
            }
        },
    }
}

} // verus!
