//! Dispatch: one request against the table, one response back.
//!
//! A request reaches this module already reduced to plain values: the
//! route its method and path named, and the payload its body carried.

use vstd::prelude::*;
use crate::routes::Route;
use crate::table::{
    User, UserTable, UserError, contains_id, idx_for, row_for, new_row, renamed, aged,
};

verus! {

/// A request payload, as read out of the request body.
pub enum Body {
    /// No payload.
    Empty,
    /// A name and an age, for a creation.
    UserPayload { name: String, age: i32 },
    /// A name alone, for a name update.
    NamePayload { name: String },
    /// An age alone, for an age update.
    AgePayload { age: i32 },
}

/// What the service answers.
pub enum Response {
    /// A plain status line.
    Text(String),
    /// Every row of the table.
    UserList(Vec<User>),
    /// One row of the table.
    SingleUser(User),
    /// The request matched no route, or its payload does not fit the
    /// route.
    BadRequest,
    /// No row carries the requested identifier.
    NotFound,
    /// The service could not do its work; here, only a collision of a
    /// freshly drawn identifier with a present row.
    ServerError,
}

/// The HTTP status a response travels under.
pub open spec fn spec_status_code(r: Response) -> int {
    match r {
        Response::Text(_) => 200,
        Response::UserList(_) => 200,
        Response::SingleUser(_) => 200,
        Response::BadRequest => 400,
        Response::NotFound => 404,
        Response::ServerError => 500,
    }
}

pub fn status_code(r: &Response) -> (c: u16)
    ensures
        c == spec_status_code(*r),
{
    match r {
        Response::Text(_) => 200,
        Response::UserList(_) => 200,
        Response::SingleUser(_) => 200,
        Response::BadRequest => 400,
        Response::NotFound => 404,
        Response::ServerError => 500,
    }
}

/// Everything `handle` promises: how `post` and the response `r`
/// follow from the table `pre`, the routed request, the identifier
/// `fresh_id` offered for a creation, and the instant `now`.
pub open spec fn handle_post(
    pre: UserTable,
    post: UserTable,
    route: Route,
    body: Body,
    fresh_id: u128,
    now: i64,
    r: Response,
) -> bool {
    match route {
        Route::Health => {
            &&& post == pre
            &&& (body is Empty ==> (r matches Response::Text(t) && t@ == "OK!"@))
            &&& (!(body is Empty) ==> r is BadRequest)
        },
        Route::ListUsers => {
            &&& post == pre
            &&& (body is Empty ==> (r matches Response::UserList(us) && us@.len() == pre@.len()
                && (forall|i: int| 0 <= i < pre@.len() ==> (#[trigger] us@[i])@ == pre@[i])))
            &&& (!(body is Empty) ==> r is BadRequest)
        },
        Route::GetUser(id) => {
            &&& post == pre
            &&& (body is Empty && contains_id(pre@, id) ==> (r matches Response::SingleUser(u)
                && u@ == row_for(pre@, id)))
            &&& (body is Empty && !contains_id(pre@, id) ==> r is NotFound)
            &&& (!(body is Empty) ==> r is BadRequest)
        },
        Route::CreateUser => {
            &&& (body matches Body::UserPayload { name, age } ==> {
                &&& (!contains_id(pre@, fresh_id) ==> {
                    &&& post@ == pre@.push(new_row(fresh_id, name@, age as int, now as int))
                    &&& post.spec_last_write() == now
                    &&& r matches Response::Text(t) && t@ == "Sucess"@
                })
                &&& (contains_id(pre@, fresh_id) ==> post == pre && r is ServerError)
            })
            &&& (!(body matches Body::UserPayload { .. }) ==> post == pre && r is BadRequest)
        },
        Route::UpdateName(id) => {
            &&& (body matches Body::NamePayload { name } ==> {
                &&& (contains_id(pre@, id) ==> {
                    &&& post@ == pre@.update(
                        idx_for(pre@, id),
                        renamed(row_for(pre@, id), name@, now as int),
                    )
                    &&& post.spec_last_write() == now
                    &&& r matches Response::SingleUser(u) && u@ == renamed(
                        row_for(pre@, id),
                        name@,
                        now as int,
                    )
                })
                &&& (!contains_id(pre@, id) ==> post == pre && r is NotFound)
            })
            &&& (!(body matches Body::NamePayload { .. }) ==> post == pre && r is BadRequest)
        },
        Route::UpdateAge(id) => {
            &&& (body matches Body::AgePayload { age } ==> {
                &&& (contains_id(pre@, id) ==> {
                    &&& post@ == pre@.update(
                        idx_for(pre@, id),
                        aged(row_for(pre@, id), age as int, now as int),
                    )
                    &&& post.spec_last_write() == now
                    &&& r matches Response::SingleUser(u) && u@ == aged(
                        row_for(pre@, id),
                        age as int,
                        now as int,
                    )
                })
                &&& (!contains_id(pre@, id) ==> post == pre && r is NotFound)
            })
            &&& (!(body matches Body::AgePayload { .. }) ==> post == pre && r is BadRequest)
        },
        Route::DeleteUser(id) => {
            &&& (body is Empty ==> {
                &&& (contains_id(pre@, id) ==> post@ == pre@.remove(idx_for(pre@, id)))
                &&& (!contains_id(pre@, id) ==> post == pre)
                &&& post.spec_last_write() == pre.spec_last_write()
                &&& r matches Response::Text(t) && t@ == "Sucess"@
            })
            &&& (!(body is Empty) ==> post == pre && r is BadRequest)
        },
    }
}

/// Run one routed request against the table. `fresh_id` is the
/// identifier a creation would use; any other route ignores it.
pub fn handle(
    table: &mut UserTable,
    route: Route,
    body: Body,
    fresh_id: u128,
    now: i64,
) -> (r: Response)
    requires
        old(table).wf(),
        now >= old(table).spec_last_write(),
    ensures
        final(table).wf(),
        handle_post(*old(table), *final(table), route, body, fresh_id, now, r),
{
    match route {
        Route::Health => {
            match body {
                Body::Empty => Response::Text("OK!".to_owned()),
                _ => Response::BadRequest,
            }
        },
        Route::ListUsers => {
            match body {
                Body::Empty => Response::UserList(table.list_users()),
                _ => Response::BadRequest,
            }
        },
        Route::GetUser(id) => {
            match body {
                Body::Empty => {
                    match table.get_user(id) {
                        Ok(u) => Response::SingleUser(u),
                        Err(_) => Response::NotFound,
                    }
                },
                _ => Response::BadRequest,
            }
        },
        Route::CreateUser => {
            match body {
                Body::UserPayload { name, age } => {
                    match table.create_user(fresh_id, name, age, now) {
                        Ok(_) => Response::Text("Sucess".to_owned()),
                        Err(_) => Response::ServerError,
                    }
                },
                _ => Response::BadRequest,
            }
        },
        Route::UpdateName(id) => {
            match body {
                Body::NamePayload { name } => {
                    match table.update_name(id, name, now) {
                        Ok(u) => Response::SingleUser(u),
                        Err(_) => Response::NotFound,
                    }
                },
                _ => Response::BadRequest,
            }
        },
        Route::UpdateAge(id) => {
            match body {
                Body::AgePayload { age } => {
                    match table.update_age(id, age, now) {
                        Ok(u) => Response::SingleUser(u),
                        Err(_) => Response::NotFound,
                    }
                },
                _ => Response::BadRequest,
            }
        },
        Route::DeleteUser(id) => {
            match body {
                Body::Empty => {
                    let _ = table.delete_user(id);
                    Response::Text("Sucess".to_owned())
                },
                _ => Response::BadRequest,
            }
        },
    }
}

/// Run one routed request, drawing the identifier a creation would
/// use. The draw is random, so the contract holds for some identifier
/// rather than a chosen one.
pub fn handle_auto(table: &mut UserTable, route: Route, body: Body, now: i64) -> (r: Response)
    requires
        old(table).wf(),
        now >= old(table).spec_last_write(),
    ensures
        final(table).wf(),
        exists|id: u128|
            #[trigger] handle_post(*old(table), *final(table), route, body, id, now, r),
{
    let ghost pre = *table;
    let ghost b = body;
    let id = crate::ids::fresh_uuid();
    let r = handle(table, route, body, id, now);
    proof {
        assert(handle_post(pre, *table, route, b, id, now, r));
    }
    r
}

} // verus!
