//! The router: an ordered table of (method, path prefix) entries, read from
//! the top, of which the first that matches decides.
//!
//! Prefixes overlap: `/users/` begins with `/users`. The order of the table
//! settles such cases, so an entry with a longer prefix stands above the
//! entries it would otherwise lose to.

use crate::entity::Entity;
use crate::text::{chars_of, has_prefix, starts_with};
use vstd::prelude::*;

verus! {

/// What a request asks for.
#[derive(Debug, Clone, Copy, PartialEq, Eq, Structural)]
pub enum Target {
    /// Store the record in the body as a new row.
    Create(Entity),
    /// Return the row with the identifier in the path.
    Read(Entity),
    /// Return every row.
    List(Entity),
    /// Overwrite the row with the identifier in the path by the record in
    /// the body.
    Update(Entity),
    /// Remove the row with the identifier in the path.
    Delete(Entity),
    /// Look for a user with the name and password in the body.
    Login,
}

/// One entry of the route table.
#[derive(Debug, Clone, PartialEq, Eq)]
pub struct Route {
    method: Vec<char>,
    prefix: Vec<char>,
    target: Target,
}

/// The mathematical content of a route.
pub struct RouteView {
    pub method: Seq<char>,
    pub prefix: Seq<char>,
    pub target: Target,
}

impl View for Route {
    type V = RouteView;

    closed spec fn view(&self) -> RouteView {
        RouteView { method: self.method@, prefix: self.prefix@, target: self.target }
    }
}

impl DeepView for Route {
    type V = RouteView;

    open spec fn deep_view(&self) -> RouteView {
        self@
    }
}

impl Route {
    /// The entry that sends requests with this method, and a path that
    /// begins with this prefix, to `target`.
    pub fn new(method: &str, prefix: &str, target: Target) -> (route: Route)
        ensures
            route@ == (RouteView { method: method@, prefix: prefix@, target }),
    {
        Route { method: chars_of(method), prefix: chars_of(prefix), target }
    }

    /// The target of the entry.
    pub fn target(&self) -> (target: Target)
        ensures
            target == self@.target,
    {
        self.target
    }
}

impl RouteView {
    /// Whether the entry matches a request with this method and path.
    pub open spec fn accepts(self, method: Seq<char>, path: Seq<char>) -> bool {
        self.method == method && starts_with(path, self.prefix)
    }
}

/// The target of the first entry of `table`, at or after `from`, that
/// matches; `None` when no entry does.
pub open spec fn first_match(
    table: Seq<RouteView>,
    method: Seq<char>,
    path: Seq<char>,
    from: int,
) -> Option<Target>
    decreases table.len() - from,
{
    if from < 0 || from >= table.len() {
        None
    } else if table[from].accepts(method, path) {
        Some(table[from].target)
    } else {
        first_match(table, method, path, from + 1)
    }
}

/// The target that `table` gives a request with this method and path.
pub open spec fn routed(table: Seq<RouteView>, method: Seq<char>, path: Seq<char>) -> Option<
    Target,
> {
    first_match(table, method, path, 0)
}

/// A request is routed exactly when some entry matches it, and then to the
/// target of the topmost such entry.
pub proof fn lemma_first_match(
    table: Seq<RouteView>,
    method: Seq<char>,
    path: Seq<char>,
    from: int,
)
    requires
        0 <= from <= table.len(),
    ensures
        first_match(table, method, path, from) is None <==> forall|i: int|
            from <= i < table.len() ==> !(#[trigger] table[i]).accepts(method, path),
        first_match(table, method, path, from) is Some ==> exists|i: int|
            {
                &&& from <= i < table.len()
                &&& (#[trigger] table[i]).accepts(method, path)
                &&& first_match(table, method, path, from) == Some(table[i].target)
                &&& forall|j: int| from <= j < i ==> !(#[trigger] table[j]).accepts(method, path)
            },
    decreases table.len() - from,
{
    if from < table.len() {
        if table[from].accepts(method, path) {
            assert(first_match(table, method, path, from) == Some(table[from].target));
        } else {
            lemma_first_match(table, method, path, from + 1);
            if first_match(table, method, path, from + 1) is Some {
                let i = choose|i: int|
                    {
                        &&& from + 1 <= i < table.len()
                        &&& (#[trigger] table[i]).accepts(method, path)
                        &&& first_match(table, method, path, from + 1) == Some(table[i].target)
                        &&& forall|j: int|
                            from + 1 <= j < i ==> !(#[trigger] table[j]).accepts(method, path)
                    };
                assert(forall|j: int|
                    from <= j < i ==> !(#[trigger] table[j]).accepts(method, path));
            }
        }
    }
}

/// Tells whether two texts are the same.
fn same_text(a: &Vec<char>, b: &Vec<char>) -> (same: bool)
    ensures
        same == (a@ == b@),
{
    if a.len() != b.len() {
        return false;
    }
    let same = has_prefix(a, b);
    assert(a@.subrange(0, a.len() as int) =~= a@);
    same
}

/// Selects the target of a request: the table is read from the top, and the
/// first entry with the request's method and a prefix of its path decides.
pub fn route(table: &Vec<Route>, method: &str, path: &str) -> (target: Option<Target>)
    ensures
        target == routed(table.deep_view(), method@, path@),
{
    let method_chars = chars_of(method);
    let path_chars = chars_of(path);
    let ghost views = table.deep_view();
    let mut i: usize = 0;
    while i < table.len()
        invariant
            i <= table.len(),
            views == table.deep_view(),
            method_chars@ == method@,
            path_chars@ == path@,
            routed(views, method@, path@) == first_match(views, method@, path@, i as int),
        decreases table.len() - i,
    {
        let entry = &table[i];
        assert(views[i as int] == entry@);
        if same_text(&entry.method, &method_chars) && has_prefix(&path_chars, &entry.prefix) {
            return Some(entry.target);
        }
        i += 1;
    }
    None
}

/// The path under which all rows of an entity are reached.
pub open spec fn collection_path(entity: Entity) -> Seq<char> {
    match entity {
        Entity::User => "/users"@,
        Entity::Mapel => "/mapel"@,
        Entity::Guru => "/guru"@,
    }
}

/// The beginning of the paths under which one row of an entity is reached:
/// the path of the entity and a slash.
pub open spec fn row_path(entity: Entity) -> Seq<char> {
    match entity {
        Entity::User => "/users/"@,
        Entity::Mapel => "/mapel/"@,
        Entity::Guru => "/guru/"@,
    }
}

/// The five entries of an entity, from the top: each of its operations,
/// with the read of one row above the list of all.
pub open spec fn entity_table(entity: Entity) -> Seq<RouteView> {
    seq![
        RouteView {
            method: "POST"@,
            prefix: collection_path(entity),
            target: Target::Create(entity),
        },
        RouteView { method: "GET"@, prefix: row_path(entity), target: Target::Read(entity) },
        RouteView { method: "GET"@, prefix: collection_path(entity), target: Target::List(entity) },
        RouteView { method: "PUT"@, prefix: row_path(entity), target: Target::Update(entity) },
        RouteView { method: "DELETE"@, prefix: row_path(entity), target: Target::Delete(entity) },
    ]
}

/// The entry of the login.
pub open spec fn login_entry() -> RouteView {
    RouteView { method: "POST"@, prefix: "/login"@, target: Target::Login }
}

/// The route table of the service, from the top: the entries of each
/// entity, then the login.
pub open spec fn default_table() -> Seq<RouteView> {
    entity_table(Entity::User) + entity_table(Entity::Mapel) + entity_table(Entity::Guru)
        + seq![login_entry()]
}

/// What tells the texts of the service's table apart: their lengths and
/// their first characters.
proof fn lemma_table_texts()
    ensures
        "POST"@.len() == 4 && "POST"@[0] == 'P',
        "GET"@.len() == 3 && "GET"@[0] == 'G',
        "PUT"@.len() == 3 && "PUT"@[0] == 'P',
        "DELETE"@.len() == 6 && "DELETE"@[0] == 'D',
        "/users"@.len() == 6 && "/users"@[1] == 'u',
        "/users/"@.len() == 7 && "/users/"@[1] == 'u',
        "/mapel"@.len() == 6 && "/mapel"@[1] == 'm',
        "/mapel/"@.len() == 7 && "/mapel/"@[1] == 'm',
        "/guru"@.len() == 5 && "/guru"@[1] == 'g',
        "/guru/"@.len() == 6 && "/guru/"@[1] == 'g',
        "/login"@.len() == 6 && "/login"@[1] == 'l',
{
    reveal_strlit("POST");
    reveal_strlit("GET");
    reveal_strlit("PUT");
    reveal_strlit("DELETE");
    reveal_strlit("/users");
    reveal_strlit("/users/");
    reveal_strlit("/mapel");
    reveal_strlit("/mapel/");
    reveal_strlit("/guru");
    reveal_strlit("/guru/");
    reveal_strlit("/login");
}

/// Of two entries of the service's table that match one request, the upper
/// one has the longer prefix, or one as long.
proof fn lemma_upper_entry_is_longer(method: Seq<char>, path: Seq<char>, i: int, j: int)
    requires
        0 <= i < j < default_table().len(),
        default_table()[i].accepts(method, path),
        default_table()[j].accepts(method, path),
    ensures
        default_table()[j].prefix.len() <= default_table()[i].prefix.len(),
{
    let table = default_table();
    lemma_table_texts();
    let a = table[i];
    let b = table[j];
    assert(a.method == b.method);
    assert(a.method[0] == b.method[0]);
    assert(a.prefix.len() >= 5 && b.prefix.len() >= 5);
    assert(path.subrange(0, a.prefix.len() as int)[1] == a.prefix[1]);
    assert(path.subrange(0, b.prefix.len() as int)[1] == b.prefix[1]);
    assert(a.prefix[1] == b.prefix[1]);
}

/// The most specific entry decides. A request that the service's table
/// routes goes to the target of a matching entry whose prefix is as long as
/// that of any entry that matches; a request that it does not route is
/// matched by no entry.
pub proof fn law_most_specific_entry_decides(method: Seq<char>, path: Seq<char>)
    ensures
        match routed(default_table(), method, path) {
            Some(target) => exists|i: int|
                {
                    &&& 0 <= i < default_table().len()
                    &&& (#[trigger] default_table()[i]).accepts(method, path)
                    &&& default_table()[i].target == target
                    &&& forall|j: int|
                        0 <= j < default_table().len() && (#[trigger] default_table()[j]).accepts(
                            method,
                            path,
                        ) ==> default_table()[j].prefix.len() <= default_table()[i].prefix.len()
                },
            None => forall|j: int|
                0 <= j < default_table().len() ==> !(#[trigger] default_table()[j]).accepts(
                    method,
                    path,
                ),
        },
{
    let table = default_table();
    lemma_first_match(table, method, path, 0);
    if routed(table, method, path) is Some {
        let i = choose|i: int|
            {
                &&& 0 <= i < table.len()
                &&& (#[trigger] table[i]).accepts(method, path)
                &&& first_match(table, method, path, 0) == Some(table[i].target)
                &&& forall|j: int| 0 <= j < i ==> !(#[trigger] table[j]).accepts(method, path)
            };
        assert forall|j: int| 0 <= j < table.len() && (#[trigger] table[j]).accepts(
            method,
            path,
        ) implies table[j].prefix.len() <= table[i].prefix.len() by {
            if i < j {
                lemma_upper_entry_is_longer(method, path, i, j);
            }
        }
    }
}

/// A request for the entry at `at` that no entry above matches is routed
/// to the target of that entry.
proof fn lemma_routed_at(table: Seq<RouteView>, method: Seq<char>, path: Seq<char>, at: int)
    requires
        0 <= at < table.len(),
        table[at].accepts(method, path),
        forall|j: int| 0 <= j < at ==> !(#[trigger] table[j]).accepts(method, path),
    ensures
        routed(table, method, path) == Some(table[at].target),
{
    lemma_first_match(table, method, path, 0);
}

/// The number of an entity's block in the service's table.
spec fn block_of(entity: Entity) -> int {
    match entity {
        Entity::User => 0,
        Entity::Mapel => 1,
        Entity::Guru => 2,
    }
}

/// The entry of the service's table that serves the operation number
/// `operation` of `entity` is that operation's entry, and no entry above it
/// matches a request with that entry's method and a path that begins as
/// `path` does, provided `path` begins with the entry's prefix and is not a
/// row path where the entry lists.
proof fn lemma_entity_entry(entity: Entity, operation: int, path: Seq<char>)
    requires
        0 <= operation < 5,
        starts_with(path, entity_table(entity)[operation].prefix),
        operation == 2 ==> path == collection_path(entity),
    ensures
        routed(default_table(), entity_table(entity)[operation].method, path) == Some(
            entity_table(entity)[operation].target,
        ),
{
    let table = default_table();
    lemma_table_texts();
    let at = 5 * block_of(entity) + operation;
    let entry = entity_table(entity)[operation];
    let method = entry.method;
    assert(table.len() == 16);
    assert(table[at] == entry);
    assert(entry.prefix.len() >= 5);
    assert(path.subrange(0, entry.prefix.len() as int)[1] == entry.prefix[1]);
    assert forall|j: int| 0 <= j < at implies !(#[trigger] table[j]).accepts(method, path) by {
        let other = table[j];
        if other.accepts(method, path) {
            assert(other.method[0] == method[0]);
            assert(other.prefix.len() >= 5);
            assert(path.subrange(0, other.prefix.len() as int)[1] == other.prefix[1]);
        }
    }
    lemma_routed_at(table, method, path, at);
}

/// Each entity has its own routes. With the service's table, a `POST` to
/// the path of an entity creates a row of that entity, a `GET`, `PUT` or
/// `DELETE` of a path below it reads, updates or deletes a row of that
/// entity, and a `GET` of the path itself lists the rows of that entity.
pub proof fn law_entity_routes(entity: Entity, rest: Seq<char>)
    ensures
        routed(default_table(), "POST"@, collection_path(entity) + rest) == Some(
            Target::Create(entity),
        ),
        routed(default_table(), "GET"@, row_path(entity) + rest) == Some(Target::Read(entity)),
        routed(default_table(), "GET"@, collection_path(entity)) == Some(Target::List(entity)),
        routed(default_table(), "PUT"@, row_path(entity) + rest) == Some(Target::Update(entity)),
        routed(default_table(), "DELETE"@, row_path(entity) + rest) == Some(
            Target::Delete(entity),
        ),
{
    let all = collection_path(entity);
    let one = row_path(entity);
    assert((all + rest).subrange(0, all.len() as int) =~= all);
    assert((one + rest).subrange(0, one.len() as int) =~= one);
    assert(all.subrange(0, all.len() as int) =~= all);
    lemma_entity_entry(entity, 0, all + rest);
    lemma_entity_entry(entity, 1, one + rest);
    lemma_entity_entry(entity, 2, all);
    lemma_entity_entry(entity, 3, one + rest);
    lemma_entity_entry(entity, 4, one + rest);
}

/// The path under which all rows of an entity are reached.
pub fn collection_prefix(entity: Entity) -> (path: &'static str)
    ensures
        path@ == collection_path(entity),
{
    match entity {
        Entity::User => "/users",
        Entity::Mapel => "/mapel",
        Entity::Guru => "/guru",
    }
}

/// The beginning of the paths under which one row of an entity is reached.
pub fn row_prefix(entity: Entity) -> (path: &'static str)
    ensures
        path@ == row_path(entity),
{
    match entity {
        Entity::User => "/users/",
        Entity::Mapel => "/mapel/",
        Entity::Guru => "/guru/",
    }
}

/// Appends the five entries of an entity to a table.
pub fn push_entity_routes(table: &mut Vec<Route>, entity: Entity)
    ensures
        final(table).deep_view() == old(table).deep_view() + entity_table(entity),
{
    let all = collection_prefix(entity);
    let one = row_prefix(entity);
    table.push(Route::new("POST", all, Target::Create(entity)));
    table.push(Route::new("GET", one, Target::Read(entity)));
    table.push(Route::new("GET", all, Target::List(entity)));
    table.push(Route::new("PUT", one, Target::Update(entity)));
    table.push(Route::new("DELETE", one, Target::Delete(entity)));
    assert(table.deep_view() =~= old(table).deep_view() + entity_table(entity));
}

/// Builds the route table of the service: the five entries of each entity,
/// then the entry of the login.
pub fn default_routes() -> (table: Vec<Route>)
    ensures
        table.deep_view() == default_table(),
{
    let mut table: Vec<Route> = Vec::new();
    push_entity_routes(&mut table, Entity::User);
    push_entity_routes(&mut table, Entity::Mapel);
    push_entity_routes(&mut table, Entity::Guru);
    table.push(Route::new("POST", "/login", Target::Login));
    assert(table.deep_view() =~= default_table());
    table
}

} // verus!
