use crud_engine::engine::{dispatch, step, Action, Connection, Dispatch, Event};
use crud_engine::entity::{Entity, Record};
use crud_engine::response::{Response, Status, Variant};
use crud_engine::route::{default_routes, Target};
use crud_engine::startup::{next_attempt, schema_sql, Retry, MAX_ATTEMPTS, RETRY_PAUSE_SECS};
use crud_engine::store::{Call, Outcome, Param, Statement};
use crud_engine::wire::parse_request;

/// A store in memory that knows the statements of the service. Its `rows`
/// are those of `users`; `others` holds `mapel` and `guru`.
struct Users {
    rows: Vec<Record>,
    next: i32,
    reachable: bool,
    others: Vec<(Entity, Vec<Record>, i32)>,
}

fn users() -> Users {
    Users {
        rows: Vec::new(),
        next: 1,
        reachable: true,
        others: vec![(Entity::Mapel, Vec::new(), 1), (Entity::Guru, Vec::new(), 1)],
    }
}

fn rows_of(store: &Users, entity: Entity) -> Vec<Record> {
    store.others.iter().find(|t| t.0 == entity).map(|t| t.1.clone()).unwrap_or_default()
}

/// Runs a statement on `mapel` or `guru`.
fn run_other(store: &mut Users, statement: &Statement) -> Outcome {
    let p = &statement.params;
    for (entity, rows, next) in store.others.iter_mut() {
        let entity = *entity;
        let columns = entity.column_count();
        let sql = statement.sql.as_str();
        if sql == Target::Create(entity).sql_text() {
            rows.push(Record { id: Some(*next), values: p.iter().map(text_of).collect() });
            *next += 1;
            return Outcome::Affected(1);
        } else if sql == Target::Read(entity).sql_text() {
            let id = int_of(&p[0]);
            return Outcome::Row(rows.iter().find(|r| r.id == Some(id)).cloned());
        } else if sql == Target::List(entity).sql_text() {
            return Outcome::Rows(rows.clone());
        } else if sql == Target::Update(entity).sql_text() {
            let id = int_of(&p[columns]);
            let mut touched: u64 = 0;
            for row in rows.iter_mut().filter(|r| r.id == Some(id)) {
                row.values = p[..columns].iter().map(text_of).collect();
                touched += 1;
            }
            return Outcome::Affected(touched);
        } else if sql == Target::Delete(entity).sql_text() {
            let id = int_of(&p[0]);
            let before = rows.len();
            rows.retain(|r| r.id != Some(id));
            return Outcome::Affected((before - rows.len()) as u64);
        }
    }
    Outcome::Failed
}

fn text_of(param: &Param) -> String {
    match param {
        Param::Text(s) => s.clone(),
        Param::Int(n) => panic!("text expected, got {}", n),
    }
}

fn int_of(param: &Param) -> i32 {
    match param {
        Param::Int(n) => *n,
        Param::Text(s) => panic!("integer expected, got {}", s),
    }
}

fn run(store: &mut Users, statement: &Statement) -> Outcome {
    if !store.reachable {
        return Outcome::Unavailable;
    }
    let p = &statement.params;
    match (statement.call, statement.sql.as_str()) {
        (Call::Execute, "INSERT INTO users (name, email, password) VALUES ($1, $2, $3)") => {
            store.rows.push(Record { id: Some(store.next), values: p.iter().map(text_of).collect() });
            store.next += 1;
            Outcome::Affected(1)
        }
        (Call::QueryOne, "SELECT * FROM users WHERE id = $1") => {
            let id = int_of(&p[0]);
            Outcome::Row(store.rows.iter().find(|r| r.id == Some(id)).cloned())
        }
        (Call::QueryAll, "SELECT id, name, email, password FROM users") => Outcome::Rows(store.rows.clone()),
        (Call::Execute, "UPDATE users SET name = $1, email = $2, password = $3 WHERE id = $4") => {
            let id = int_of(&p[3]);
            let mut touched: u64 = 0;
            for row in store.rows.iter_mut().filter(|r| r.id == Some(id)) {
                row.values = p[..3].iter().map(text_of).collect();
                touched += 1;
            }
            Outcome::Affected(touched)
        }
        (Call::Execute, "DELETE FROM users WHERE id = $1") => {
            let id = int_of(&p[0]);
            let before = store.rows.len();
            store.rows.retain(|r| r.id != Some(id));
            Outcome::Affected((before - store.rows.len()) as u64)
        }
        (Call::QueryAll, "SELECT * FROM users WHERE name = $1 AND password = $2") => {
            let (name, secret) = (text_of(&p[0]), text_of(&p[1]));
            Outcome::Rows(store.rows.iter().filter(|r| r.values[0] == name && r.values[2] == secret).cloned().collect())
        }
        _ => run_other(store, statement),
    }
}

/// Reads the body as a JSON object with one string member per field.
fn decode(target: Target, body: &str) -> Option<Record> {
    let fields: Vec<&str> = match target {
        Target::Create(Entity::User) | Target::Update(Entity::User) => vec!["name", "email", "password"],
        Target::Create(Entity::Mapel) | Target::Update(Entity::Mapel) => vec!["mapel"],
        Target::Create(Entity::Guru) | Target::Update(Entity::Guru) => vec!["name", "nomor_telefon"],
        Target::Login => vec!["name", "password"],
        _ => return None,
    };
    let value: serde_json::Value = serde_json::from_str(body).ok()?;
    let object = value.as_object()?;
    let mut values = Vec::new();
    for field in fields {
        values.push(object.get(field)?.as_str()?.to_string());
    }
    Some(Record { id: None, values })
}

/// Drives one connection to its end and returns what was written.
fn serve(store: &mut Users, variant: Variant, bytes: &[u8]) -> Option<String> {
    let table = default_routes();
    let mut written = None;
    let (mut connection, mut action) = step(variant, &table, Connection::Accepted, Event::Bytes(bytes.to_vec()));
    for _ in 0..8u8 {
        let event = match action {
            Action::Decode(target, body) => Event::Body(decode(target, &body)),
            Action::Run(statement) => Event::Stored(run(store, &statement)),
            Action::Write(text) => {
                assert!(written.is_none(), "one response per connection");
                written = Some(text);
                Event::Wrote
            }
            Action::Close => {
                assert_eq!(connection, Connection::Closed);
                return written;
            }
        };
        let next = step(variant, &table, connection, event);
        connection = next.0;
        action = next.1;
    }
    panic!("the connection did not close");
}

fn plain(store: &mut Users, text: &str) -> String {
    serve(store, Variant::Plain, text.as_bytes()).expect("a response")
}

fn post_user(name: &str, email: &str, password: &str) -> String {
    let body = serde_json::to_string(&[("name", name), ("email", email), ("password", password)]
        .iter()
        .cloned()
        .collect::<std::collections::BTreeMap<&str, &str>>())
    .unwrap();
    format!("POST /users HTTP/1.1\r\nContent-Type: application/json\r\n\r\n{}", body)
}

const OK: &str = "HTTP/1.1 200 OK\r\nContent-Type: application/json\r\n\r\n";
const NOT_FOUND: &str = "HTTP/1.1 404 NOT FOUND\r\n\r\n";
const INTERNAL: &str = "HTTP/1.1 500 INTERNAL ERROR\r\n\r\nInternal error";
const UNAUTHORIZED: &str = "HTTP/1.1 401 UNAUTHORIZED\r\nContent-Type: application/json\r\n\r\n";

#[test]
fn create_then_list_shows_the_record() {
    let mut store = users();
    let created = plain(
        &mut store,
        "POST /users HTTP/1.1\r\n\r\n{\"id\":null,\"name\":\"Ann\",\"email\":\"a@x.com\",\"password\":\"p\"}",
    );
    assert_eq!(created, format!("{}User created", OK));
    let listed = plain(&mut store, "GET /users HTTP/1.1\r\n\r\n");
    assert_eq!(listed, format!("{}[{{\"id\":1,\"name\":\"Ann\",\"email\":\"a@x.com\",\"password\":\"p\"}}]", OK));
    let body = listed.split("\r\n\r\n").nth(1).unwrap();
    let value: serde_json::Value = serde_json::from_str(body).unwrap();
    let names: Vec<&str> = value.as_array().unwrap().iter().map(|u| u["name"].as_str().unwrap()).collect();
    assert_eq!(names, vec!["Ann"]);
}

#[test]
fn create_then_read_returns_the_same_fields() {
    let cases = [("Ann", "a@x.com", "p"), ("", "", ""), ("A \"b\"", "x\\y", "tab\there"), ("Zoë", "z@ö.de", "päss")];
    let mut store = users();
    for (i, (name, email, password)) in cases.iter().enumerate() {
        assert_eq!(plain(&mut store, &post_user(name, email, password)), format!("{}User created", OK));
        let key = store.rows.last().unwrap().id.unwrap();
        assert_eq!(key as usize, i + 1);
        let read = plain(&mut store, &format!("GET /users/{} HTTP/1.1\r\n\r\n", key));
        let body = read.strip_prefix(OK).expect("200");
        let value: serde_json::Value = serde_json::from_str(body).unwrap();
        assert_eq!(value["id"].as_i64(), Some(key as i64));
        assert_eq!(value["name"].as_str(), Some(*name));
        assert_eq!(value["email"].as_str(), Some(*email));
        assert_eq!(value["password"].as_str(), Some(*password));
    }
}

#[test]
fn delete_then_read_is_not_found() {
    let mut store = users();
    assert_eq!(plain(&mut store, "DELETE /users/1 HTTP/1.1\r\n\r\n"), format!("{}User not found", NOT_FOUND));
    plain(&mut store, &post_user("Ann", "a@x.com", "p"));
    plain(&mut store, &post_user("Bob", "b@x.com", "q"));
    assert_eq!(plain(&mut store, "DELETE /users/1 HTTP/1.1\r\n\r\n"), format!("{}User deleted", OK));
    assert_eq!(plain(&mut store, "GET /users/1 HTTP/1.1\r\n\r\n"), format!("{}User not found", NOT_FOUND));
    assert_eq!(plain(&mut store, "DELETE /users/1 HTTP/1.1\r\n\r\n"), format!("{}User not found", NOT_FOUND));
    assert_eq!(
        plain(&mut store, "GET /users/2 HTTP/1.1\r\n\r\n"),
        format!("{}{{\"id\":2,\"name\":\"Bob\",\"email\":\"b@x.com\",\"password\":\"q\"}}", OK)
    );
}

#[test]
fn update_of_a_nonexistent_identifier_returns_200() {
    let mut store = users();
    let update = "PUT /users/77 HTTP/1.1\r\n\r\n{\"name\":\"Ann\",\"email\":\"a@x.com\",\"password\":\"p\"}";
    assert_eq!(plain(&mut store, update), format!("{}User updated", OK));
    assert!(store.rows.is_empty());
}

#[test]
fn update_overwrites_every_field() {
    let mut store = users();
    plain(&mut store, &post_user("Ann", "a@x.com", "p"));
    let update = "PUT /users/1 HTTP/1.1\r\n\r\n{\"name\":\"Anna\",\"email\":\"anna@x.com\",\"password\":\"pp\"}";
    assert_eq!(plain(&mut store, update), format!("{}User updated", OK));
    assert_eq!(
        plain(&mut store, "GET /users/1 HTTP/1.1\r\n\r\n"),
        format!("{}{{\"id\":1,\"name\":\"Anna\",\"email\":\"anna@x.com\",\"password\":\"pp\"}}", OK)
    );
}

#[test]
fn login_matches_name_and_password_exactly() {
    let mut store = users();
    let login = |name: &str, password: &str| {
        format!("POST /login HTTP/1.1\r\n\r\n{{\"name\":\"{}\",\"password\":\"{}\"}}", name, password)
    };
    let refused = format!("{}{{\"message\":\"Invalid credentials\"}}", UNAUTHORIZED);
    assert_eq!(plain(&mut store, &login("Ann", "p")), refused);
    plain(&mut store, &post_user("Ann", "a@x.com", "p"));
    plain(&mut store, &post_user("Bob", "b@x.com", "q"));
    assert_eq!(
        plain(&mut store, &login("Ann", "p")),
        format!("{}{{\"message\":\"Login successful\",\"name\":\"Ann\"}}", OK)
    );
    assert_eq!(
        plain(&mut store, &login("Bob", "q")),
        format!("{}{{\"message\":\"Login successful\",\"name\":\"Bob\"}}", OK)
    );
    assert_eq!(plain(&mut store, &login("Ann", "q")), refused);
    assert_eq!(plain(&mut store, &login("ann", "p")), refused);
    assert_eq!(plain(&mut store, &login("Ann", "")), refused);
    assert_eq!(plain(&mut store, &login("Carl", "p")), refused);
    assert_eq!(plain(&mut store, &login("a@x.com", "p")), refused);
}

#[test]
fn many_creates_then_list_has_distinct_identifiers() {
    let mut store = users();
    let count: usize = 25;
    for i in 0..count {
        plain(&mut store, &post_user(&format!("user{}", i), "e", "p"));
    }
    let listed = plain(&mut store, "GET /users HTTP/1.1\r\n\r\n");
    let value: serde_json::Value = serde_json::from_str(listed.strip_prefix(OK).unwrap()).unwrap();
    let rows = value.as_array().unwrap();
    assert_eq!(rows.len(), count);
    let mut ids: Vec<i64> = rows.iter().map(|r| r["id"].as_i64().unwrap()).collect();
    ids.sort();
    ids.dedup();
    assert_eq!(ids.len(), count);
}

#[test]
fn guru_requests_reach_the_guru_table() {
    let mut store = users();
    let created = plain(&mut store, "POST /guru HTTP/1.1\r\n\r\n{\"name\":\"Budi\",\"nomor_telefon\":\"0812\"}");
    assert_eq!(created, "HTTP/1.1 200 OK\r\nContent-Type: application/json\r\n\r\nGuru created");
    assert_eq!(rows_of(&store, Entity::Guru).len(), 1);
    assert_eq!(rows_of(&store, Entity::Guru)[0].values, vec!["Budi".to_string(), "0812".to_string()]);
    assert!(rows_of(&store, Entity::Mapel).is_empty());
    assert!(store.rows.is_empty());
    assert_eq!(
        plain(&mut store, "GET /guru/1 HTTP/1.1\r\n\r\n"),
        format!("{}{{\"id\":1,\"name\":\"Budi\",\"nomor_telefon\":\"0812\"}}", OK)
    );
    assert_eq!(
        plain(&mut store, "GET /guru HTTP/1.1\r\n\r\n"),
        format!("{}[{{\"id\":1,\"name\":\"Budi\",\"nomor_telefon\":\"0812\"}}]", OK)
    );
    let update = "PUT /guru/1 HTTP/1.1\r\n\r\n{\"name\":\"Siti\",\"nomor_telefon\":\"0813\"}";
    assert_eq!(plain(&mut store, update), format!("{}Guru updated", OK));
    assert_eq!(rows_of(&store, Entity::Guru)[0].values, vec!["Siti".to_string(), "0813".to_string()]);
    assert_eq!(plain(&mut store, "GET /guru/2 HTTP/1.1\r\n\r\n"), format!("{}Guru not found", NOT_FOUND));
    assert_eq!(plain(&mut store, "DELETE /guru/1 HTTP/1.1\r\n\r\n"), format!("{}Guru deleted", OK));
    assert_eq!(plain(&mut store, "DELETE /guru/1 HTTP/1.1\r\n\r\n"), format!("{}Guru not found", NOT_FOUND));
    assert_eq!(plain(&mut store, "POST /guru HTTP/1.1\r\n\r\n{\"mapel\":\"Fisika\"}"), INTERNAL);
}

#[test]
fn mapel_requests_reach_the_mapel_table() {
    let mut store = users();
    assert_eq!(plain(&mut store, "POST /mapel HTTP/1.1\r\n\r\n{\"mapel\":\"Fisika\"}"), format!("{}Mapel created", OK));
    assert_eq!(rows_of(&store, Entity::Mapel).len(), 1);
    assert!(rows_of(&store, Entity::Guru).is_empty());
    assert_eq!(plain(&mut store, "GET /mapel HTTP/1.1\r\n\r\n"), format!("{}[{{\"id\":1,\"mapel\":\"Fisika\"}}]", OK));
    assert_eq!(plain(&mut store, "GET /mapel/1 HTTP/1.1\r\n\r\n"), format!("{}{{\"id\":1,\"mapel\":\"Fisika\"}}", OK));
    assert_eq!(plain(&mut store, "DELETE /mapel/1 HTTP/1.1\r\n\r\n"), format!("{}Mapel deleted", OK));
    assert_eq!(plain(&mut store, "POST /mapel HTTP/1.1\r\n\r\n{\"name\":\"Budi\",\"nomor_telefon\":\"0812\"}"), INTERNAL);
}

#[test]
fn unroutable_requests_are_not_found() {
    let mut store = users();
    let missing = format!("{}404 not found", NOT_FOUND);
    for text in [
        "PATCH /users/1 HTTP/1.1\r\n\r\n",
        "PATCH /users/abc HTTP/1.1\r\n\r\nnot json",
        "GET /nothing HTTP/1.1\r\n\r\n",
        "PUT /users HTTP/1.1\r\n\r\n{}",
        "OPTIONS /users HTTP/1.1\r\n\r\n",
        "",
        "\r\n\r\n",
        "GET",
    ] {
        assert_eq!(plain(&mut store, text), missing, "{:?}", text);
    }
    store.reachable = false;
    assert_eq!(plain(&mut store, "PATCH /users/1 HTTP/1.1\r\n\r\n"), missing);
}

#[test]
fn parse_failures_are_internal_errors() {
    let mut store = users();
    assert_eq!(plain(&mut store, "GET /users/abc HTTP/1.1\r\n\r\n"), INTERNAL);
    assert_eq!(plain(&mut store, "GET /users/ HTTP/1.1\r\n\r\n"), INTERNAL);
    assert_eq!(plain(&mut store, "DELETE /users/99999999999 HTTP/1.1\r\n\r\n"), INTERNAL);
    assert_eq!(plain(&mut store, "POST /users HTTP/1.1\r\n\r\nnot json"), INTERNAL);
    assert_eq!(plain(&mut store, "POST /users HTTP/1.1\r\n\r\n{\"name\":\"Ann\"}"), INTERNAL);
    assert_eq!(plain(&mut store, "POST /users HTTP/1.1\r\n"), INTERNAL);
    assert_eq!(plain(&mut store, "PUT /users/x HTTP/1.1\r\n\r\n{\"name\":\"a\",\"email\":\"b\",\"password\":\"c\"}"), INTERNAL);
    assert_eq!(plain(&mut store, "POST /login HTTP/1.1\r\n\r\n{\"name\":\"a\"}"), INTERNAL);
    assert!(store.rows.is_empty());
}

#[test]
fn store_failures_are_internal_errors() {
    let mut store = users();
    store.reachable = false;
    assert_eq!(plain(&mut store, "GET /users HTTP/1.1\r\n\r\n"), INTERNAL);
    assert_eq!(plain(&mut store, "GET /users/1 HTTP/1.1\r\n\r\n"), INTERNAL);
    assert_eq!(plain(&mut store, &post_user("Ann", "a@x.com", "p")), INTERNAL);
    assert_eq!(plain(&mut store, "POST /login HTTP/1.1\r\n\r\n{\"name\":\"a\",\"password\":\"b\"}"), INTERNAL);
    store.reachable = true;
    assert_eq!(plain(&mut store, "GET /users HTTP/1.1\r\n\r\n"), format!("{}[]", OK));
}

#[test]
fn preflight_is_answered_without_the_store() {
    let mut store = users();
    store.reachable = false;
    let answer = serve(&mut store, Variant::Cors, b"OPTIONS /users HTTP/1.1\r\nOrigin: http://x\r\n\r\n").unwrap();
    assert_eq!(
        answer,
        "HTTP/1.1 200 OK\r\nContent-Type: application/json\r\nAccess-Control-Allow-Origin: *\r\nAccess-Control-Allow-Methods: GET, POST, PUT, DELETE, OPTIONS\r\nAccess-Control-Allow-Headers: Content-Type\r\n\r\n"
    );
    let answer = serve(&mut store, Variant::Cors, b"OPTIONS /nothing HTTP/1.1\r\n\r\n").unwrap();
    assert!(answer.starts_with("HTTP/1.1 200 OK\r\n"));
    store.reachable = true;
    let answer = serve(&mut store, Variant::Cors, b"GET /users HTTP/1.1\r\n\r\n").unwrap();
    assert!(answer.starts_with("HTTP/1.1 200 OK\r\nContent-Type: application/json\r\nAccess-Control-Allow-Origin: *\r\n"));
    assert!(answer.ends_with("\r\n\r\n[]"));
}

#[test]
fn dispatch_decides_before_any_handler() {
    let table = default_routes();
    let request = parse_request("GET /users/1 HTTP/1.1\r\n\r\n");
    assert_eq!(dispatch(Variant::Plain, &table, &request), Dispatch::Handle(Target::Read(Entity::User)));
    let request = parse_request("PATCH /users/1 HTTP/1.1\r\n\r\n");
    assert_eq!(
        dispatch(Variant::Plain, &table, &request),
        Dispatch::Reply(Response { status: Status::NotFound, body: "404 not found".to_string() })
    );
    let request = parse_request("OPTIONS /users/1 HTTP/1.1\r\n\r\n");
    assert_eq!(
        dispatch(Variant::Cors, &table, &request),
        Dispatch::Reply(Response { status: Status::Success, body: String::new() })
    );
    assert_eq!(
        dispatch(Variant::Plain, &table, &request),
        Dispatch::Reply(Response { status: Status::NotFound, body: "404 not found".to_string() })
    );
}

#[test]
fn a_failed_read_closes_without_a_response() {
    let table = default_routes();
    let (connection, action) = step(Variant::Plain, &table, Connection::Accepted, Event::ReadFailed);
    assert_eq!((connection, action), (Connection::Closed, Action::Close));
}

#[test]
fn the_phases_follow_one_order() {
    let table = default_routes();
    let bytes = b"PUT /users/3 HTTP/1.1\r\n\r\n{}".to_vec();
    let (connection, action) = step(Variant::Plain, &table, Connection::Accepted, Event::Bytes(bytes));
    let request = parse_request("PUT /users/3 HTTP/1.1\r\n\r\n{}");
    assert_eq!(connection, Connection::Routed(Target::Update(Entity::User), request));
    assert_eq!(action, Action::Decode(Target::Update(Entity::User), "{}".to_string()));
    let body = Record { id: None, values: vec!["a".to_string(), "b".to_string(), "c".to_string()] };
    let (connection, action) = step(Variant::Plain, &table, connection, Event::Body(Some(body)));
    assert_eq!(connection, Connection::Handled(Target::Update(Entity::User)));
    match &action {
        Action::Run(statement) => assert_eq!(statement.params.len(), 4),
        other => panic!("{:?}", other),
    }
    let (connection, action) = step(Variant::Plain, &table, connection, Event::Stored(Outcome::Affected(0)));
    assert_eq!(connection, Connection::Written);
    assert_eq!(action, Action::Write(format!("{}User updated", OK)));
    let (connection, action) = step(Variant::Plain, &table, connection, Event::Wrote);
    assert_eq!((connection, action), (Connection::Closed, Action::Close));
    let (connection, action) = step(Variant::Plain, &table, Connection::Closed, Event::Bytes(Vec::new()));
    assert_eq!((connection, action), (Connection::Closed, Action::Close));
}

#[test]
fn an_event_out_of_turn_closes_the_connection() {
    let table = default_routes();
    let closed = (Connection::Closed, Action::Close);
    assert_eq!(step(Variant::Plain, &table, Connection::Accepted, Event::Wrote), closed);
    assert_eq!(step(Variant::Plain, &table, Connection::Accepted, Event::Body(None)), closed);
    assert_eq!(step(Variant::Plain, &table, Connection::Accepted, Event::Stored(Outcome::Failed)), closed);
    let handled = Connection::Handled(Target::List(Entity::User));
    assert_eq!(step(Variant::Plain, &table, handled.clone(), Event::Body(None)), closed);
    assert_eq!(step(Variant::Plain, &table, handled, Event::Bytes(Vec::new())), closed);
    assert_eq!(step(Variant::Plain, &table, Connection::Written, Event::Stored(Outcome::Failed)), closed);
}

#[test]
fn startup_retries_a_bounded_number_of_times() {
    assert_eq!(MAX_ATTEMPTS, 10);
    assert_eq!(RETRY_PAUSE_SECS, 2);
    for failed in 0..10u32 {
        assert_eq!(next_attempt(failed), Retry::After(2), "{}", failed);
    }
    assert_eq!(next_attempt(10), Retry::GiveUp);
    assert_eq!(next_attempt(11), Retry::GiveUp);
    assert_eq!(next_attempt(u32::MAX), Retry::GiveUp);
}

#[test]
fn schema_creates_one_table_per_entity() {
    let sql = schema_sql();
    assert_eq!(sql.matches("CREATE TABLE IF NOT EXISTS ").count(), 3);
    for entity in [Entity::User, Entity::Mapel, Entity::Guru] {
        let head = format!("CREATE TABLE IF NOT EXISTS {} (id SERIAL PRIMARY KEY", entity.table_name());
        let at = sql.find(&head).expect("a table for the entity");
        let table = &sql[at..at + sql[at..].find(';').unwrap()];
        for i in 0..entity.column_count() {
            assert!(table.contains(&format!(", {} VARCHAR NOT NULL", entity.column_name(i))));
        }
    }
}
