use crud_engine::decimal::append_decimal;
use crud_engine::route::{default_routes, route};
use crud_engine::wire::{parse_id, parse_request};

#[test]
fn a_written_key_is_read_back() {
    for n in [0i32, 1, 9, 10, 99, 100, 12345, -1, -10, i32::MAX, i32::MIN, i32::MAX - 1, i32::MIN + 1] {
        let mut text = String::new();
        append_decimal(&mut text, n);
        assert_eq!(parse_id(&text), Some(n));
        let request = parse_request(&format!("GET /users/{} HTTP/1.1\r\n\r\n", text));
        assert_eq!(request.id, Some(n));
    }
}

#[test]
fn routing_agrees_with_the_prefix_of_the_text() {
    let entries = [
        ("POST", "/users"),
        ("GET", "/users/"),
        ("GET", "/users"),
        ("PUT", "/users/"),
        ("DELETE", "/users/"),
        ("POST", "/login"),
    ];
    let texts = [
        "POST /users HTTP/1.1\r\n\r\n{}",
        "GET /users/1 HTTP/1.1\r\n\r\n",
        "GET /users HTTP/1.1\r\n\r\n",
        "GET /usersX",
        "GET  /users",
        "GET\t/users",
        "GET /user",
        "PUT /users/",
        "PUT /users",
        "DELETE /users/9\r\n",
        "POST /login",
        "POST\r\n /login",
        "GET",
        "",
        "XGET /users",
        " GET /users",
    ];
    for text in texts {
        let request = parse_request(text);
        for (method, prefix) in entries {
            let by_parts = request.method == method && request.path.starts_with(prefix);
            let by_text = text.starts_with(&format!("{} {}", method, prefix));
            assert_eq!(by_parts, by_text, "{:?} {} {}", text, method, prefix);
        }
    }
}

#[test]
fn the_longest_matching_prefix_decides() {
    let candidates = [
        ("GET", "/users/", "/users/7"),
        ("GET", "/users", "/users"),
        ("GET", "/mapel/", "/mapel/7"),
        ("GET", "/mapel", "/mapelx"),
        ("GET", "/guru/", "/guru/"),
        ("GET", "/guru", "/guru"),
        ("POST", "/users", "/users/7"),
    ];
    let table = default_routes();
    for (method, longest, path) in candidates {
        let expected = route(&table, method, longest);
        assert!(expected.is_some());
        assert_eq!(route(&table, method, path), expected, "{} {}", method, path);
    }
}
