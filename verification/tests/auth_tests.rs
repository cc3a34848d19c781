use scrobblist::commands::user::encode_lastfm_path;
use scrobblist::lastfm::auth::{
    success_response, waiting_response, AuthError, AuthService, FlowAction, FlowEvent,
};
use scrobblist::lastfm::client::LastFmClientError;
use scrobblist::lastfm::models::Session;

fn service() -> AuthService {
    AuthService::new("KEY".to_string(), "SECRET".to_string())
}

#[test]
fn form_urlencoding() {
    assert_eq!(encode_lastfm_path("a b*-._~é/"), "a+b*-._%7E%C3%A9%2F");
    assert_eq!(encode_lastfm_path(""), "");
}

#[test]
fn auth_url_for_token() {
    let s = service();
    assert_eq!(
        s.get_auth_url_for_token_with_callback("tok en", "http://localhost:8080/callback"),
        "https://www.last.fm/api/auth/?api_key=KEY&token=tok+en&cb=http%3A%2F%2Flocalhost%3A8080%2Fcallback"
    );
    assert_eq!(
        s.get_auth_url_for_token("t", Some("http://127.0.0.1:9000/cb")),
        "https://www.last.fm/api/auth/?api_key=KEY&token=t&cb=http%3A%2F%2F127.0.0.1%3A9000%2Fcb"
    );
    assert_eq!(
        s.get_auth_url(None),
        "https://www.last.fm/api/auth/?api_key=KEY&token=&cb=http%3A%2F%2Flocalhost%3A8080%2Fcallback"
    );
}

#[test]
fn callback_url_defaults() {
    assert_eq!(AuthService::callback_url(None), "http://localhost:8080/callback");
    assert_eq!(AuthService::callback_url(Some("http://x/y")), "http://x/y");
}

#[test]
fn token_is_read_from_the_callback_request() {
    let req = "GET /callback?token=abc&x=1 HTTP/1.1\r\nHost: localhost\r\n\r\n";
    assert_eq!(AuthService::extract_callback_token(req, None), Some("abc".to_string()));
    let req = "GET callback?x=1&token=a%20b HTTP/1.1\r\n";
    assert_eq!(AuthService::extract_callback_token(req, Some("http://localhost:9/")), Some("a b".to_string()));
    let req = "GET http://example.com/cb?token=zz HTTP/1.1";
    assert_eq!(AuthService::extract_callback_token(req, None), Some("zz".to_string()));
}

#[test]
fn requests_without_a_token() {
    assert_eq!(AuthService::extract_callback_token("", None), None);
    assert_eq!(AuthService::extract_callback_token("GET", None), None);
    assert_eq!(AuthService::extract_callback_token("GET /favicon.ico HTTP/1.1\r\n", None), None);
    assert_eq!(AuthService::extract_callback_token("\nGET /cb?token=a HTTP/1.1", None), None);
}

#[test]
fn query_values_are_decoded() {
    let req = "GET /callback?a=1&token=%41b+c HTTP/1.1";
    assert_eq!(AuthService::extract_callback_token(req, None), Some("Ab c".to_string()));
    let req = "GET /callback?token=first&token=second HTTP/1.1";
    assert_eq!(AuthService::extract_callback_token(req, None), Some("first".to_string()));
}

#[test]
fn callback_port() {
    assert_eq!(AuthService::callback_port("http://localhost:8080/callback"), Ok(8080));
    assert_eq!(AuthService::callback_port("http://localhost/callback"), Ok(80));
    assert_eq!(AuthService::callback_port("https://example.com/cb"), Ok(443));
    assert_eq!(
        AuthService::callback_port("nope"),
        Err(AuthError::CallbackServer("Invalid callback URL: nope".to_string()))
    );
}

#[test]
fn bind_targets() {
    assert_eq!(
        AuthService::callback_bind_targets(8080),
        vec!["127.0.0.1:8080", "127.0.0.1:0", "[::1]:8080", "[::1]:0"]
    );
}

#[test]
fn callback_replies() {
    let html = "<html><body><h1>Scrobblist</h1><p>Authentication complete. You can return to Scrobblist.</p></body></html>";
    let expected = format!(
        "HTTP/1.1 200 OK\r\nContent-Type: text/html; charset=utf-8\r\nContent-Length: {}\r\nConnection: close\r\n\r\n{}",
        html.len(),
        html
    );
    assert_eq!(success_response(), expected);
    assert!(waiting_response().contains("Content-Length: 121\r\n"));
}

#[test]
fn waiting_for_approval() {
    let session = Session { name: "rj".to_string(), key: "SK".to_string(), subscriber: 0 };
    assert!(matches!(
        AuthService::auth_flow_step("abc", None, FlowEvent::PollSucceeded(session.clone())),
        FlowAction::Finish(s) if s == session
    ));
    assert!(matches!(AuthService::auth_flow_step("abc", None, FlowEvent::PollFailed), FlowAction::Wait));
    let ok = AuthService::auth_flow_step("abc", None, FlowEvent::Request("GET /callback?token=abc HTTP/1.1".to_string()));
    assert!(matches!(ok, FlowAction::ReplyAndCreateSession(ref h, ref t) if *h == success_response() && t == "abc"));
    let bad = AuthService::auth_flow_step("abc", None, FlowEvent::Request("GET /callback?token=xyz HTTP/1.1".to_string()));
    assert!(matches!(bad, FlowAction::Fail(AuthError::InvalidCallback)));
    let none = AuthService::auth_flow_step("abc", None, FlowEvent::Request("GET / HTTP/1.1".to_string()));
    assert!(matches!(none, FlowAction::Reply(ref h) if *h == waiting_response()));
}

#[test]
fn responses_of_token_and_session_requests() {
    assert_eq!(AuthService::token_from_response(Some("t".to_string())), Ok("t".to_string()));
    assert_eq!(AuthService::token_from_response(None), Err(AuthError::AuthFailed));
    assert_eq!(AuthService::session_from_response(None), Err(AuthError::AuthFailed));
    let s = service();
    let p = s.token_request();
    assert_eq!(p.entry(1).1, "66ee63a18da3c919f987b342697d913c");
    let p = s.session_request("TOK");
    assert_eq!(p.entry(1).1, "0bf279e021f3a81b4553dd7e76cf72ad");
}

#[test]
fn auth_error_messages() {
    assert_eq!(AuthError::NoSession.message(), "No session found");
    assert_eq!(AuthError::InvalidCallback.message(), "Invalid callback token");
    assert_eq!(
        AuthError::ClientError(LastFmClientError::MissingApiKey).message(),
        "Last.fm client error: Missing API key"
    );
    assert_eq!(AuthError::KeychainError("x".to_string()).message(), "Keychain error: x");
    assert_eq!(AuthError::Timeout.message(), "Authentication timed out");
}

#[test]
fn callback_url_with_the_bound_port() {
    assert_eq!(
        AuthService::bound_callback_url("http://localhost:8080/callback", 53123),
        Ok("http://localhost:53123/callback".to_string())
    );
    assert_eq!(
        AuthService::bound_callback_url("http://localhost/callback", 80),
        Ok("http://localhost/callback".to_string())
    );
    assert_eq!(
        AuthService::bound_callback_url("nope", 1),
        Err(AuthError::CallbackServer("Invalid callback URL: nope".to_string()))
    );
}
