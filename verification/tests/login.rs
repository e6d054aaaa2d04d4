use floppa_cli::callback::{
    callback_response, parse_callback, wait_for_callback, CallbackError, REQUEST_LIMIT,
    SUCCESS_PAGE,
};
use floppa_cli::exit::Failure;
use floppa_cli::login::{
    auth_url, login, redirect_uri, urlencoding, AuthReply, LoginAction, LoginEvent, LoginStage,
    User, BROWSER_FAILED,
};

#[test]
fn urlencoding_keeps_unreserved_characters() {
    let unreserved = "ABCXYZabcxyz0189-_.~";
    assert_eq!(urlencoding(unreserved), unreserved);
    assert_eq!(urlencoding(""), "");
    assert_eq!(
        urlencoding("http://127.0.0.1:80/callback"),
        "http%3A%2F%2F127.0.0.1%3A80%2Fcallback"
    );
    assert_eq!(urlencoding(" %&=?#+"), "%20%25%26%3D%3F%23%2B");
    assert_eq!(urlencoding("\n\u{7f}"), "%0A%7F");
}

#[test]
fn urlencoding_writes_the_low_byte() {
    assert_eq!(urlencoding("é"), "%E9");
    assert_eq!(urlencoding("ÿ"), "%FF");
    assert_eq!(urlencoding("\u{4e2d}"), "%2D");
    for c in ['\u{100}', '\u{1f600}', '€', 'ж'] {
        assert_eq!(urlencoding(&c.to_string()), format!("%{:02X}", c as u8));
    }
}

#[test]
fn login_addresses_are_built() {
    assert_eq!(redirect_uri(0), "http://127.0.0.1:0/callback");
    assert_eq!(redirect_uri(65535), "http://127.0.0.1:65535/callback");
    let expected = "https://x/api/auth/telegram/start?redirect_uri=http%3A%2F%2F127.0.0.1%3A4711%2Fcallback";
    assert_eq!(auth_url("https://x/api", 4711), expected);
    assert_eq!(auth_url("https://x/api/", 4711), expected);
    assert_eq!(auth_url("https://x/api///", 4711), expected);
}

#[test]
fn code_is_read_from_the_request() {
    let code = |request: &str| parse_callback(request);
    assert_eq!(code("GET /callback?code=XYZ HTTP/1.1\r\nHost: a\r\n\r\n"), Some("XYZ".to_string()));
    assert_eq!(code("GET /callback?state=1&code=a=b&code=c HTTP/1.1"), Some("a=b".to_string()));
    assert_eq!(code("GET /callback?code= HTTP/1.1"), Some(String::new()));
    assert_eq!(code("GET /callback?code=x"), Some("x".to_string()));
    assert_eq!(code("GET /callback?a?code=x HTTP/1.1"), None);
    assert_eq!(code("GET /callback?code=x?y HTTP/1.1"), Some("x".to_string()));
    assert_eq!(code("GET /callback?Code=x HTTP/1.1"), None);
    assert_eq!(code("GET /callback?code HTTP/1.1"), None);
    assert_eq!(code("GET /callback HTTP/1.1"), None);
    assert_eq!(code("GET"), None);
    assert_eq!(code(""), None);
    assert_eq!(code("\nGET /callback?code=x HTTP/1.1"), None);
    assert_eq!(code("  GET \t /callback?code=x  "), Some("x".to_string()));
}

#[test]
fn code_is_read_from_bytes() {
    assert_eq!(
        wait_for_callback(b"GET /callback?code=XYZ HTTP/1.1\r\n\r\n"),
        Ok("XYZ".to_string())
    );
    assert_eq!(
        wait_for_callback("GET /callback?code=é HTTP/1.1\r\n\r\n".as_bytes()),
        Ok("é".to_string())
    );
    assert_eq!(
        wait_for_callback(b"GET /callback?code=a\xffb HTTP/1.1\r\n\r\n"),
        Ok("a\u{fffd}b".to_string())
    );
    let error = wait_for_callback(b"GET / HTTP/1.1\r\n\r\n").unwrap_err();
    assert_eq!(error, CallbackError::NoCode);
    assert_eq!(error.message(), "No 'code' parameter in callback");
    assert_eq!(REQUEST_LIMIT, 4096);
}

#[test]
fn response_announces_its_length() {
    let response = callback_response();
    let (head, body) = response.split_once("\r\n\r\n").unwrap();
    assert_eq!(body, SUCCESS_PAGE);
    assert_eq!(
        head,
        format!(
            "HTTP/1.1 200 OK\r\nContent-Type: text/html\r\nContent-Length: {}\r\nConnection: close",
            body.len()
        )
    );
    assert!(body.starts_with("<!DOCTYPE html>\n<html><head><title>Floppa VPN</title></head>\n"));
    assert!(body.contains("<h1>Login successful!</h1>\n"));
    assert!(body.ends_with("</div></body></html>"));
}

fn user(username: Option<&str>, first_name: Option<&str>) -> User {
    User {
        id: 42,
        username: username.map(str::to_string),
        first_name: first_name.map(str::to_string),
    }
}

#[test]
fn user_goes_by_a_name() {
    assert_eq!(user(Some("u"), Some("f")).display_name(), "u");
    assert_eq!(user(None, Some("f")).display_name(), "f");
    assert_eq!(user(None, None).display_name(), "user");
    assert_eq!(user(None, None).greeting(), "Logged in as user (id: 42)");
}

#[test]
fn login_runs_through() {
    let api = "https://x/api/";
    let step = login(api, LoginStage::Begin, LoginEvent::Bound(8080));
    let url = "https://x/api/auth/telegram/start?redirect_uri=http%3A%2F%2F127.0.0.1%3A8080%2Fcallback";
    assert_eq!(
        step.notes,
        vec![
            "Opening browser for Telegram login...".to_string(),
            format!("If it doesn't open, visit: {url}"),
        ]
    );
    assert!(matches!(&step.action, LoginAction::Open { url: u } if u == url));
    let step = login(api, step.stage, LoginEvent::Opened(false));
    assert_eq!(step.notes, vec![BROWSER_FAILED.to_string()]);
    assert!(matches!(step.action, LoginAction::Await));
    let request = b"GET /callback?code=c0de HTTP/1.1\r\n\r\n".to_vec();
    let step = login(api, step.stage, LoginEvent::Request(request));
    assert!(step.notes.is_empty());
    assert!(matches!(step.action, LoginAction::Respond));
    let step = login(api, step.stage, LoginEvent::Answered);
    assert!(matches!(&step.action, LoginAction::Exchange { code } if code == "c0de"));
    let reply = AuthReply { token: "t0ken".to_string(), user: user(Some("ann"), None) };
    let step = login(api, step.stage, LoginEvent::Exchanged(reply));
    assert!(matches!(&step.action, LoginAction::Save { token } if token == "t0ken"));
    let step = login(api, step.stage, LoginEvent::Saved);
    assert_eq!(
        step.notes,
        vec![
            "Logged in as ann (id: 42)".to_string(),
            "Could not determine token expiry (unexpected token format).".to_string(),
        ]
    );
    assert!(matches!(step.action, LoginAction::Finish));
    assert!(matches!(step.stage, LoginStage::Over));
}

#[test]
fn login_ends_without_a_code() {
    let step = login("x", LoginStage::Browser, LoginEvent::Opened(true));
    assert!(step.notes.is_empty());
    let step = login("x", step.stage, LoginEvent::Request(b"GET / HTTP/1.1\r\n".to_vec()));
    assert!(matches!(step.action, LoginAction::Fail(CallbackError::NoCode)));
    assert!(matches!(step.stage, LoginStage::Over));
    assert!(matches!(
        step.action.failure(),
        Some(Failure::Other(text)) if text == "No 'code' parameter in callback"
    ));
}

#[test]
fn failure_ends_the_login() {
    let stages = vec![
        LoginStage::Begin,
        LoginStage::Callback,
        LoginStage::Answer { code: "c".to_string() },
        LoginStage::Exchange,
        LoginStage::Save { token: "t".to_string(), user: user(None, None) },
    ];
    for stage in stages {
        let step = login("x", stage, LoginEvent::Failed(Failure::Other("no: way".to_string())));
        assert!(step.notes.is_empty());
        assert!(matches!(step.stage, LoginStage::Over));
        assert!(matches!(&step.action, LoginAction::Abort(_)));
        assert!(matches!(
            step.action.failure(),
            Some(Failure::Other(text)) if text == "no: way"
        ));
    }
    let step = login("x", LoginStage::Exchange, LoginEvent::Failed(Failure::Rejected));
    assert!(matches!(step.action.failure(), Some(Failure::Rejected)));
    assert!(LoginAction::Finish.failure().is_none());
    assert!(LoginAction::Await.failure().is_none());
}
