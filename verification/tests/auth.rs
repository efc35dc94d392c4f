use yit::auth::{auth_path, callback_code, google_auth_url, token_form, GoogleConfig, CALLBACK_RESPONSE};

fn google() -> GoogleConfig {
    GoogleConfig { client_id: "cid".to_string(), client_secret: "sec".to_string() }
}

#[test]
fn consent_url() {
    assert_eq!(
        google_auth_url(&google()),
        "https://accounts.google.com/o/oauth2/v2/auth?client_id=cid&redirect_uri=http://localhost:9999/callback&response_type=code&scope=openid%20email%20profile%20https%3A%2F%2Fwww.googleapis.com%2Fauth%2Fyoutube.readonly&access_type=offline&prompt=consent"
    );
}

#[test]
fn callback_codes() {
    assert_eq!(callback_code("GET /callback?code=abc&scope=x HTTP/1.1\r\n"), Some("abc".to_string()));
    assert_eq!(callback_code("GET /callback?state=1&code=4/xy=z HTTP/1.1\r\n"), Some("4/xy=z".to_string()));
    assert_eq!(callback_code("GET /callback?noeq&code= HTTP/1.1"), Some("".to_string()));
    assert_eq!(callback_code("  GET   /callback?code=q"), Some("q".to_string()));
    assert_eq!(callback_code("GET /other?code=abc HTTP/1.1"), None);
    assert_eq!(callback_code("GET /callback?error=denied HTTP/1.1"), None);
    assert_eq!(callback_code("GET"), None);
    assert_eq!(callback_code(""), None);
}

#[test]
fn token_request_form() {
    let f = token_form("c0de", &google());
    let expected: Vec<(String, String)> = vec![
        ("code", "c0de"),
        ("client_id", "cid"),
        ("client_secret", "sec"),
        ("redirect_uri", "http://localhost:9999/callback"),
        ("grant_type", "authorization_code"),
    ]
    .into_iter()
    .map(|(a, b)| (a.to_string(), b.to_string()))
    .collect();
    assert_eq!(f, expected);
}

#[test]
fn auth_file() {
    assert_eq!(auth_path("/home/u/.local/share"), "/home/u/.local/share/yit/auth.json");
    assert!(CALLBACK_RESPONSE.starts_with("HTTP/1.1 200 OK\r\n"));
}
