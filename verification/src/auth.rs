//! Google sign-in for the API-based client: the consent URL, the code that
//! the browser hands back, and the token request.
use vstd::prelude::*;
use vstd::utf8::encode_utf8;

use crate::paths::{join_path, joined_path};
use crate::text::{chars_of, is_white_space, string_from_range, white_space};

verus! {

/// What a sign-in leaves behind.
pub struct Tokens {
    pub access_token: String,
    pub refresh_token: Option<String>,
    pub email: String,
    pub name: Option<String>,
}

/// The OAuth client of this program.
pub struct GoogleConfig {
    pub client_id: String,
    pub client_secret: String,
}

/// Where Google sends the browser back after consent.
pub const REDIRECT_URI: &'static str = "http://localhost:9999/callback";

/// The access asked for.
pub const SCOPES: &'static str = "openid email profile https://www.googleapis.com/auth/youtube.readonly";

/// The page the browser shows once the callback arrived.
pub const CALLBACK_RESPONSE: &'static str = "HTTP/1.1 200 OK\r\nContent-Type: text/html\r\n\r\n<html><body><h2>yit: login successful. You can close this tab.</h2></body></html>";

/// Bytes that percent-encoding leaves as they are: ASCII letters and digits,
/// `-`, `.`, `_` and `~`.
pub open spec fn is_unreserved(b: u8) -> bool {
    ||| 0x30 <= b <= 0x39
    ||| 0x41 <= b <= 0x5a
    ||| 0x61 <= b <= 0x7a
    ||| b == 0x2d
    ||| b == 0x2e
    ||| b == 0x5f
    ||| b == 0x7e
}

/// The upper-case hexadecimal digit of a value below sixteen.
pub open spec fn hex_upper(d: u8) -> char {
    if d < 10 { (0x30 + d) as char } else { (0x41 - 10 + d) as char }
}

/// Percent-encoding of a byte string: each byte that is not unreserved
/// becomes `%` and its two upper-case hexadecimal digits.
pub open spec fn percent_encoded(bytes: Seq<u8>) -> Seq<char>
    decreases bytes.len(),
{
    if bytes.len() == 0 {
        seq![]
    } else {
        let b: u8 = bytes[0];
        let head = if is_unreserved(b) {
            seq![b as char]
        } else {
            seq!['%', hex_upper(b / 16), hex_upper(b % 16)]
        };
        head + percent_encoded(bytes.drop_first())
    }
}

/// Percent-encodes a text.
///
/// Trusted: calls `urlencoding::encode`, which encodes the UTF-8 bytes of its
/// input as [`percent_encoded`] states.
#[verifier::external_body]
fn url_encode(s: &str) -> (res: String)
    ensures
        res@ == percent_encoded(encode_utf8(s@)),
{
    urlencoding::encode(s).into_owned()
}

/// The Google consent page for this client.
pub open spec fn auth_url_of(client_id: Seq<char>) -> Seq<char> {
    "https://accounts.google.com/o/oauth2/v2/auth?client_id="@ + client_id + "&redirect_uri="@
        + "http://localhost:9999/callback"@ + "&response_type=code&scope="@ + percent_encoded(
        encode_utf8("openid email profile https://www.googleapis.com/auth/youtube.readonly"@),
    ) + "&access_type=offline&prompt=consent"@
}

/// The URL that the browser opens to sign in with Google.
pub fn google_auth_url(google: &GoogleConfig) -> (res: String)
    ensures
        res@ == auth_url_of(google.client_id@),
{
    let mut s = "https://accounts.google.com/o/oauth2/v2/auth?client_id=".to_owned();
    s.append(google.client_id.as_str());
    s.append("&redirect_uri=");
    s.append("http://localhost:9999/callback");
    s.append("&response_type=code&scope=");
    let scopes = url_encode("openid email profile https://www.googleapis.com/auth/youtube.readonly");
    s.append(scopes.as_str());
    s.append("&access_type=offline&prompt=consent");
    s
}

/// The form posted to exchange a code for tokens.
pub fn token_form(code: &str, google: &GoogleConfig) -> (res: Vec<(String, String)>)
    ensures
        res.deep_view() == seq![
            ("code"@, code@),
            ("client_id"@, google.client_id@),
            ("client_secret"@, google.client_secret@),
            ("redirect_uri"@, "http://localhost:9999/callback"@),
            ("grant_type"@, "authorization_code"@),
        ],
{
    let mut v: Vec<(String, String)> = Vec::new();
    v.push(("code".to_owned(), code.to_owned()));
    v.push(("client_id".to_owned(), google.client_id.as_str().to_owned()));
    v.push(("client_secret".to_owned(), google.client_secret.as_str().to_owned()));
    v.push(("redirect_uri".to_owned(), "http://localhost:9999/callback".to_owned()));
    v.push(("grant_type".to_owned(), "authorization_code".to_owned()));
    assert(v.deep_view() =~= seq![
        ("code"@, code@),
        ("client_id"@, google.client_id@),
        ("client_secret"@, google.client_secret@),
        ("redirect_uri"@, "http://localhost:9999/callback"@),
        ("grant_type"@, "authorization_code"@),
    ]);
    v
}

/// The path of `yit/auth.json` inside the user's data directory.
pub fn auth_path(data_dir: &str) -> (res: String)
    ensures
        res@ == joined_path(joined_path(data_dir@, "yit"@), "auth.json"@),
{
    let d = join_path(data_dir, "yit");
    join_path(d.as_str(), "auth.json")
}

/// Reading a text left to right: the words finished so far and the word
/// being read.
pub open spec fn word_scan(s: Seq<char>) -> (Seq<Seq<char>>, Seq<char>)
    decreases s.len(),
{
    if s.len() == 0 {
        (seq![], seq![])
    } else {
        let (done, cur) = word_scan(s.drop_last());
        let c = s.last();
        if is_white_space(c) {
            if cur.len() > 0 { (done.push(cur), seq![]) } else { (done, seq![]) }
        } else {
            (done, cur.push(c))
        }
    }
}

/// The maximal runs of characters that are not white space, in order, as
/// `str::split_whitespace` gives them.
pub open spec fn words(s: Seq<char>) -> Seq<Seq<char>> {
    let (done, cur) = word_scan(s);
    if cur.len() > 0 { done.push(cur) } else { done }
}

/// Reading a text left to right: the pieces ended by `sep` so far and the
/// piece being read.
pub open spec fn piece_scan(s: Seq<char>, sep: char) -> (Seq<Seq<char>>, Seq<char>)
    decreases s.len(),
{
    if s.len() == 0 {
        (seq![], seq![])
    } else {
        let (done, cur) = piece_scan(s.drop_last(), sep);
        if s.last() == sep { (done.push(cur), seq![]) } else { (done, cur.push(s.last())) }
    }
}

/// The pieces between the separators, empty ones included, as `str::split`
/// gives them.
pub open spec fn pieces(s: Seq<char>, sep: char) -> Seq<Seq<char>> {
    let (done, cur) = piece_scan(s, sep);
    done.push(cur)
}

/// The text before and after the first `c`, as `str::split_once` gives it.
pub open spec fn split_once(p: Seq<char>, c: char) -> Option<(Seq<char>, Seq<char>)>
    decreases p.len(),
{
    if p.len() == 0 {
        None
    } else if p[0] == c {
        Some((seq![], p.drop_first()))
    } else {
        match split_once(p.drop_first(), c) {
            Some((k, v)) => Some((seq![p[0]] + k, v)),
            None => None,
        }
    }
}

/// The value of the first `key=value` parameter whose key is `code`.
pub open spec fn code_param(params: Seq<Seq<char>>) -> Option<Seq<char>>
    decreases params.len(),
{
    if params.len() == 0 {
        None
    } else {
        match split_once(params[0], '=') {
            Some((k, v)) => if k == "code"@ { Some(v) } else { code_param(params.drop_first()) },
            None => code_param(params.drop_first()),
        }
    }
}

/// The authorization code in the request line of the login callback: the
/// target (second word) must start with `/callback?`, and the code is the
/// first `code=` parameter of the query after it.
pub open spec fn callback_code_of(line: Seq<char>) -> Option<Seq<char>> {
    let w = words(line);
    if w.len() < 2 {
        None
    } else {
        let target = w[1];
        if target.len() >= 10 && target.take(10) == "/callback?"@ {
            code_param(pieces(target.skip(10), '&'))
        } else {
            None
        }
    }
}

proof fn lemma_chars_deep_view(v: &Vec<char>)
    ensures
        v.deep_view() == v@,
{
    assert(v.deep_view() =~= v@);
}

proof fn lemma_split_once(p: Seq<char>, c: char, idx: int)
    requires
        0 <= idx <= p.len(),
        forall|j: int| 0 <= j < idx ==> p[j] != c,
        idx < p.len() ==> p[idx] == c,
    ensures
        idx < p.len() ==> split_once(p, c) == Some((p.take(idx), p.skip(idx + 1))),
        idx == p.len() ==> split_once(p, c) is None,
    decreases idx,
{
    if idx > 0 {
        lemma_split_once(p.drop_first(), c, idx - 1);
        if idx < p.len() {
            assert(seq![p[0]] + p.drop_first().take(idx - 1) =~= p.take(idx));
            assert(p.drop_first().skip(idx) =~= p.skip(idx + 1));
        }
    } else if p.len() > 0 {
        assert(p.take(0) =~= seq![]);
        assert(p.skip(1) =~= p.drop_first());
    }
}

/// Splits a parameter at its first `=`.
fn split_param(p: &Vec<char>) -> (res: Option<(String, String)>)
    ensures
        res.deep_view() == split_once(p@, '='),
{
    let mut i: usize = 0;
    while i < p.len() && p[i] != '='
        invariant
            i <= p@.len(),
            forall|j: int| 0 <= j < i ==> p@[j] != '=',
        decreases p@.len() - i,
    {
        i = i + 1;
    }
    proof {
        lemma_split_once(p@, '=', i as int);
    }
    if i < p.len() {
        let k = string_from_range(p, 0, i);
        let v = string_from_range(p, i + 1, p.len());
        assert(p@.subrange(0, i as int) =~= p@.take(i as int));
        assert(p@.subrange(i + 1, p@.len() as int) =~= p@.skip(i + 1));
        Some((k, v))
    } else {
        None
    }
}

/// Splits characters into pieces at every `sep`.
fn split_pieces(s: &Vec<char>, start: usize, sep: char) -> (res: Vec<Vec<char>>)
    requires
        start <= s@.len(),
    ensures
        res.deep_view() == pieces(s@.skip(start as int), sep),
{
    let ghost t = s@.skip(start as int);
    let mut done: Vec<Vec<char>> = Vec::new();
    let mut cur: Vec<char> = Vec::new();
    let mut i: usize = start;
    assert(t.take(0) =~= seq![]);
    while i < s.len()
        invariant
            start <= i <= s@.len(),
            t == s@.skip(start as int),
            (done.deep_view(), cur@) == piece_scan(t.take(i - start), sep),
        decreases s@.len() - i,
    {
        assert(t.take(i + 1 - start).drop_last() =~= t.take(i - start));
        assert(t.take(i + 1 - start).last() == s@[i as int]);
        if s[i] == sep {
            let ghost before = done.deep_view();
            proof { lemma_chars_deep_view(&cur); }
            let ghost piece = cur@;
            done.push(cur);
            assert(done.deep_view() =~= before.push(piece));
            cur = Vec::new();
        } else {
            cur.push(s[i]);
        }
        i = i + 1;
    }
    assert(t.take(i - start) =~= t);
    let ghost before = done.deep_view();
    proof { lemma_chars_deep_view(&cur); }
    let ghost piece = cur@;
    done.push(cur);
    assert(done.deep_view() =~= before.push(piece));
    done
}

/// Splits characters into words at white space.
fn split_words(s: &Vec<char>) -> (res: Vec<Vec<char>>)
    ensures
        res.deep_view() == words(s@),
{
    let mut done: Vec<Vec<char>> = Vec::new();
    let mut cur: Vec<char> = Vec::new();
    let mut i: usize = 0;
    assert(s@.take(0) =~= seq![]);
    while i < s.len()
        invariant
            i <= s@.len(),
            (done.deep_view(), cur@) == word_scan(s@.take(i as int)),
        decreases s@.len() - i,
    {
        assert(s@.take(i + 1).drop_last() =~= s@.take(i as int));
        assert(s@.take(i + 1).last() == s@[i as int]);
        if white_space(s[i]) {
            if cur.len() > 0 {
                let ghost before = done.deep_view();
                proof { lemma_chars_deep_view(&cur); }
                let ghost piece = cur@;
                done.push(cur);
                assert(done.deep_view() =~= before.push(piece));
            }
            cur = Vec::new();
        } else {
            cur.push(s[i]);
        }
        i = i + 1;
    }
    assert(s@.take(i as int) =~= s@);
    if cur.len() > 0 {
        let ghost before = done.deep_view();
        proof { lemma_chars_deep_view(&cur); }
        let ghost piece = cur@;
        done.push(cur);
        assert(done.deep_view() =~= before.push(piece));
    }
    done
}

/// Reads the authorization code from the first line of the callback
/// request that the browser sends after consent.
pub fn callback_code(request_line: &str) -> (res: Option<String>)
    ensures
        res.deep_view() == callback_code_of(request_line@),
{
    let v = chars_of(request_line);
    let w = split_words(&v);
    if w.len() < 2 {
        return None;
    }
    let target = &w[1];
    proof { lemma_chars_deep_view(target); }
    assert(target@ == w.deep_view()[1]);
    if target.len() < 10 {
        return None;
    }
    let head = string_from_range(target, 0, 10);
    assert(target@.subrange(0, 10) =~= target@.take(10));
    if head != "/callback?".to_owned() {
        return None;
    }
    let params = split_pieces(target, 10, '&');
    let ghost all = params.deep_view();
    let mut i: usize = 0;
    assert(all.skip(0) =~= all);
    assert(callback_code_of(request_line@) == code_param(all));
    while i < params.len()
        invariant
            i <= params@.len(),
            callback_code_of(request_line@) == code_param(all),
            all == params.deep_view(),
            code_param(all) == code_param(all.skip(i as int)),
        decreases params@.len() - i,
    {
        assert(all.skip(i as int).drop_first() =~= all.skip(i + 1));
        proof { lemma_chars_deep_view(&params@[i as int]); }
        assert(all.skip(i as int)[0] == params@[i as int]@);
        match split_param(&params[i]) {
            Some((k, v)) => {
                if k == "code".to_owned() {
                    assert(split_once(all.skip(i as int)[0], '=') == Some((k@, v@)));
                    assert(code_param(all.skip(i as int)) == Some(v@));
                    return Some(v);
                }
            },
            None => {},
        }
        i = i + 1;
    }
    None
}

} // verus!
