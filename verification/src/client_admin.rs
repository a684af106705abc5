//! The client's admin interface: HTTP basic authentication and the address
//! the status and check commands talk to.
use vstd::prelude::*;
use vstd::utf8::{encode_utf8, valid_utf8, decode_utf8};
use crate::base64::{b64_decode, base64_decode, base64_encode, b64_encode};
use crate::config::ClientConfig;
use crate::text::{has_prefix, split_once, split_once_str, starts_with, str_eq, string_from_utf8, chars_of, string_of, cat3, cat2, decimal, decimal_string, first_index, lemma_first_index, find_str, first_occurrence, occurs, find_char};
use crate::base64::law_base64_roundtrip;

verus! {

/// `Basic `, the scheme prefix of a basic `Authorization` header.
pub open spec fn basic_prefix() -> Seq<char> {
    seq!['B', 'a', 's', 'i', 'c', ' ']
}

/// The credentials that an `Authorization` header value carries: the text
/// after `Basic `, base64-decoded, when that is UTF-8 with a `:` in it,
/// split at the first `:` into user and password.
pub open spec fn basic_credentials(header: Seq<char>) -> Option<(Seq<char>, Seq<char>)> {
    if !has_prefix(header, basic_prefix()) {
        None
    } else {
        let decoded = b64_decode(encode_utf8(header.skip(6)));
        if !valid_utf8(decoded) {
            None
        } else {
            split_once(decode_utf8(decoded), ':')
        }
    }
}

/// The request's `Authorization` header (its text, when it is visible
/// ASCII) names the expected user and password.
pub open spec fn basic_auth_ok(header: Option<Seq<char>>, user: Seq<char>, pwd: Seq<char>) -> bool {
    match header {
        None => false,
        Some(h) => match basic_credentials(h) {
            Some((u, p)) => u == user && p == pwd,
            None => false,
        },
    }
}

/// Checks a request's `Authorization` header, given as its text (`None`
/// when it is missing or not visible ASCII), against the admin user and
/// password.
pub fn check_basic_auth(authorization: Option<&str>, expected_user: &str, expected_pwd: &str) -> (ok: bool)
    ensures
        ok == basic_auth_ok(
            match authorization {
                Some(h) => Some(h@),
                None => None,
            },
            expected_user@,
            expected_pwd@,
        ),
{
    let auth = match authorization {
        Some(a) => a,
        None => return false,
    };
    let is_basic = starts_with(auth, "Basic ");
    proof {
        reveal_strlit("Basic ");
        assert("Basic "@ =~= basic_prefix());
    }
    if !is_basic {
        return false;
    }
    let v = chars_of(auth);
    let encoded = string_of(&v, 6, v.len());
    assert(encoded@ =~= auth@.skip(6));
    let decoded = base64_decode(encoded.as_str());
    let credentials = match string_from_utf8(decoded) {
        Ok(c) => c,
        Err(_) => return false,
    };
    match split_once_str(credentials.as_str(), ':') {
        Some((user, pwd)) => str_eq(user.as_str(), expected_user) && str_eq(
            pwd.as_str(),
            expected_pwd,
        ),
        None => false,
    }
}

/// The address the admin interface is reached at: the configured admin
/// address (`127.0.0.1` when empty) and port.
pub open spec fn admin_address(admin_addr: Seq<char>, admin_port: u16) -> Seq<char> {
    (if admin_addr.len() == 0 {
        "127.0.0.1"@
    } else {
        admin_addr
    }) + ":"@ + decimal(admin_port as nat)
}

/// The `host:port` of the client's admin interface.
pub fn effective_admin_addr(config: &ClientConfig) -> (out: String)
    ensures
        out@ == admin_address(config.admin_addr@, config.admin_port),
{
    let port = decimal_string(config.admin_port as u64);
    if config.admin_addr.as_str().is_empty() {
        cat3("127.0.0.1", ":", port.as_str())
    } else {
        cat3(config.admin_addr.as_str(), ":", port.as_str())
    }
}

/// The value of the `Authorization` header that the client's commands send:
/// `Basic ` and the base64 of `user:pwd`.
pub fn basic_auth_header(user: &str, pwd: &str) -> (out: String)
    ensures
        out@ == "Basic "@ + b64_encode(encode_utf8(user@ + ":"@ + pwd@)),
{
    let credentials = cat3(user, ":", pwd);
    let encoded = base64_encode(credentials.as_str().as_bytes());
    cat2("Basic ", encoded.as_str())
}

/// Law: the header that the client's commands send for a user name without
/// `:` and any password is accepted by the admin check for that user and
/// password.
pub proof fn law_basic_header_accepted(user: Seq<char>, pwd: Seq<char>)
    requires
        !user.contains(':'),
    ensures
        basic_auth_ok(
            Some("Basic "@ + b64_encode(encode_utf8(user + ":"@ + pwd))),
            user,
            pwd,
        ),
{
    reveal_strlit("Basic ");
    reveal_strlit(":");
    let creds = user + ":"@ + pwd;
    let bytes = encode_utf8(creds);
    let h = "Basic "@ + b64_encode(bytes);
    assert(h.take(6) =~= basic_prefix());
    assert(h.skip(6) =~= b64_encode(bytes));
    law_base64_roundtrip(bytes);
    vstd::utf8::encode_utf8_valid_utf8(creds);
    vstd::utf8::encode_utf8_decode_utf8(creds);
    assert forall|k: int| 0 <= k < user.len() implies creds[k] != ':' by {
        assert(creds[k] == user[k]);
        if user[k] == ':' {
            assert(user.contains(':'));
        }
    }
    lemma_first_index(creds, ':', user.len() as int);
    assert(creds.take(user.len() as int) =~= user);
    assert(creds.skip(user.len() + 1int) =~= pwd);
}


/// The `host:port` and path of an admin URL: the text after `http://` up
/// to the first `/`, and the rest from that `/` (just `/` when there is
/// none). Any other URL has no parts.
pub open spec fn admin_url_parts(url: Seq<char>) -> Option<(Seq<char>, Seq<char>)> {
    if !has_prefix(url, "http://"@) {
        None
    } else {
        let rest = url.skip(7);
        match split_once(rest, '/') {
            Some((host, path)) => Some((host, seq!['/'] + path)),
            None => Some((rest, seq!['/'])),
        }
    }
}

/// Splits an admin URL into `host:port` and path.
pub fn split_admin_url(url: &str) -> (r: core::result::Result<(String, String), String>)
    ensures
        r is Ok <==> admin_url_parts(url@) is Some,
        r matches Ok((h, p)) ==> admin_url_parts(url@) == Some((h@, p@)),
        r matches Err(m) ==> m@ == "invalid URL"@,
{
    let ok = starts_with(url, "http://");
    proof {
        reveal_strlit("http://");
    }
    if !ok {
        return Err(String::from_str("invalid URL"));
    }
    let v = chars_of(url);
    let rest = string_of(&v, 7, v.len());
    assert(rest@ =~= url@.skip(7));
    match split_once_str(rest.as_str(), '/') {
        Some((host, path)) => {
            let p = cat2("/", path.as_str());
            proof {
                reveal_strlit("/");
                assert(p@ =~= seq!['/'] + path@);
            }
            Ok((host, p))
        },
        None => {
            let p = String::from_str("/");
            proof {
                reveal_strlit("/");
                assert(p@ =~= seq!['/']);
            }
            Ok((rest, p))
        },
    }
}

/// The GET request the client's commands send to the admin interface:
/// request line, `Host`, `Connection: close`, and a basic `Authorization`
/// header when both the admin user and password are set.
pub open spec fn admin_request_text(host_port: Seq<char>, path: Seq<char>, user: Seq<char>, pwd: Seq<char>) -> Seq<
    char,
> {
    "GET "@ + path + " HTTP/1.1\r\nHost: "@ + host_port + "\r\nConnection: close\r\n"@ + (if user.len() > 0
        && pwd.len() > 0 {
        "Authorization: Basic "@ + b64_encode(encode_utf8(user + ":"@ + pwd)) + "\r\n"@
    } else {
        Seq::empty()
    }) + "\r\n"@
}

/// Builds the GET request for `path` on the admin interface at `host_port`.
pub fn admin_get_request(host_port: &str, path: &str, user: &str, pwd: &str) -> (out: String)
    ensures
        out@ == admin_request_text(host_port@, path@, user@, pwd@),
{
    let head = cat3("GET ", path, " HTTP/1.1\r\nHost: ");
    let mut out = cat3(head.as_str(), host_port, "\r\nConnection: close\r\n");
    let ghost base = out@;
    if !user.is_empty() && !pwd.is_empty() {
        let credentials = cat3(user, ":", pwd);
        let encoded = base64_encode(credentials.as_str().as_bytes());
        let line = cat3("Authorization: Basic ", encoded.as_str(), "\r\n");
        out.append(line.as_str());
        out.append("\r\n");
        assert(out@ =~= admin_request_text(host_port@, path@, user@, pwd@));
    } else {
        out.append("\r\n");
        assert(out@ =~= admin_request_text(host_port@, path@, user@, pwd@));
    }
    out
}

/// The body of the admin interface's answer: the text after the blank
/// line that ends the head, unless the status line says 401.
pub open spec fn admin_response_body(text: Seq<char>, end: int) -> core::result::Result<Seq<char>, Seq<char>> {
    let status_end = match first_index(text, '\n') {
        Some(i) => i,
        None => text.len() as int,
    };
    if occurs(text.take(status_end), "401"@) {
        Err("unauthorized (check admin_user/admin_pwd)"@)
    } else {
        Ok(text.skip(end + 4))
    }
}

/// Reads the admin interface's answer (as text): its body, or why there is
/// none.
pub fn parse_admin_response(text: &str) -> (r: core::result::Result<String, String>)
    ensures
        !occurs(text@, "\r\n\r\n"@) ==> (r matches Err(m) && m@ == "invalid HTTP response"@),
        occurs(text@, "\r\n\r\n"@) ==> exists|end: int|
            first_occurrence(text@, "\r\n\r\n"@, end) && match (r, admin_response_body(text@, end)) {
                (Ok(b), Ok(x)) => b@ == x,
                (Err(m), Err(x)) => m@ == x,
                _ => false,
            },
{
    let pos = match find_str(text, "\r\n\r\n") {
        Some(p) => p,
        None => return Err(String::from_str("invalid HTTP response")),
    };
    proof {
        reveal_strlit("\r\n\r\n");
    }
    let v = chars_of(text);
    let status_end = match find_char(&v, '\n') {
        Some(i) => i,
        None => v.len(),
    };
    let status = string_of(&v, 0, status_end);
    assert(status@ =~= text@.take(status_end as int));
    if find_str(status.as_str(), "401").is_some() {
        return Err(String::from_str("unauthorized (check admin_user/admin_pwd)"));
    }
    assert(pos + 4 <= v.len());
    let body = string_of(&v, pos + 4, v.len());
    assert(body@ =~= text@.skip(pos + 4));
    Ok(body)
}

} // verus!
