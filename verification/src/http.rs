//! Requests as they go out and answers as they come in.
use crate::client::CursorClient;
use crate::error::{Call, CursorError};
use crate::keys::{checksum_text, lower_hex, sha256_digest};
use crate::text::option_text;
use vstd::prelude::*;

verus! {

/// A request, ready to be sent.
#[derive(Debug)]
pub struct HttpRequest {
    pub method: String,
    pub uri: String,
    pub headers: Vec<(String, String)>,
    pub body: Vec<u8>,
}

/// What a request says.
#[verifier::ext_equal]
pub struct HttpRequestView {
    pub method: Seq<char>,
    pub uri: Seq<char>,
    pub headers: Seq<(Seq<char>, Seq<char>)>,
    pub body: Seq<u8>,
}

/// The names and values of some headers.
pub open spec fn headers_view(headers: Seq<(String, String)>) -> Seq<(Seq<char>, Seq<char>)> {
    headers.map_values(|h: (String, String)| (h.0@, h.1@))
}

impl View for HttpRequest {
    type V = HttpRequestView;

    open spec fn view(&self) -> HttpRequestView {
        HttpRequestView {
            method: self.method@,
            uri: self.uri@,
            headers: headers_view(self.headers@),
            body: self.body@,
        }
    }
}

/// What came back for a request: the bytes of a success, or the status and the text of
/// anything else.
#[derive(Debug)]
pub enum HttpAnswer {
    Success { body: Vec<u8> },
    Failure { status: String, text: String },
}

/// Whether the header at place `i` of a request has this name and this value.
pub open spec fn says(request: HttpRequest, i: int, name: Seq<char>, value: Seq<char>) -> bool {
    &&& 0 <= i < request.headers@.len()
    &&& request.headers@[i].0@ == name
    &&& request.headers@[i].1@ == value
}

/// Where the service takes a call.
pub open spec fn endpoint_uri(call: Call) -> Seq<char> {
    match call {
        Call::StreamCpp => "https://api2.cursor.sh/aiserver.v1.AiService/StreamCpp"@,
        Call::RecordCppFate => "https://api2.cursor.sh/aiserver.v1.AiService/RecordCppFate"@,
        Call::RefreshTabContext =>
            "https://api2.cursor.sh/aiserver.v1.AiService/RefreshTabContext"@,
        Call::FsSyncFile => "https://api2.cursor.sh/aiserver.v1.AiService/FSSyncFile"@,
    }
}

/// The headers of every request, in order. Only a session with a token says who it is.
pub open spec fn request_headers(
    auth_token: Option<Seq<char>>,
    session_id: Seq<char>,
    request_id: Seq<char>,
    config_version: Seq<char>,
    timezone: Seq<char>,
    client_key: Seq<char>,
    fs_client_key: Seq<char>,
    checksum: Seq<char>,
) -> Seq<(Seq<char>, Seq<char>)> {
    let common = seq![
        ("Content-Type"@, "application/connect+proto"@),
        ("Connect-Protocol-Version"@, "1"@),
        ("Connect-Accept-Encoding"@, "gzip"@),
        ("Connect-Content-Encoding"@, "gzip"@),
        ("User-Agent"@, "connect-es/1.6.1"@),
        ("X-Cursor-Client-Type"@, "ide"@),
        ("X-Cursor-Client-Version"@, "2.1.17"@),
        ("X-Cursor-Streaming"@, "true"@),
        ("X-Ghost-Mode"@, "true"@),
        ("X-Session-Id"@, session_id),
        ("X-Request-Id"@, request_id),
        ("X-Cursor-Config-Version"@, config_version),
        ("X-Cursor-Timezone"@, timezone),
        ("X-Client-Key"@, client_key),
        ("X-Fs-Client-Key"@, fs_client_key),
        ("X-Cursor-Checksum"@, checksum),
    ];
    match auth_token {
        Some(token) => common.push(("Authorization"@, "Bearer "@ + token)),
        None => common,
    }
}

/// The request that carries an envelope to the service.
pub open spec fn connect_request_view(
    call: Call,
    auth_token: Option<Seq<char>>,
    session_id: Seq<char>,
    request_id: Seq<char>,
    config_version: Seq<char>,
    timezone: Seq<char>,
    client_key: Seq<char>,
    fs_client_key: Seq<char>,
    envelope: Seq<u8>,
) -> HttpRequestView {
    HttpRequestView {
        method: "POST"@,
        uri: endpoint_uri(call),
        headers: request_headers(
            auth_token,
            session_id,
            request_id,
            config_version,
            timezone,
            client_key,
            fs_client_key,
            checksum_text(envelope),
        ),
        body: envelope,
    }
}

impl Call {
    /// Where the service takes this call.
    pub fn endpoint(self) -> (uri: &'static str)
        ensures
            uri@ == endpoint_uri(self),
            self == Call::StreamCpp ==> uri@
                == "https://api2.cursor.sh/aiserver.v1.AiService/StreamCpp"@,
            self == Call::RecordCppFate ==> uri@
                == "https://api2.cursor.sh/aiserver.v1.AiService/RecordCppFate"@,
            self == Call::RefreshTabContext ==> uri@
                == "https://api2.cursor.sh/aiserver.v1.AiService/RefreshTabContext"@,
            self == Call::FsSyncFile ==> uri@
                == "https://api2.cursor.sh/aiserver.v1.AiService/FSSyncFile"@,
    {
        match self {
            Call::StreamCpp => "https://api2.cursor.sh/aiserver.v1.AiService/StreamCpp",
            Call::RecordCppFate => "https://api2.cursor.sh/aiserver.v1.AiService/RecordCppFate",
            Call::RefreshTabContext =>
                "https://api2.cursor.sh/aiserver.v1.AiService/RefreshTabContext",
            Call::FsSyncFile => "https://api2.cursor.sh/aiserver.v1.AiService/FSSyncFile",
        }
    }
}

/// Every call has an endpoint of its own.
pub proof fn law_endpoints(one: Call, other: Call)
    ensures
        endpoint_uri(one) == endpoint_uri(other) ==> one == other,
{
    reveal_strlit("https://api2.cursor.sh/aiserver.v1.AiService/StreamCpp");
    reveal_strlit("https://api2.cursor.sh/aiserver.v1.AiService/RecordCppFate");
    reveal_strlit("https://api2.cursor.sh/aiserver.v1.AiService/RefreshTabContext");
    reveal_strlit("https://api2.cursor.sh/aiserver.v1.AiService/FSSyncFile");
    if one != other {
        assert(endpoint_uri(one).len() != endpoint_uri(other).len());
    }
}

/// Whatever the call and the identity, a request is a POST to the endpoint of the call with
/// the envelope as its body. Its headers, in order, are sixteen; each is named here with
/// what it says; and a seventeenth says who it is where there is a token.
pub proof fn law_connect_request(
    request: HttpRequest,
    call: Call,
    auth_token: Option<Seq<char>>,
    session_id: Seq<char>,
    request_id: Seq<char>,
    config_version: Seq<char>,
    timezone: Seq<char>,
    client_key: Seq<char>,
    fs_client_key: Seq<char>,
    envelope: Seq<u8>,
)
    requires
        request@ == connect_request_view(
            call,
            auth_token,
            session_id,
            request_id,
            config_version,
            timezone,
            client_key,
            fs_client_key,
            envelope,
        ),
    ensures
        request.method@ == "POST"@,
        call == Call::StreamCpp ==> request.uri@
            == "https://api2.cursor.sh/aiserver.v1.AiService/StreamCpp"@,
        call == Call::RecordCppFate ==> request.uri@
            == "https://api2.cursor.sh/aiserver.v1.AiService/RecordCppFate"@,
        call == Call::RefreshTabContext ==> request.uri@
            == "https://api2.cursor.sh/aiserver.v1.AiService/RefreshTabContext"@,
        call == Call::FsSyncFile ==> request.uri@
            == "https://api2.cursor.sh/aiserver.v1.AiService/FSSyncFile"@,
        request.body@ == envelope,
        says(request, 0, "Content-Type"@, "application/connect+proto"@),
        says(request, 1, "Connect-Protocol-Version"@, "1"@),
        says(request, 2, "Connect-Accept-Encoding"@, "gzip"@),
        says(request, 3, "Connect-Content-Encoding"@, "gzip"@),
        says(request, 4, "User-Agent"@, "connect-es/1.6.1"@),
        says(request, 5, "X-Cursor-Client-Type"@, "ide"@),
        says(request, 6, "X-Cursor-Client-Version"@, "2.1.17"@),
        says(request, 7, "X-Cursor-Streaming"@, "true"@),
        says(request, 8, "X-Ghost-Mode"@, "true"@),
        says(request, 9, "X-Session-Id"@, session_id),
        says(request, 10, "X-Request-Id"@, request_id),
        says(request, 11, "X-Cursor-Config-Version"@, config_version),
        says(request, 12, "X-Cursor-Timezone"@, timezone),
        says(request, 13, "X-Client-Key"@, client_key),
        says(request, 14, "X-Fs-Client-Key"@, fs_client_key),
        says(
            request,
            15,
            "X-Cursor-Checksum"@,
            "TPn75BGq"@ + lower_hex(sha256_digest(request.body@)),
        ),
        auth_token is None ==> request.headers@.len() == 16,
        auth_token matches Some(token) ==> request.headers@.len() == 17 && says(
            request,
            16,
            "Authorization"@,
            "Bearer "@ + token,
        ),
{
    let headers = request_headers(
        auth_token,
        session_id,
        request_id,
        config_version,
        timezone,
        client_key,
        fs_client_key,
        checksum_text(envelope),
    );
    assert(headers_view(request.headers@) == headers);
    assert(headers[0] == ("Content-Type"@, "application/connect+proto"@));
    assert(headers[1] == ("Connect-Protocol-Version"@, "1"@));
    assert(headers[2] == ("Connect-Accept-Encoding"@, "gzip"@));
    assert(headers[3] == ("Connect-Content-Encoding"@, "gzip"@));
    assert(headers[4] == ("User-Agent"@, "connect-es/1.6.1"@));
    assert(headers[5] == ("X-Cursor-Client-Type"@, "ide"@));
    assert(headers[6] == ("X-Cursor-Client-Version"@, "2.1.17"@));
    assert(headers[7] == ("X-Cursor-Streaming"@, "true"@));
    assert(headers[8] == ("X-Ghost-Mode"@, "true"@));
    assert(headers[9] == ("X-Session-Id"@, session_id));
    assert(headers[10] == ("X-Request-Id"@, request_id));
    assert(headers[11] == ("X-Cursor-Config-Version"@, config_version));
    assert(headers[12] == ("X-Cursor-Timezone"@, timezone));
    assert(headers[13] == ("X-Client-Key"@, client_key));
    assert(headers[14] == ("X-Fs-Client-Key"@, fs_client_key));
    assert(headers[15] == ("X-Cursor-Checksum"@, checksum_text(envelope)));
    assert forall|i: int| 0 <= i < headers.len() implies says(
        request,
        i,
        (#[trigger] headers[i]).0,
        headers[i].1,
    ) by {
        assert(headers_view(request.headers@)[i] == (
            request.headers@[i].0@,
            request.headers@[i].1@,
        ));
    }
    assert(request.headers@.len() == headers.len());
    if auth_token is Some {
        assert(headers[16] == ("Authorization"@, "Bearer "@ + auth_token->0));
    }
}

/// A header of a request, by its place, is read off the request itself.
pub proof fn law_says(request: HttpRequest, i: int, name: Seq<char>, value: Seq<char>)
    ensures
        says(request, i, name, value) <==> 0 <= i < request.headers@.len()
            && request.headers@[i].0@ == name && request.headers@[i].1@ == value,
        request@.method == request.method@,
        request@.uri == request.uri@,
        request@.body == request.body@,
{
}

/// Where a header stands among those of a request, told by its name.
spec fn header_place(name: Seq<char>) -> int {
    if name.len() == 10 {
        4
    } else if name.len() == 12 {
        if name[2] == 'n' {
            0
        } else if name[2] == 'G' {
            8
        } else if name[2] == 'S' {
            9
        } else if name[2] == 'R' {
            10
        } else {
            13
        }
    } else if name.len() == 13 {
        16
    } else if name.len() == 15 {
        14
    } else if name.len() == 17 {
        if name[9] == 'T' {
            12
        } else {
            15
        }
    } else if name.len() == 18 {
        7
    } else if name.len() == 20 {
        5
    } else if name.len() == 23 {
        if name[0] == 'C' {
            2
        } else if name[10] == 'l' {
            6
        } else {
            11
        }
    } else if name[8] == 'P' {
        1
    } else {
        3
    }
}

/// The names under which headers are sent are all different, the checksum is that of
/// the body, and a token is sent, under its own name, exactly where the session has one.
pub proof fn law_request_headers(
    call: Call,
    auth_token: Option<Seq<char>>,
    session_id: Seq<char>,
    request_id: Seq<char>,
    config_version: Seq<char>,
    timezone: Seq<char>,
    client_key: Seq<char>,
    fs_client_key: Seq<char>,
    envelope: Seq<u8>,
)
    ensures
        ({
            let request = connect_request_view(
                call,
                auth_token,
                session_id,
                request_id,
                config_version,
                timezone,
                client_key,
                fs_client_key,
                envelope,
            );
            let headers = request.headers;
            &&& forall|i: int, j: int|
                0 <= i < j < headers.len() ==> (#[trigger] headers[i]).0 != (
                #[trigger] headers[j]).0
            &&& headers.contains(("X-Cursor-Checksum"@, checksum_text(request.body)))
            &&& match auth_token {
                Some(token) => headers.contains(("Authorization"@, "Bearer "@ + token)),
                None => forall|i: int|
                    0 <= i < headers.len() ==> (#[trigger] headers[i]).0 != "Authorization"@,
            }
        }),
{
    let headers = request_headers(
        auth_token,
        session_id,
        request_id,
        config_version,
        timezone,
        client_key,
        fs_client_key,
        checksum_text(envelope),
    );
    assert(headers[15] == ("X-Cursor-Checksum"@, checksum_text(envelope)));
    if auth_token is Some {
        assert(headers[16] == ("Authorization"@, "Bearer "@ + auth_token->0));
    }
    reveal_strlit("Content-Type");
    reveal_strlit("Connect-Protocol-Version");
    reveal_strlit("Connect-Accept-Encoding");
    reveal_strlit("Connect-Content-Encoding");
    reveal_strlit("User-Agent");
    reveal_strlit("X-Cursor-Client-Type");
    reveal_strlit("X-Cursor-Client-Version");
    reveal_strlit("X-Cursor-Streaming");
    reveal_strlit("X-Ghost-Mode");
    reveal_strlit("X-Session-Id");
    reveal_strlit("X-Request-Id");
    reveal_strlit("X-Cursor-Config-Version");
    reveal_strlit("X-Cursor-Timezone");
    reveal_strlit("X-Client-Key");
    reveal_strlit("X-Fs-Client-Key");
    reveal_strlit("X-Cursor-Checksum");
    reveal_strlit("Authorization");
    assert(header_place("Content-Type"@) == 0);
    assert(header_place("Connect-Protocol-Version"@) == 1);
    assert(header_place("Connect-Accept-Encoding"@) == 2);
    assert(header_place("Connect-Content-Encoding"@) == 3);
    assert(header_place("User-Agent"@) == 4);
    assert(header_place("X-Cursor-Client-Type"@) == 5);
    assert(header_place("X-Cursor-Client-Version"@) == 6);
    assert(header_place("X-Cursor-Streaming"@) == 7);
    assert(header_place("X-Ghost-Mode"@) == 8);
    assert(header_place("X-Session-Id"@) == 9);
    assert(header_place("X-Request-Id"@) == 10);
    assert(header_place("X-Cursor-Config-Version"@) == 11);
    assert(header_place("X-Cursor-Timezone"@) == 12);
    assert(header_place("X-Client-Key"@) == 13);
    assert(header_place("X-Fs-Client-Key"@) == 14);
    assert(header_place("X-Cursor-Checksum"@) == 15);
    assert(header_place("Authorization"@) == 16);
    assert forall|i: int| 0 <= i < headers.len() implies header_place((#[trigger] headers[i]).0)
        == i by {}
}

/// Appends a header.
fn push_header(headers: &mut Vec<(String, String)>, name: &str, value: &str)
    ensures
        headers_view(final(headers)@) == headers_view(old(headers)@).push((name@, value@)),
{
    headers.push((name.to_owned(), value.to_owned()));
    assert(headers_view(headers@) =~= headers_view(old(headers)@).push((name@, value@)));
}

/// Puts an envelope into a request, with the headers that every call has.
pub fn connect_request(
    call: Call,
    auth_token: &Option<String>,
    session_id: &str,
    request_id: &str,
    config_version: &str,
    timezone: &str,
    client_key: &str,
    fs_client_key: &str,
    envelope: Vec<u8>,
) -> (request: HttpRequest)
    ensures
        request@ == connect_request_view(
            call,
            option_text(*auth_token),
            session_id@,
            request_id@,
            config_version@,
            timezone@,
            client_key@,
            fs_client_key@,
            envelope@,
        ),
        request.method@ == "POST"@,
        request.body@ == envelope@,
        request.headers@.len() == if auth_token is Some {
            17int
        } else {
            16
        },
{
    let checksum = CursorClient::compute_checksum(envelope.as_slice());
    let mut headers: Vec<(String, String)> = Vec::new();
    assert(headers_view(headers@) =~= Seq::empty());
    push_header(&mut headers, "Content-Type", "application/connect+proto");
    push_header(&mut headers, "Connect-Protocol-Version", "1");
    push_header(&mut headers, "Connect-Accept-Encoding", "gzip");
    push_header(&mut headers, "Connect-Content-Encoding", "gzip");
    push_header(&mut headers, "User-Agent", "connect-es/1.6.1");
    push_header(&mut headers, "X-Cursor-Client-Type", "ide");
    push_header(&mut headers, "X-Cursor-Client-Version", "2.1.17");
    push_header(&mut headers, "X-Cursor-Streaming", "true");
    push_header(&mut headers, "X-Ghost-Mode", "true");
    push_header(&mut headers, "X-Session-Id", session_id);
    push_header(&mut headers, "X-Request-Id", request_id);
    push_header(&mut headers, "X-Cursor-Config-Version", config_version);
    push_header(&mut headers, "X-Cursor-Timezone", timezone);
    push_header(&mut headers, "X-Client-Key", client_key);
    push_header(&mut headers, "X-Fs-Client-Key", fs_client_key);
    push_header(&mut headers, "X-Cursor-Checksum", checksum.as_str());
    match auth_token {
        Some(token) => {
            let mut bearer = "Bearer ".to_owned();
            bearer.append(token.as_str());
            push_header(&mut headers, "Authorization", bearer.as_str());
        },
        None => {},
    }
    assert(headers@.len() == headers_view(headers@).len());
    HttpRequest {
        method: "POST".to_owned(),
        uri: call.endpoint().to_owned(),
        headers,
        body: envelope,
    }
}

/// Whether a status code is one of success.
pub fn status_is_success(code: u16) -> (result: bool)
    ensures
        result == (200 <= code < 300),
{
    200 <= code && code < 300
}

/// The bytes of a success; the error that reports anything else.
pub fn answer_body(call: Call, answer: HttpAnswer) -> (result: Result<Vec<u8>, CursorError>)
    ensures
        match answer {
            HttpAnswer::Success { body } => result == Ok::<Vec<u8>, CursorError>(body),
            HttpAnswer::Failure { status, text } => result == Err::<Vec<u8>, CursorError>(
                CursorError::Status { call, status, body: text },
            ),
        },
{
    match answer {
        HttpAnswer::Success { body } => Ok(body),
        HttpAnswer::Failure { status, text } => Err(
            CursorError::Status { call, status, body: text },
        ),
    }
}

} // verus!
