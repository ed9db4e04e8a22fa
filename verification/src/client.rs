//! The four calls of the service: what goes out for each, and what its answer means.
use crate::envelope::{
    first_frame, framed, law_frame_bytes, law_frame_round_trip, law_message_bytes, message_bytes,
    open_payload, seal, split_frame, COMPRESSED_FLAG,
};
use crate::error::{Call, CursorError};
use crate::gzip::{gzip_decoded, gzip_encoded};
use crate::http::{
    answer_body, connect_request, connect_request_view, law_connect_request, says, HttpAnswer,
    HttpRequest,
};
use crate::keys::{
    client_key_text, fs_client_key_text, is_digest_text, is_random_uuid, is_utc_offset_text,
    lower_hex, random_uuid, sha256_digest,
};
use crate::stream::{
    completion_view, decodes_as, stream_outcome, LineRange, ResponseView, StreamCppResponse,
};
use crate::text::option_text;
use vstd::prelude::*;

verus! {

/// The identity under which a session talks to the service.
#[derive(Debug)]
pub struct CursorClient {
    pub auth_token: Option<String>,
    pub session_id: String,
    pub client_key: String,
    pub fs_client_key: String,
    pub workspace_id: String,
}

/// What became of a suggestion.
#[derive(Clone, Copy, Debug, PartialEq, Eq, Structural)]
pub enum CppFate {
    Accept,
    Reject,
}

/// The report of what became of a suggestion. The time that the wire message also has
/// is always zero.
#[derive(Debug)]
pub struct RecordCppFateRequest {
    pub request_id: String,
    pub fate: CppFate,
    pub extension: String,
}

/// Whether a body, read as a stream, holds just the message `serialized`.
pub open spec fn carries(body: Seq<u8>, serialized: Seq<u8>) -> bool {
    &&& first_frame(body) matches Some(frame)
    &&& frame.rest.len() == 0
    &&& message_bytes(frame.flags, frame.payload) == Some(serialized)
}

/// Whether `request` is one for `call` under the given identity and request id that
/// carries the message `serialized`. Its version of the configuration is random, and its
/// time zone is the machine's.
pub open spec fn is_request_for(
    request: HttpRequest,
    call: Call,
    auth_token: Option<String>,
    session_id: String,
    client_key: String,
    fs_client_key: String,
    request_id: Seq<char>,
    serialized: Seq<u8>,
) -> bool {
    &&& exists|config_version: Seq<char>, timezone: Seq<char>|
        is_random_uuid(config_version) && is_utc_offset_text(timezone) && request@
            == #[trigger] connect_request_view(
            call,
            option_text(auth_token),
            session_id@,
            request_id,
            config_version,
            timezone,
            client_key@,
            fs_client_key@,
            framed(COMPRESSED_FLAG, gzip_encoded(serialized)),
        )
    &&& request.body@.len() <= 5 + u32::MAX ==> carries(request.body@, serialized)
}

/// Whatever the call, its request is a POST to the endpoint of the call. Its body is one
/// frame under the flag of a compressed payload, and the payload is the compressed message,
/// from which, below 4 GiB, the message is read back. Its headers carry the identity of the
/// session and the id of the request, each under its own name, and the checksum of the body.
pub proof fn law_request_for(
    request: HttpRequest,
    call: Call,
    auth_token: Option<String>,
    session_id: String,
    client_key: String,
    fs_client_key: String,
    request_id: Seq<char>,
    serialized: Seq<u8>,
)
    requires
        is_request_for(
            request,
            call,
            auth_token,
            session_id,
            client_key,
            fs_client_key,
            request_id,
            serialized,
        ),
    ensures
        request.method@ == "POST"@,
        call == Call::StreamCpp ==> request.uri@
            == "https://api2.cursor.sh/aiserver.v1.AiService/StreamCpp"@,
        call == Call::RecordCppFate ==> request.uri@
            == "https://api2.cursor.sh/aiserver.v1.AiService/RecordCppFate"@,
        call == Call::RefreshTabContext ==> request.uri@
            == "https://api2.cursor.sh/aiserver.v1.AiService/RefreshTabContext"@,
        call == Call::FsSyncFile ==> request.uri@
            == "https://api2.cursor.sh/aiserver.v1.AiService/FSSyncFile"@,
        request.body@.len() == 5 + gzip_encoded(serialized).len(),
        request.body@[0] == 0x01,
        request.body@[1] * 0x100_0000 + request.body@[2] * 0x1_0000 + request.body@[3] * 0x100
            + request.body@[4] == gzip_encoded(serialized).len() % 0x1_0000_0000,
        request.body@.skip(5) == gzip_encoded(serialized),
        request.body@.len() <= 5 + u32::MAX ==> gzip_decoded(request.body@.skip(5)) == Some(
            serialized,
        ),
        says(request, 0, "Content-Type"@, "application/connect+proto"@),
        says(request, 1, "Connect-Protocol-Version"@, "1"@),
        says(request, 2, "Connect-Accept-Encoding"@, "gzip"@),
        says(request, 3, "Connect-Content-Encoding"@, "gzip"@),
        says(request, 4, "User-Agent"@, "connect-es/1.6.1"@),
        says(request, 5, "X-Cursor-Client-Type"@, "ide"@),
        says(request, 6, "X-Cursor-Client-Version"@, "2.1.17"@),
        says(request, 7, "X-Cursor-Streaming"@, "true"@),
        says(request, 8, "X-Ghost-Mode"@, "true"@),
        says(request, 9, "X-Session-Id"@, session_id@),
        says(request, 10, "X-Request-Id"@, request_id),
        says(request, 11, "X-Cursor-Config-Version"@, request.headers@[11].1@),
        is_random_uuid(request.headers@[11].1@),
        says(request, 12, "X-Cursor-Timezone"@, request.headers@[12].1@),
        is_utc_offset_text(request.headers@[12].1@),
        says(request, 13, "X-Client-Key"@, client_key@),
        says(request, 14, "X-Fs-Client-Key"@, fs_client_key@),
        says(
            request,
            15,
            "X-Cursor-Checksum"@,
            "TPn75BGq"@ + lower_hex(sha256_digest(request.body@)),
        ),
        auth_token is None ==> request.headers@.len() == 16,
        auth_token matches Some(token) ==> request.headers@.len() == 17 && says(
            request,
            16,
            "Authorization"@,
            "Bearer "@ + token@,
        ),
{
    let stream = gzip_encoded(serialized);
    let envelope = framed(COMPRESSED_FLAG, stream);
    let (config_version, timezone) = choose|config_version: Seq<char>, timezone: Seq<char>|
        is_random_uuid(config_version) && is_utc_offset_text(timezone) && request@
            == #[trigger] connect_request_view(
            call,
            option_text(auth_token),
            session_id@,
            request_id,
            config_version,
            timezone,
            client_key@,
            fs_client_key@,
            envelope,
        );
    law_connect_request(
        request,
        call,
        option_text(auth_token),
        session_id@,
        request_id,
        config_version,
        timezone,
        client_key@,
        fs_client_key@,
        envelope,
    );
    law_frame_bytes(COMPRESSED_FLAG, stream);
    if request.body@.len() <= 5 + u32::MAX {
        law_frame_round_trip(COMPRESSED_FLAG, stream, Seq::empty());
        assert(envelope + Seq::<u8>::empty() =~= envelope);
        assert(0x01u8 & 0x01u8 != 0) by (bit_vector);
        law_message_bytes(COMPRESSED_FLAG, stream);
    }
}

/// The request for a call.
fn request_for(
    call: Call,
    auth_token: &Option<String>,
    session_id: &String,
    client_key: &String,
    fs_client_key: &String,
    request_id: &String,
    serialized: &[u8],
) -> (result: Result<HttpRequest, CursorError>)
    ensures
        result matches Ok(request) && is_request_for(
            request,
            call,
            *auth_token,
            *session_id,
            *client_key,
            *fs_client_key,
            request_id@,
            serialized@,
        ),
{
    let envelope = match seal(serialized) {
        Ok(envelope) => envelope,
        Err(error) => {
            return Err(error);
        },
    };
    let config_version = random_uuid();
    let timezone = CursorClient::get_timezone();
    let request = connect_request(
        call,
        auth_token,
        session_id.as_str(),
        request_id.as_str(),
        config_version.as_str(),
        timezone.as_str(),
        client_key.as_str(),
        fs_client_key.as_str(),
        envelope,
    );
    Ok(request)
}

impl CursorClient {
    /// A new session: random identifiers and keys, and the token that the caller found.
    pub fn new(auth_token: Option<String>) -> (client: CursorClient)
        ensures
            client.auth_token == auth_token,
            is_random_uuid(client.session_id@),
            is_random_uuid(client.workspace_id@),
            is_digest_text(client.client_key@),
            is_digest_text(client.fs_client_key@),
            exists|random: Seq<char>|
                is_random_uuid(random) && client.client_key@ == #[trigger] client_key_text(random),
            exists|random: Seq<char>|
                is_random_uuid(random) && client.fs_client_key@ == #[trigger] fs_client_key_text(
                    random,
                ),
    {
        let session_id = random_uuid();
        let client_key = Self::generate_client_key();
        let fs_client_key = Self::generate_fs_client_key();
        let workspace_id = random_uuid();
        CursorClient { auth_token, session_id, client_key, fs_client_key, workspace_id }
    }

    /// The request for a completion. `serialized` is the encoded `StreamCppRequest`.
    pub fn get_completion_request(
        auth_token: Option<String>,
        session_id: String,
        client_key: String,
        fs_client_key: String,
        request_id: String,
        serialized: &[u8],
    ) -> (result: Result<HttpRequest, CursorError>)
        ensures
            result matches Ok(request) && is_request_for(
                request,
                Call::StreamCpp,
                auth_token,
                session_id,
                client_key,
                fs_client_key,
                request_id@,
                serialized@,
            ),
            result matches Ok(request) && {
                &&& request.method@ == "POST"@
                &&& request.uri@ == "https://api2.cursor.sh/aiserver.v1.AiService/StreamCpp"@
                &&& request.body@[0] == 0x01
                &&& request.body@.skip(5) == gzip_encoded(serialized@)
            },
    {
        let result = request_for(
            Call::StreamCpp,
            &auth_token,
            &session_id,
            &client_key,
            &fs_client_key,
            &request_id,
            serialized,
        );
        proof {
            law_request_for(
                result->Ok_0,
                Call::StreamCpp,
                auth_token,
                session_id,
                client_key,
                fs_client_key,
                request_id@,
                serialized@,
            );
        }
        result
    }

    /// The completion in an answer. `decode` reads one message of the stream.
    pub fn get_completion_response<F: Fn(&[u8]) -> Option<StreamCppResponse>>(
        answer: HttpAnswer,
        decode: F,
    ) -> (result: Result<(String, Option<String>, Option<LineRange>), CursorError>)
        requires
            forall|bytes: &[u8]| #[trigger] call_requires(decode, (bytes,)),
        ensures
            match answer {
                HttpAnswer::Failure { status, text } => result == Err::<
                    (String, Option<String>, Option<LineRange>),
                    CursorError,
                >(CursorError::Status { call: Call::StreamCpp, status, body: text }),
                HttpAnswer::Success { body } => {
                    &&& result matches Err(error) ==> error is Decompress
                    &&& forall|model: spec_fn(Seq<u8>) -> Option<ResponseView>| #[trigger]
                        decodes_as(decode, model) ==> stream_outcome(body@, model)
                            == match result {
                            Ok(completion) => Some(completion_view(completion)),
                            Err(_) => None,
                        }
                },
            },
    {
        match answer_body(Call::StreamCpp, answer) {
            Ok(body) => Self::parse_streaming_response(body.as_slice(), decode),
            Err(error) => Err(error),
        }
    }

    /// The report of what became of the suggestion that a request asked for.
    pub fn record_cpp_fate_message(request_id: String, fate: CppFate) -> (message:
        RecordCppFateRequest)
        ensures
            message.request_id == request_id,
            message.fate == fate,
            message.extension@ == "rs"@,
    {
        RecordCppFateRequest { request_id, fate, extension: "rs".to_owned() }
    }

    /// The request that reports a fate. `serialized` is the encoded
    /// `RecordCppFateRequest`; the request goes out under an id of its own.
    pub fn record_cpp_fate_request(
        auth_token: Option<String>,
        session_id: String,
        client_key: String,
        fs_client_key: String,
        serialized: &[u8],
    ) -> (result: Result<HttpRequest, CursorError>)
        ensures
            result matches Ok(request) && exists|request_id: Seq<char>|
                is_random_uuid(request_id) && #[trigger] is_request_for(
                    request,
                    Call::RecordCppFate,
                    auth_token,
                    session_id,
                    client_key,
                    fs_client_key,
                    request_id,
                    serialized@,
                ),
            result matches Ok(request) && {
                &&& request.method@ == "POST"@
                &&& request.uri@ == "https://api2.cursor.sh/aiserver.v1.AiService/RecordCppFate"@
                &&& request.body@[0] == 0x01
                &&& request.body@.skip(5) == gzip_encoded(serialized@)
            },
    {
        let request_id = random_uuid();
        let result = request_for(
            Call::RecordCppFate,
            &auth_token,
            &session_id,
            &client_key,
            &fs_client_key,
            &request_id,
            serialized,
        );
        proof {
            law_request_for(
                result->Ok_0,
                Call::RecordCppFate,
                auth_token,
                session_id,
                client_key,
                fs_client_key,
                request_id@,
                serialized@,
            );
        }
        result
    }

    /// Whether a fate was taken.
    pub fn record_cpp_fate_response(answer: HttpAnswer) -> (result: Result<(), CursorError>)
        ensures
            match answer {
                HttpAnswer::Success { .. } => result is Ok,
                HttpAnswer::Failure { status, text } => result == Err::<(), CursorError>(
                    CursorError::Status { call: Call::RecordCppFate, status, body: text },
                ),
            },
    {
        match answer_body(Call::RecordCppFate, answer) {
            Ok(_) => Ok(()),
            Err(error) => Err(error),
        }
    }

    /// The request for context. `serialized` is the encoded `RefreshTabContextRequest`;
    /// the request goes out under an id of its own.
    pub fn refresh_tab_context_request(
        auth_token: Option<String>,
        session_id: String,
        client_key: String,
        fs_client_key: String,
        serialized: &[u8],
    ) -> (result: Result<HttpRequest, CursorError>)
        ensures
            result matches Ok(request) && exists|request_id: Seq<char>|
                is_random_uuid(request_id) && #[trigger] is_request_for(
                    request,
                    Call::RefreshTabContext,
                    auth_token,
                    session_id,
                    client_key,
                    fs_client_key,
                    request_id,
                    serialized@,
                ),
            result matches Ok(request) && {
                &&& request.method@ == "POST"@
                &&& request.uri@
                    == "https://api2.cursor.sh/aiserver.v1.AiService/RefreshTabContext"@
                &&& request.body@[0] == 0x01
                &&& request.body@.skip(5) == gzip_encoded(serialized@)
            },
    {
        let request_id = random_uuid();
        let result = request_for(
            Call::RefreshTabContext,
            &auth_token,
            &session_id,
            &client_key,
            &fs_client_key,
            &request_id,
            serialized,
        );
        proof {
            law_request_for(
                result->Ok_0,
                Call::RefreshTabContext,
                auth_token,
                session_id,
                client_key,
                fs_client_key,
                request_id@,
                serialized@,
            );
        }
        result
    }

    /// The code results in an answer, which holds one message. `decode` reads the results
    /// from the message, or returns `None` where it cannot. An answer that is cut short,
    /// or cannot be decoded, has no results.
    pub fn refresh_tab_context_response<T, F: Fn(&[u8]) -> Option<Vec<T>>>(
        answer: HttpAnswer,
        decode: F,
    ) -> (result: Result<Vec<T>, CursorError>)
        requires
            forall|bytes: &[u8]| #[trigger] call_requires(decode, (bytes,)),
        ensures
            match answer {
                HttpAnswer::Failure { status, text } => result == Err::<Vec<T>, CursorError>(
                    CursorError::Status { call: Call::RefreshTabContext, status, body: text },
                ),
                HttpAnswer::Success { body } => match first_frame(body@) {
                    None => result matches Ok(results) && results@.len() == 0,
                    Some(frame) => match message_bytes(frame.flags, frame.payload) {
                        None => result matches Err(error) && error is Decompress,
                        Some(message) => result matches Ok(results) && exists|
                            bytes: &[u8],
                            reply: Option<Vec<T>>,
                        | #[trigger]
                            call_ensures(decode, (bytes,), reply) && bytes@ == message && (
                            match reply {
                                Some(decoded) => results == decoded,
                                None => results@.len() == 0,
                            }),
                    },
                },
            },
    {
        let body = match answer_body(Call::RefreshTabContext, answer) {
            Ok(body) => body,
            Err(error) => {
                return Err(error);
            },
        };
        match split_frame(body.as_slice()) {
            None => Ok(Vec::new()),
            Some((flags, payload, _rest)) => {
                let message = match open_payload(flags, payload) {
                    Ok(message) => message,
                    Err(error) => {
                        return Err(error);
                    },
                };
                match decode(message.as_slice()) {
                    Some(results) => Ok(results),
                    None => Ok(Vec::new()),
                }
            },
        }
    }

    /// The request that syncs a file. `serialized` is the encoded `FsSyncFileRequest`; the
    /// request goes out under an id of its own.
    pub fn fs_sync_file_request(
        auth_token: Option<String>,
        session_id: String,
        client_key: String,
        fs_client_key: String,
        serialized: &[u8],
    ) -> (result: Result<HttpRequest, CursorError>)
        ensures
            result matches Ok(request) && exists|request_id: Seq<char>|
                is_random_uuid(request_id) && #[trigger] is_request_for(
                    request,
                    Call::FsSyncFile,
                    auth_token,
                    session_id,
                    client_key,
                    fs_client_key,
                    request_id,
                    serialized@,
                ),
            result matches Ok(request) && {
                &&& request.method@ == "POST"@
                &&& request.uri@ == "https://api2.cursor.sh/aiserver.v1.AiService/FSSyncFile"@
                &&& request.body@[0] == 0x01
                &&& request.body@.skip(5) == gzip_encoded(serialized@)
            },
    {
        let request_id = random_uuid();
        let result = request_for(
            Call::FsSyncFile,
            &auth_token,
            &session_id,
            &client_key,
            &fs_client_key,
            &request_id,
            serialized,
        );
        proof {
            law_request_for(
                result->Ok_0,
                Call::FsSyncFile,
                auth_token,
                session_id,
                client_key,
                fs_client_key,
                request_id@,
                serialized@,
            );
        }
        result
    }

    /// Whether a file was synced.
    pub fn fs_sync_file_response(answer: HttpAnswer) -> (result: Result<(), CursorError>)
        ensures
            match answer {
                HttpAnswer::Success { .. } => result is Ok,
                HttpAnswer::Failure { status, text } => result == Err::<(), CursorError>(
                    CursorError::Status { call: Call::FsSyncFile, status, body: text },
                ),
            },
    {
        match answer_body(Call::FsSyncFile, answer) {
            Ok(_) => Ok(()),
            Err(error) => Err(error),
        }
    }
}

} // verus!
