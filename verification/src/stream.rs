//! Streamed answers: messages one after another, each of which adds to one
//! completion.
use crate::client::CursorClient;
use crate::envelope::{
    first_frame, framed, is_end_marker, law_first_frame, law_frame_round_trip, law_message_bytes,
    message_bytes, open_payload, split_frame, FrameView, END_OF_STREAM_FLAG,
};
use crate::error::CursorError;
use crate::gzip::gzip_decoded;
use crate::text::option_text;
use vstd::prelude::*;

verus! {

/// Lines of a file, counted from 1, both ends meant.
#[derive(Clone, Copy, Debug, PartialEq, Eq, Structural)]
pub struct LineRange {
    pub start_line_number: i32,
    pub end_line_number_inclusive: i32,
}

/// The fields of an answer message that a completion is made from.
#[derive(Debug)]
pub struct StreamCppResponse {
    pub text: String,
    pub done_stream: Option<bool>,
    pub binding_id: Option<String>,
    pub range_to_replace: Option<LineRange>,
}

/// What an answer message says.
#[verifier::ext_equal]
pub struct ResponseView {
    pub text: Seq<char>,
    pub done_stream: Option<bool>,
    pub binding_id: Option<Seq<char>>,
    pub range_to_replace: Option<LineRange>,
}

/// What the messages of a stream say together.
#[verifier::ext_equal]
pub struct CompletionView {
    pub text: Seq<char>,
    pub binding_id: Option<Seq<char>>,
    pub range_to_replace: Option<LineRange>,
}

impl View for StreamCppResponse {
    type V = ResponseView;

    open spec fn view(&self) -> ResponseView {
        ResponseView {
            text: self.text@,
            done_stream: self.done_stream,
            binding_id: option_text(self.binding_id),
            range_to_replace: self.range_to_replace,
        }
    }
}

/// What a decoder's answer says.
pub open spec fn reply_view(reply: Option<StreamCppResponse>) -> Option<ResponseView> {
    match reply {
        Some(reply) => Some(reply@),
        None => None,
    }
}

/// What a finished completion says.
pub open spec fn completion_view(
    completion: (String, Option<String>, Option<LineRange>),
) -> CompletionView {
    CompletionView {
        text: completion.0@,
        binding_id: option_text(completion.1),
        range_to_replace: completion.2,
    }
}

/// The completion before any message.
pub open spec fn no_completion() -> CompletionView {
    CompletionView { text: Seq::empty(), binding_id: None, range_to_replace: None }
}

/// A completion after one more message: its text is appended, its binding replaces
/// the one before, and its range counts only where there was none.
pub open spec fn absorbed(c: CompletionView, reply: ResponseView) -> CompletionView {
    CompletionView {
        text: c.text + reply.text,
        binding_id: if reply.binding_id is Some {
            reply.binding_id
        } else {
            c.binding_id
        },
        range_to_replace: if c.range_to_replace is Some {
            c.range_to_replace
        } else {
            reply.range_to_replace
        },
    }
}

/// Whether a message, or the flags it came under, end the stream.
pub open spec fn finishes(flags: u8, reply: ResponseView) -> bool {
    reply.done_stream == Some(true) || is_end_marker(flags)
}

/// What the rest of a stream makes of a completion. Messages that cannot be decoded
/// are passed over, an incomplete message ends the stream, and a message that cannot
/// be decompressed makes the whole stream fail.
pub open spec fn stream_from(
    data: Seq<u8>,
    c: CompletionView,
    decode: spec_fn(Seq<u8>) -> Option<ResponseView>,
) -> Option<CompletionView>
    decreases data.len(),
{
    match first_frame(data) {
        None => Some(c),
        Some(frame) => match message_bytes(frame.flags, frame.payload) {
            None => None,
            Some(bytes) => match decode(bytes) {
                None => stream_from(frame.rest, c, decode),
                Some(reply) => if finishes(frame.flags, reply) {
                    Some(absorbed(c, reply))
                } else {
                    stream_from(frame.rest, absorbed(c, reply), decode)
                },
            },
        },
    }
}

/// The completion that a stream spells.
pub open spec fn stream_outcome(
    data: Seq<u8>,
    decode: spec_fn(Seq<u8>) -> Option<ResponseView>,
) -> Option<CompletionView> {
    stream_from(data, no_completion(), decode)
}

/// Whether `decode` answers every message as `model` says.
pub open spec fn decodes_as<F: Fn(&[u8]) -> Option<StreamCppResponse>>(
    decode: F,
    model: spec_fn(Seq<u8>) -> Option<ResponseView>,
) -> bool {
    forall|bytes: &[u8], reply: Option<StreamCppResponse>| #[trigger]
        call_ensures(decode, (bytes,), reply) ==> reply_view(reply) == model(bytes@)
}

/// The messages of a stream that count: those that can be decoded, up to the one
/// that ends it.
pub open spec fn replies_read(
    data: Seq<u8>,
    decode: spec_fn(Seq<u8>) -> Option<ResponseView>,
) -> Seq<ResponseView>
    decreases data.len(),
{
    match first_frame(data) {
        None => Seq::empty(),
        Some(frame) => match message_bytes(frame.flags, frame.payload) {
            None => Seq::empty(),
            Some(bytes) => match decode(bytes) {
                None => replies_read(frame.rest, decode),
                Some(reply) => if finishes(frame.flags, reply) {
                    seq![reply]
                } else {
                    seq![reply] + replies_read(frame.rest, decode)
                },
            },
        },
    }
}

/// The texts of some messages, one after another.
pub open spec fn joined_texts(replies: Seq<ResponseView>) -> Seq<char>
    decreases replies.len(),
{
    if replies.len() == 0 {
        Seq::empty()
    } else {
        replies[0].text + joined_texts(replies.skip(1))
    }
}

/// Whether `b` is the last binding that any of some messages names.
pub open spec fn is_last_binding(replies: Seq<ResponseView>, b: Option<Seq<char>>) -> bool {
    match b {
        None => forall|i: int| 0 <= i < replies.len() ==> #[trigger] replies[i].binding_id is None,
        Some(_) => exists|i: int|
            0 <= i < replies.len() && #[trigger] replies[i].binding_id == b && forall|j: int|
                i < j < replies.len() ==> #[trigger] replies[j].binding_id is None,
    }
}

/// Whether `r` is the first range that any of some messages gives.
pub open spec fn is_first_range(replies: Seq<ResponseView>, r: Option<LineRange>) -> bool {
    match r {
        None => forall|i: int|
            0 <= i < replies.len() ==> #[trigger] replies[i].range_to_replace is None,
        Some(_) => exists|i: int|
            0 <= i < replies.len() && #[trigger] replies[i].range_to_replace == r && forall|j: int|
                0 <= j < i ==> #[trigger] replies[j].range_to_replace is None,
    }
}

/// What the rest of a stream adds to a completion.
proof fn lemma_stream_from(
    data: Seq<u8>,
    c: CompletionView,
    decode: spec_fn(Seq<u8>) -> Option<ResponseView>,
)
    ensures
        stream_from(data, c, decode) matches Some(done) ==> {
            let replies = replies_read(data, decode);
            &&& done.text == c.text + joined_texts(replies)
            &&& if is_last_binding(replies, None) {
                done.binding_id == c.binding_id
            } else {
                done.binding_id is Some && is_last_binding(replies, done.binding_id)
            }
            &&& if c.range_to_replace is Some {
                done.range_to_replace == c.range_to_replace
            } else {
                is_first_range(replies, done.range_to_replace)
            }
        },
    decreases data.len(),
{
    if stream_from(data, c, decode) is Some && first_frame(data) is Some {
        let done = stream_from(data, c, decode)->0;
        let frame = first_frame(data)->0;
        let bytes = message_bytes(frame.flags, frame.payload)->0;
        match decode(bytes) {
            None => lemma_stream_from(frame.rest, c, decode),
            Some(reply) => {
                let replies = replies_read(data, decode);
                if finishes(frame.flags, reply) {
                    assert(replies[0] == reply);
                    assert(replies.skip(1) =~= Seq::empty());
                    assert(joined_texts(replies) =~= reply.text + joined_texts(replies.skip(1)));
                    assert(joined_texts(replies) =~= reply.text);
                } else {
                    let next = absorbed(c, reply);
                    let later = replies_read(frame.rest, decode);
                    lemma_stream_from(frame.rest, next, decode);
                    assert(replies[0] == reply);
                    assert(replies.skip(1) =~= later);
                    assert(done.text =~= c.text + joined_texts(replies));
                    assert forall|i: int| 0 <= i < later.len() implies #[trigger] later[i]
                        == replies[i + 1] by {}
                    assert forall|i: int| 1 <= i < replies.len() implies #[trigger] replies[i]
                        == later[i - 1] by {}
                    if is_last_binding(later, None) {
                        assert(replies[0].binding_id == reply.binding_id);
                        if reply.binding_id is None {
                            assert(is_last_binding(replies, None));
                        } else {
                            assert(is_last_binding(replies, reply.binding_id));
                        }
                    } else {
                        let i = choose|i: int|
                            0 <= i < later.len() && #[trigger] later[i].binding_id
                                == done.binding_id && forall|j: int|
                                i < j < later.len() ==> #[trigger] later[j].binding_id is None;
                        assert(replies[i + 1].binding_id == done.binding_id);
                        assert(!is_last_binding(replies, None));
                    }
                    if c.range_to_replace is None {
                        if reply.range_to_replace is Some {
                            assert(replies[0].range_to_replace == done.range_to_replace);
                        } else if done.range_to_replace is Some {
                            let i = choose|i: int|
                                0 <= i < later.len() && #[trigger] later[i].range_to_replace
                                    == done.range_to_replace && forall|j: int|
                                    0 <= j < i ==> #[trigger] later[j].range_to_replace is None;
                            assert(replies[i + 1].range_to_replace == done.range_to_replace);
                        }
                    }
                }
            },
        }
    }
}

/// Whether a stream is made of whole messages, with nothing left over.
pub open spec fn whole_messages(data: Seq<u8>) -> bool
    decreases data.len(),
{
    match first_frame(data) {
        None => data.len() == 0,
        Some(frame) => whole_messages(frame.rest),
    }
}

/// Whether a stream reaches a message that ends it.
pub open spec fn reaches_end(
    data: Seq<u8>,
    decode: spec_fn(Seq<u8>) -> Option<ResponseView>,
) -> bool
    decreases data.len(),
{
    match first_frame(data) {
        None => false,
        Some(frame) => match message_bytes(frame.flags, frame.payload) {
            None => false,
            Some(bytes) => match decode(bytes) {
                None => reaches_end(frame.rest, decode),
                Some(reply) => finishes(frame.flags, reply) || reaches_end(frame.rest, decode),
            },
        },
    }
}

/// A message at the front of a stream stays the same when the stream goes on.
proof fn lemma_first_frame_append(data: Seq<u8>, more: Seq<u8>)
    ensures
        first_frame(data) matches Some(frame) ==> first_frame(data + more) == Some(
            FrameView { flags: frame.flags, payload: frame.payload, rest: frame.rest + more },
        ),
{
    if first_frame(data) is Some {
        let frame = first_frame(data)->0;
        let all = data + more;
        assert(all.subrange(1, 5) =~= data.subrange(1, 5));
        let n = frame.payload.len() as int;
        assert(all.subrange(5, 5 + n) =~= data.subrange(5, 5 + n));
        assert(all.skip(5 + n) =~= data.skip(5 + n) + more);
    }
}

/// The text of a completion is the texts of the messages that count, one after
/// another; its binding is the last that any of them names, and its range is the
/// first that any of them gives.
pub proof fn law_stream_parts(data: Seq<u8>, decode: spec_fn(Seq<u8>) -> Option<ResponseView>)
    ensures
        stream_outcome(data, decode) matches Some(done) ==> {
            let replies = replies_read(data, decode);
            &&& done.text == joined_texts(replies)
            &&& is_last_binding(replies, done.binding_id)
            &&& is_first_range(replies, done.range_to_replace)
        },
{
    lemma_stream_from(data, no_completion(), decode);
    if stream_outcome(data, decode) is Some {
        let replies = replies_read(data, decode);
        assert(Seq::<char>::empty() + joined_texts(replies) =~= joined_texts(replies));
    }
}

/// What follows some whole messages counts only where they neither failed nor ended
/// the stream, and then adds to what they spelled. An incomplete message that
/// follows them adds nothing.
pub proof fn law_stream_append(
    data: Seq<u8>,
    more: Seq<u8>,
    c: CompletionView,
    decode: spec_fn(Seq<u8>) -> Option<ResponseView>,
)
    requires
        whole_messages(data),
    ensures
        stream_from(data + more, c, decode) == match stream_from(data, c, decode) {
            None => None,
            Some(done) => if reaches_end(data, decode) {
                Some(done)
            } else {
                stream_from(more, done, decode)
            },
        },
        first_frame(more) is None ==> stream_from(data + more, c, decode) == stream_from(
            data,
            c,
            decode,
        ),
    decreases data.len(),
{
    match first_frame(data) {
        None => {
            assert(data + more =~= more);
        },
        Some(frame) => {
            lemma_first_frame_append(data, more);
            match message_bytes(frame.flags, frame.payload) {
                None => {},
                Some(bytes) => match decode(bytes) {
                    None => law_stream_append(frame.rest, more, c, decode),
                    Some(reply) => if !finishes(frame.flags, reply) {
                        law_stream_append(frame.rest, more, absorbed(c, reply), decode);
                    },
                },
            }
        },
    }
}

/// One more message at the front of a stream: it fails the stream where it cannot be
/// decompressed, is passed over where it cannot be decoded, ends the stream where it
/// says so or its flags do, and otherwise adds to the completion. The stream is made
/// of whole messages exactly where what follows the message is.
pub proof fn law_stream_message(
    flags: u8,
    payload: Seq<u8>,
    rest: Seq<u8>,
    c: CompletionView,
    decode: spec_fn(Seq<u8>) -> Option<ResponseView>,
)
    requires
        payload.len() <= u32::MAX,
    ensures
        stream_from(framed(flags, payload) + rest, c, decode) == match message_bytes(
            flags,
            payload,
        ) {
            None => None,
            Some(bytes) => match decode(bytes) {
                None => stream_from(rest, c, decode),
                Some(reply) => if finishes(flags, reply) {
                    Some(absorbed(c, reply))
                } else {
                    stream_from(rest, absorbed(c, reply), decode)
                },
            },
        },
        whole_messages(framed(flags, payload) + rest) == whole_messages(rest),
{
    law_frame_round_trip(flags, payload, rest);
}

/// What an answer message says is what its fields hold, and the same is so of a finished
/// completion.
pub proof fn law_fields(
    reply: StreamCppResponse,
    text: String,
    binding_id: Option<String>,
    range_to_replace: Option<LineRange>,
)
    ensures
        reply@.text == reply.text@,
        reply@.done_stream == reply.done_stream,
        reply@.binding_id is Some <==> reply.binding_id is Some,
        reply.binding_id matches Some(b) ==> reply@.binding_id == Some(b@),
        reply@.range_to_replace == reply.range_to_replace,
        ({
            let c = completion_view((text, binding_id, range_to_replace));
            &&& c.text == text@
            &&& c.binding_id is Some <==> binding_id is Some
            &&& binding_id matches Some(b) ==> c.binding_id == Some(b@)
            &&& c.range_to_replace == range_to_replace
        }),
{
}

/// A decoder answers as a model says exactly where each of its answers says, field by
/// field, what the model says of the bytes, and is none where the model says none.
pub proof fn law_decodes_as<F: Fn(&[u8]) -> Option<StreamCppResponse>>(
    decode: F,
    model: spec_fn(Seq<u8>) -> Option<ResponseView>,
)
    ensures
        decodes_as(decode, model) <==> (forall|bytes: &[u8], reply: Option<StreamCppResponse>|
         #[trigger]
            call_ensures(decode, (bytes,), reply) ==> match (reply, model(bytes@)) {
                (None, None) => true,
                (Some(reply), Some(said)) => {
                    &&& said.text == reply.text@
                    &&& said.done_stream == reply.done_stream
                    &&& said.binding_id == (match reply.binding_id {
                        Some(b) => Some(b@),
                        None => None,
                    })
                    &&& said.range_to_replace == reply.range_to_replace
                },
                _ => false,
            }),
{
    if decodes_as(decode, model) {
        assert forall|bytes: &[u8], reply: Option<StreamCppResponse>| #[trigger]
            call_ensures(decode, (bytes,), reply) implies reply_view(reply) == model(bytes@) by {}
    } else {
        let (bytes, reply) = choose|bytes: &[u8], reply: Option<StreamCppResponse>|
            #![trigger call_ensures(decode, (bytes,), reply)]
            call_ensures(decode, (bytes,), reply) && reply_view(reply) != model(bytes@);
        assert(call_ensures(decode, (bytes,), reply));
        if reply is Some && model(bytes@) is Some {
            let said = model(bytes@)->0;
            if said.text == reply->0.text@ && said.done_stream == reply->0.done_stream
                && said.binding_id == reply->0@.binding_id && said.range_to_replace
                == reply->0.range_to_replace {
                assert(said =~= reply->0@);
            }
        }
    }
}

/// One message more appends its text, puts its binding in place of the one before where it
/// names one, and gives its range where none was given before.
pub proof fn law_absorbed(c: CompletionView, reply: ResponseView)
    ensures
        absorbed(c, reply).text == c.text + reply.text,
        reply.binding_id is Some ==> absorbed(c, reply).binding_id == reply.binding_id,
        reply.binding_id is None ==> absorbed(c, reply).binding_id == c.binding_id,
        c.range_to_replace is Some ==> absorbed(c, reply).range_to_replace == c.range_to_replace,
        c.range_to_replace is None ==> absorbed(c, reply).range_to_replace
            == reply.range_to_replace,
{
}

/// A stream is read from nothing: no text, no binding, no range.
pub proof fn law_stream_start(
    data: Seq<u8>,
    c: CompletionView,
    decode: spec_fn(Seq<u8>) -> Option<ResponseView>,
)
    requires
        c.text.len() == 0,
        c.binding_id is None,
        c.range_to_replace is None,
    ensures
        stream_outcome(data, decode) == stream_from(data, c, decode),
{
    assert(c =~= no_completion());
}

/// A stream that does not hold all of the message that its first five bytes announce adds
/// nothing.
pub proof fn law_stream_cut_short(
    data: Seq<u8>,
    c: CompletionView,
    decode: spec_fn(Seq<u8>) -> Option<ResponseView>,
)
    requires
        data.len() < 5 || data.len() < 5 + data[1] * 0x100_0000 + data[2] * 0x1_0000 + data[3]
            * 0x100 + data[4],
    ensures
        stream_from(data, c, decode) == Some(c),
{
    law_first_frame(data);
}

/// How a stream goes on is decided by its first message alone. `n` is the length that its
/// second to fifth byte announce. A compressed payload, one under the lowest bit of the
/// flags, that cannot be decompressed fails the stream. A message that cannot be decoded is
/// passed over, whatever its flags. One that is decoded counts: its text is appended, its
/// binding replaces the one before, its range counts where there was none. It is the last
/// exactly where it says that the stream is done or the second bit of the flags is set;
/// else what follows it is read on.
pub proof fn law_stream_goes_on(
    data: Seq<u8>,
    n: int,
    c: CompletionView,
    decode: spec_fn(Seq<u8>) -> Option<ResponseView>,
)
    requires
        data.len() >= 5,
        n == data[1] * 0x100_0000 + data[2] * 0x1_0000 + data[3] * 0x100 + data[4],
        data.len() >= 5 + n,
    ensures
        ({
            let payload = data.subrange(5, 5 + n);
            let rest = data.skip(5 + n);
            let message = if data[0] & 0x01 == 0 {
                Some(payload)
            } else {
                gzip_decoded(payload)
            };
            &&& message is None ==> stream_from(data, c, decode) is None
            &&& message matches Some(bytes) ==> {
                &&& decode(bytes) is None ==> stream_from(data, c, decode) == stream_from(
                    rest,
                    c,
                    decode,
                )
                &&& decode(bytes) matches Some(reply) ==> {
                    let next = CompletionView {
                        text: c.text + reply.text,
                        binding_id: if reply.binding_id is Some {
                            reply.binding_id
                        } else {
                            c.binding_id
                        },
                        range_to_replace: if c.range_to_replace is Some {
                            c.range_to_replace
                        } else {
                            reply.range_to_replace
                        },
                    };
                    &&& reply.done_stream == Some(true) || data[0] & 0x02 != 0 ==> stream_from(
                        data,
                        c,
                        decode,
                    ) == Some(next)
                    &&& reply.done_stream != Some(true) && data[0] & 0x02 == 0 ==> stream_from(
                        data,
                        c,
                        decode,
                    ) == stream_from(rest, next, decode)
                }
            }
        }),
{
    law_first_frame(data);
    law_message_bytes(data[0], data.subrange(5, 5 + n));
}

/// A message sent plainly, under flags without either of the two lowest bits, that does not
/// say that the stream is done, does not end it, whatever else it says or leaves out.
pub proof fn law_plain_message_goes_on(
    flags: u8,
    payload: Seq<u8>,
    rest: Seq<u8>,
    c: CompletionView,
    reply: ResponseView,
    decode: spec_fn(Seq<u8>) -> Option<ResponseView>,
)
    requires
        flags & 0x03 == 0,
        payload.len() <= u32::MAX,
        decode(payload) == Some(reply),
        reply.done_stream != Some(true),
    ensures
        stream_from(framed(flags, payload) + rest, c, decode) == stream_from(
            rest,
            absorbed(c, reply),
            decode,
        ),
{
    assert(flags & 0x03 == 0 ==> flags & 0x01 == 0 && flags & 0x02 == 0) by (bit_vector);
    law_frame_round_trip(flags, payload, rest);
    law_message_bytes(flags, payload);
}

/// Adds one message to a completion.
pub fn absorb(
    text: &mut String,
    binding_id: &mut Option<String>,
    range_to_replace: &mut Option<LineRange>,
    reply: StreamCppResponse,
)
    ensures
        completion_view((*final(text), *final(binding_id), *final(range_to_replace))) == absorbed(
            completion_view((*old(text), *old(binding_id), *old(range_to_replace))),
            reply@,
        ),
        final(text)@ == old(text)@ + reply.text@,
        reply.binding_id is Some ==> *final(binding_id) == reply.binding_id,
        reply.binding_id is None ==> *final(binding_id) == *old(binding_id),
        *old(range_to_replace) is Some ==> *final(range_to_replace) == *old(range_to_replace),
        *old(range_to_replace) is None ==> *final(range_to_replace) == reply.range_to_replace,
{
    text.append(reply.text.as_str());
    if reply.binding_id.is_some() {
        *binding_id = reply.binding_id;
    }
    if reply.range_to_replace.is_some() && range_to_replace.is_none() {
        *range_to_replace = reply.range_to_replace;
    }
}

impl CursorClient {
    /// Reads a streamed answer: the text of its messages put together, the last
    /// binding that any of them names, and the first range. `decode` reads one
    /// message, or returns `None` where it cannot.
    pub fn parse_streaming_response<F: Fn(&[u8]) -> Option<StreamCppResponse>>(
        data: &[u8],
        decode: F,
    ) -> (result: Result<(String, Option<String>, Option<LineRange>), CursorError>)
        requires
            forall|bytes: &[u8]| #[trigger] call_requires(decode, (bytes,)),
        ensures
            result matches Err(error) ==> error is Decompress,
            forall|model: spec_fn(Seq<u8>) -> Option<ResponseView>| #[trigger]
                decodes_as(decode, model) ==> stream_outcome(data@, model) == match result {
                    Ok(completion) => Some(completion_view(completion)),
                    Err(_) => None,
                },
    {
        let mut buffer: &[u8] = data;
        let mut text = String::new();
        let mut binding_id: Option<String> = None;
        let mut range_to_replace: Option<LineRange> = None;
        assert(completion_view((text, binding_id, range_to_replace)) =~= no_completion());
        loop
            invariant
                forall|bytes: &[u8]| #[trigger] call_requires(decode, (bytes,)),
                forall|model: spec_fn(Seq<u8>) -> Option<ResponseView>| #[trigger]
                    decodes_as(decode, model) ==> stream_outcome(data@, model) == stream_from(
                        buffer@,
                        completion_view((text, binding_id, range_to_replace)),
                        model,
                    ),
            decreases buffer@.len(),
        {
            let (flags, payload, rest) = match split_frame(buffer) {
                Some(frame) => frame,
                None => {
                    return Ok((text, binding_id, range_to_replace));
                },
            };
            let bytes = match open_payload(flags, payload) {
                Ok(bytes) => bytes,
                Err(error) => {
                    return Err(error);
                },
            };
            let end_marker: bool = flags & END_OF_STREAM_FLAG != 0;
            buffer = rest;
            match decode(bytes.as_slice()) {
                Some(reply) => {
                    let done: bool = match reply.done_stream {
                        Some(done) => done,
                        None => false,
                    };
                    absorb(&mut text, &mut binding_id, &mut range_to_replace, reply);
                    if done || end_marker {
                        return Ok((text, binding_id, range_to_replace));
                    }
                },
                None => {},
            }
        }
    }
}

} // verus!
