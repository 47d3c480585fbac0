//! The stream encoder: turns an outgoing message (already serialized
//! by the embedding) plus an optional resumption id into the wire
//! event framing, and produces the keep-alive filler frames. Frames
//! are built whole: the transport never emits a truncated frame.

use vstd::prelude::*;
use vstd::string::StrSliceExecFns;
use vstd::string::StringExecFns;
use crate::text::dec_str;
use crate::text::render_u64;
use crate::text::spec_ends_with;
use crate::text::str_ends_with;

verus! {

/// The wire frame for one event on the bidirectional variant: an
/// `id:` line when a resumption id is present, the `data:` line, and
/// a blank-line terminator.
pub open spec fn event_frame(data: Seq<char>, id: Option<u64>) -> Seq<char> {
    match id {
        Some(n) => "id: "@ + dec_str(n as nat) + "\n"@ + "data: "@ + data + "\n\n"@,
        None => "data: "@ + data + "\n\n"@,
    }
}

/// Keep-alive filler on the bidirectional variant: a comment-only
/// line, never mistakable for an event frame.
pub open spec fn keep_alive_frame_spec() -> Seq<char> {
    ":ping\n\n"@
}

/// The wire frame for one message event on the legacy variant.
pub open spec fn legacy_message_frame(data: Seq<char>) -> Seq<char> {
    "event: message\ndata: "@ + data + "\n\n"@
}

/// Keep-alive filler on the legacy variant.
pub open spec fn legacy_keep_alive_frame_spec() -> Seq<char> {
    ": ping\n\n"@
}

/// The framing line a legacy stream opens with: it announces the
/// companion submission endpoint, parameterized with the session id.
pub open spec fn endpoint_frame(path: Seq<char>, session_id: u64) -> Seq<char> {
    "event: endpoint\ndata: "@ + path + "?sessionId="@ + dec_str(session_id as nat) + "\n\n"@
}

/// Encodes one outgoing event.
pub fn encode_event(data: &str, id: Option<u64>) -> (s: String)
    ensures
        s@ == event_frame(data@, id),
{
    let mut s = String::new();
    match id {
        Some(n) => {
            s.append("id: ");
            let num = render_u64(n);
            s.append(num.as_str());
            s.append("\n");
        },
        None => {},
    }
    s.append("data: ");
    s.append(data);
    s.append("\n\n");
    proof {
        assert(s@ =~= event_frame(data@, id));
    }
    s
}

pub fn keep_alive_frame() -> (s: String)
    ensures
        s@ == keep_alive_frame_spec(),
{
    String::from_str(":ping\n\n")
}

/// Encodes one message event on the legacy variant.
pub fn encode_legacy_message(data: &str) -> (s: String)
    ensures
        s@ == legacy_message_frame(data@),
{
    let mut s = String::from_str("event: message\ndata: ");
    s.append(data);
    s.append("\n\n");
    proof {
        assert(s@ =~= legacy_message_frame(data@));
    }
    s
}

pub fn legacy_keep_alive_frame() -> (s: String)
    ensures
        s@ == legacy_keep_alive_frame_spec(),
{
    String::from_str(": ping\n\n")
}

/// Encodes the endpoint announcement a legacy stream opens with.
pub fn encode_endpoint_event(path: &str, session_id: u64) -> (s: String)
    ensures
        s@ == endpoint_frame(path@, session_id),
{
    let mut s = String::from_str("event: endpoint\ndata: ");
    s.append(path);
    s.append("?sessionId=");
    let num = render_u64(session_id);
    s.append(num.as_str());
    s.append("\n\n");
    proof {
        assert(s@ =~= endpoint_frame(path@, session_id));
    }
    s
}

/// The submission path announced to a legacy client: the request path
/// with the stream endpoint's own suffix replaced by the submission
/// endpoint's path.
pub open spec fn spec_post_endpoint_path(
    current: Seq<char>,
    sse: Seq<char>,
    post: Seq<char>,
) -> Seq<char> {
    if spec_ends_with(current, sse) {
        current.subrange(0, current.len() - sse.len()) + post
    } else {
        current + post
    }
}

pub fn post_endpoint_path(current: &str, sse: &str, post: &str) -> (s: String)
    ensures
        s@ == spec_post_endpoint_path(current@, sse@, post@),
{
    if str_ends_with(current, sse) {
        let clen = current.unicode_len();
        let slen = sse.unicode_len();
        let prefix = current.substring_char(0, clen - slen);
        let mut s = String::from_str(prefix);
        s.append(post);
        s
    } else {
        let mut s = String::from_str(current);
        s.append(post);
        s
    }
}

/// Keep-alive filler is never an event frame, on either variant: the
/// interleave can only add comment lines between events, it cannot
/// forge or displace one.
pub proof fn lemma_keep_alive_distinct(data: Seq<char>, id: Option<u64>)
    ensures
        event_frame(data, id) != keep_alive_frame_spec(),
        legacy_message_frame(data) != legacy_keep_alive_frame_spec(),
{
    reveal_strlit("id: ");
    reveal_strlit("data: ");
    reveal_strlit("\n");
    reveal_strlit("\n\n");
    reveal_strlit(":ping\n\n");
    reveal_strlit("event: message\ndata: ");
    reveal_strlit(": ping\n\n");
    assert(event_frame(data, id)[0] != keep_alive_frame_spec()[0]);
    assert(legacy_message_frame(data)[0] != legacy_keep_alive_frame_spec()[0]);
}

} // verus!
