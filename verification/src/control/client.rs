//! The client's side of the control socket: which frame goes to whom.
//!
//! Frames are lines of JSON. A frame with a method and no id is a notification
//! of a stream, and names the request that opened the stream in `params.id`;
//! any other object is the answer to a request.

use std::collections::HashMap;

use vstd::prelude::*;

use crate::control::method::NOTIFICATION_SUBSCRIPTION_CLOSED;
use crate::control::types::DaemonLogsRequest;
use crate::json::{
    find_member, into_members, json_content, json_document, json_members, make_value, member,
    new_members, open_value, parse_json, put_member, JsonContent, JsonParts, JsonRef,
};
use crate::text::{
    chars_of, decimal, is_digit, push_decimal, same_text, trim, trimmed_text,
};

verus! {

broadcast use vstd::std_specs::hash::group_hash_axioms;

// ---------------------------------------------------------------------
// Request ids
// ---------------------------------------------------------------------

/// The number that decimal digits stand for.
pub open spec fn digits_value(s: Seq<char>) -> nat
    decreases s.len(),
{
    if s.len() == 0 {
        0
    } else {
        (digits_value(s.drop_last()) * 10 + (s.last() as u32 - '0' as u32)) as nat
    }
}

/// Whether a text is one or more digits.
pub open spec fn is_digits(s: Seq<char>) -> bool {
    s.len() > 0 && forall|i: int| 0 <= i < s.len() ==> is_digit(#[trigger] s[i])
}

/// A text without a plus sign at its start.
pub open spec fn without_plus(s: Seq<char>) -> Seq<char> {
    if s.len() > 0 && s[0] == '+' {
        s.skip(1)
    } else {
        s
    }
}

/// The number in a text: digits, behind at most one plus sign, whose value
/// fits.
pub open spec fn number_in(s: Seq<char>) -> Option<u64> {
    let digits = without_plus(s);
    if is_digits(digits) && digits_value(digits) <= u64::MAX {
        Some(digits_value(digits) as u64)
    } else {
        None
    }
}

proof fn lemma_digits_value_grows(s: Seq<char>, k: int)
    requires
        0 <= k <= s.len(),
        forall|i: int| 0 <= i < s.len() ==> is_digit(#[trigger] s[i]),
    ensures
        digits_value(s.take(k)) <= digits_value(s),
    decreases s.len() - k,
{
    if k < s.len() {
        let next = s.take(k + 1);
        assert(next.drop_last() =~= s.take(k));
        assert(is_digit(s[k]));
        lemma_digits_value_grows(s, k + 1);
    } else {
        assert(s.take(k) =~= s);
    }
}

fn parse_number(text: &str) -> (r: Option<u64>)
    ensures
        r == number_in(text@),
{
    let chars = chars_of(text);
    let start: usize = if chars.len() > 0 && chars[0] == '+' {
        1
    } else {
        0
    };
    let ghost digits = without_plus(text@);
    if start == chars.len() {
        return None;
    }
    let mut total: u64 = 0;
    let mut i: usize = start;
    while i < chars.len()
        invariant
            start <= i <= chars@.len(),
            start <= 1,
            digits == chars@.skip(start as int),
            digits == without_plus(text@),
            forall|j: int| 0 <= j < i - start ==> is_digit(#[trigger] digits[j]),
            total == digits_value(digits.take(i - start)),
        decreases chars@.len() - i,
    {
        let c = chars[i];
        proof {
            assert(digits[i - start] == chars@[i as int]);
            assert(digits.take(i - start + 1).drop_last() =~= digits.take(i - start));
        }
        if !('0' <= c && c <= '9') {
            proof {
                assert(!is_digit(digits[i - start]));
            }
            return None;
        }
        let d: u64 = (c as u32 - '0' as u32) as u64;
        if total > (u64::MAX - d) / 10 {
            proof {
                assert(total * 10 + d > u64::MAX);
                assert(digits_value(digits.take(i - start + 1)) > u64::MAX);
                if is_digits(digits) {
                    lemma_digits_value_grows(digits, i - start + 1);
                }
            }
            return None;
        }
        total = total * 10 + d;
        i += 1;
    }
    proof {
        assert(digits.take(i - start) =~= digits);
    }
    Some(total)
}

/// The request id in a JSON value: a number, or a string with a number.
pub open spec fn id_in(value: serde_json::Value) -> Option<u64> {
    match json_content(value) {
        JsonContent::Number(number) => number,
        JsonContent::Text(text) => number_in(text),
        _ => None,
    }
}

/// The request id in a JSON value: a number, or a string with a number.
pub fn value_as_u64(value: &serde_json::Value) -> (r: Option<u64>)
    ensures
        r == id_in(*value),
{
    match open_value(value) {
        JsonRef::Number(number) => number,
        JsonRef::Text(text) => parse_number(text),
        _ => None,
    }
}

// ---------------------------------------------------------------------
// Frames that come in
// ---------------------------------------------------------------------

/// What a frame is for.
#[derive(Debug)]
pub enum Frame {
    /// Nobody.
    Skip,
    /// The stream of this request has ended.
    Closed { request: u64 },
    /// An event of the stream of this request.
    Event { request: u64, data: serde_json::Value },
    /// An answer, as it came.
    Answer { frame: serde_json::Value },
}

/// Whether an object is a notification: it has a method, and its id is missing
/// or null.
pub open spec fn is_notification(members: Map<Seq<char>, serde_json::Value>) -> bool {
    members.contains_key("method"@) && (member(members, "id"@) is None || json_content(
        members["id"@],
    ) is Null)
}

/// The members of the parameters of a notification, where they are an object.
pub open spec fn params_of(
    members: Map<Seq<char>, serde_json::Value>,
) -> Option<Map<Seq<char>, serde_json::Value>> {
    match member(members, "params"@) {
        Some(params) => match json_content(params) {
            JsonContent::Object(inner) => Some(inner),
            _ => None,
        },
        None => None,
    }
}

/// The request whose stream a notification belongs to.
pub open spec fn stream_of(members: Map<Seq<char>, serde_json::Value>) -> Option<u64> {
    match params_of(members) {
        Some(params) => match member(params, "id"@) {
            Some(id) => id_in(id),
            None => None,
        },
        None => None,
    }
}

/// Whether a notification says that a stream has ended.
pub open spec fn ends_stream(members: Map<Seq<char>, serde_json::Value>) -> bool {
    json_content(members["method"@]) == JsonContent::Text(NOTIFICATION_SUBSCRIPTION_CLOSED@)
}

/// Whether a value is the data of a notification: null where there is none.
pub open spec fn is_data(
    data: serde_json::Value,
    params: Map<Seq<char>, serde_json::Value>,
) -> bool {
    match member(params, "data"@) {
        Some(value) => data == value,
        None => json_content(data) is Null,
    }
}

/// Whether a frame is what a notification is for.
pub open spec fn is_notice(frame: Frame, members: Map<Seq<char>, serde_json::Value>) -> bool {
    match stream_of(members) {
        None => frame is Skip,
        Some(request) => if ends_stream(members) {
            frame == (Frame::Closed { request })
        } else {
            frame is Event && frame->Event_request == request && is_data(
                frame->data,
                params_of(members)->0,
            )
        },
    }
}

/// Whether a frame is what a JSON value is for.
pub open spec fn is_frame(frame: Frame, value: serde_json::Value) -> bool {
    match json_content(value) {
        JsonContent::Object(members) => if is_notification(members) {
            is_notice(frame, members)
        } else {
            frame == (Frame::Answer { frame: value })
        },
        _ => frame is Skip,
    }
}

/// Whether a frame is what a line is for. Lines that are blank or no JSON are
/// for nobody.
pub open spec fn is_frame_of_line(frame: Frame, line: Seq<char>) -> bool {
    if trim(line).len() == 0 {
        frame is Skip
    } else {
        match json_document(trim(line)) {
            Some(value) => is_frame(frame, value),
            None => frame is Skip,
        }
    }
}

fn read_notice(map: &serde_json::Map<String, serde_json::Value>) -> (r: Frame)
    requires
        is_notification(json_members(*map)),
    ensures
        is_notice(r, json_members(*map)),
{
    let params = match find_member(map, "params") {
        Some(value) => match open_value(value) {
            JsonRef::Object(params) => params,
            _ => {
                return Frame::Skip;
            },
        },
        None => {
            return Frame::Skip;
        },
    };
    let request = match find_member(params, "id") {
        Some(id) => match value_as_u64(id) {
            Some(request) => request,
            None => {
                return Frame::Skip;
            },
        },
        None => {
            return Frame::Skip;
        },
    };
    let ended = match find_member(map, "method") {
        Some(method) => match open_value(method) {
            JsonRef::Text(text) => same_text(text, NOTIFICATION_SUBSCRIPTION_CLOSED),
            _ => false,
        },
        None => false,
    };
    if ended {
        return Frame::Closed { request };
    }
    let data = match find_member(params, "data") {
        Some(data) => data.clone(),
        None => make_value(JsonParts::Null),
    };
    Frame::Event { request, data }
}

/// What a frame, read as a JSON value, is for.
pub fn sort_frame(value: serde_json::Value) -> (r: Frame)
    ensures
        is_frame(r, value),
{
    if let JsonRef::Object(map) = open_value(&value) {
        let unnumbered = match find_member(map, "id") {
            Some(id) => match open_value(id) {
                JsonRef::Null => true,
                _ => false,
            },
            None => true,
        };
        if find_member(map, "method").is_some() && unnumbered {
            return read_notice(map);
        }
    } else {
        return Frame::Skip;
    }
    Frame::Answer { frame: value }
}

/// What a line of the socket is for.
pub fn read_frame(line: &str) -> (r: Frame)
    ensures
        is_frame_of_line(r, line@),
{
    let text = trimmed_text(line);
    if text.as_str().is_empty() {
        return Frame::Skip;
    }
    match parse_json(text.as_str()) {
        Some(value) => sort_frame(value),
        None => Frame::Skip,
    }
}

// ---------------------------------------------------------------------
// Who waits for what
// ---------------------------------------------------------------------

/// The callers that wait for an answer and the streams that are open, each
/// under the id of its request.
pub struct Routes<R, S> {
    next_id: u64,
    pending: HashMap<u64, R>,
    streams: HashMap<u64, S>,
}

impl<R, S> Routes<R, S> {
    /// The id of the next request.
    pub closed spec fn next(self) -> u64 {
        self.next_id
    }

    /// The callers that wait for an answer.
    pub closed spec fn pending(self) -> Map<u64, R> {
        self.pending@
    }

    /// The streams that are open.
    pub closed spec fn streams(self) -> Map<u64, S> {
        self.streams@
    }

    /// Whether no id in use can be given out again before the ids run out.
    pub open spec fn fresh(self) -> bool {
        &&& forall|id: u64| #[trigger] self.pending().contains_key(id) ==> id < self.next()
        &&& forall|id: u64| #[trigger] self.streams().contains_key(id) ==> id < self.next()
    }

    /// Nobody waits, and no stream is open. The first id is one.
    pub fn new() -> (r: Self)
        ensures
            r.next() == 1,
            r.pending() == Map::<u64, R>::empty(),
            r.streams() == Map::<u64, S>::empty(),
            r.fresh(),
    {
        Routes { next_id: 1, pending: HashMap::new(), streams: HashMap::new() }
    }

    /// Takes up a call, and gives the id of its request. Ids start over after
    /// the last one.
    pub fn call(&mut self, caller: R) -> (r: u64)
        ensures
            r == old(self).next(),
            final(self).next() == if r == u64::MAX {
                0
            } else {
                r + 1
            },
            final(self).pending() == old(self).pending().insert(r, caller),
            final(self).streams() == old(self).streams(),
            old(self).fresh() ==> !old(self).pending().contains_key(r),
            old(self).fresh() && r < u64::MAX ==> final(self).fresh(),
            call_taken_up(*old(self), *final(self), caller, r),
    {
        let id = self.next_id;
        self.next_id = self.next_id.wrapping_add(1);
        self.pending.insert(id, caller);
        id
    }

    /// Takes up a call that opens a stream, and gives the id of its request.
    pub fn open(&mut self, caller: R, stream: S) -> (r: u64)
        ensures
            r == old(self).next(),
            final(self).next() == if r == u64::MAX {
                0
            } else {
                r + 1
            },
            final(self).pending() == old(self).pending().insert(r, caller),
            final(self).streams() == old(self).streams().insert(r, stream),
            old(self).fresh() ==> !old(self).pending().contains_key(r) && !old(
                self,
            ).streams().contains_key(r),
            old(self).fresh() && r < u64::MAX ==> final(self).fresh(),
            stream_opened(*old(self), *final(self), caller, stream, r),
    {
        let id = self.call(caller);
        self.streams.insert(id, stream);
        id
    }

    /// Gives the caller that waits for the answer to a request, who then waits
    /// no more. Also for a request that could not be sent.
    pub fn answer(&mut self, id: u64) -> (r: Option<R>)
        ensures
            r == if old(self).pending().contains_key(id) {
                Some(old(self).pending()[id])
            } else {
                None
            },
            final(self).next() == old(self).next(),
            final(self).pending() == old(self).pending().remove(id),
            final(self).streams() == old(self).streams(),
            old(self).fresh() ==> final(self).fresh(),
            call_answered(*old(self), *final(self), id, r),
    {
        let r = self.pending.remove(&id);
        proof {
            assert(self.pending@ =~= old(self).pending@.remove(id));
        }
        r
    }

    /// Closes a stream.
    pub fn close(&mut self, id: u64) -> (r: Option<S>)
        ensures
            r == if old(self).streams().contains_key(id) {
                Some(old(self).streams()[id])
            } else {
                None
            },
            final(self).next() == old(self).next(),
            final(self).pending() == old(self).pending(),
            final(self).streams() == old(self).streams().remove(id),
            old(self).fresh() ==> final(self).fresh(),
            stream_closed(*old(self), *final(self), id, r),
    {
        let r = self.streams.remove(&id);
        proof {
            assert(self.streams@ =~= old(self).streams@.remove(id));
        }
        r
    }

    /// The stream of a request, where it is open.
    pub fn stream(&self, id: u64) -> (r: Option<&S>)
        ensures
            match r {
                Some(stream) => self.streams().contains_key(id) && self.streams()[id] == *stream,
                None => !self.streams().contains_key(id),
            },
    {
        self.streams.get(&id)
    }

    /// Lets everybody go, as when the socket closes.
    pub fn drain(&mut self)
        ensures
            final(self).next() == old(self).next(),
            final(self).pending() == Map::<u64, R>::empty(),
            final(self).streams() == Map::<u64, S>::empty(),
            final(self).fresh(),
    {
        self.pending.clear();
        self.streams.clear();
    }
}

// ---------------------------------------------------------------------
// Frames that go out
// ---------------------------------------------------------------------

/// Whether a JSON value is the request with this id, method and parameters.
pub open spec fn is_request(
    value: serde_json::Value,
    id: u64,
    method: Seq<char>,
    params: serde_json::Value,
) -> bool {
    let members = json_content(value)->Object_0;
    &&& json_content(value) is Object
    &&& members.dom() == set!["jsonrpc"@, "id"@, "method"@, "params"@]
    &&& json_content(members["jsonrpc"@]) == JsonContent::Text("2.0"@)
    &&& json_content(members["id"@]) == JsonContent::Number(Some(id))
    &&& json_content(members["method"@]) == JsonContent::Text(method)
    &&& members["params"@] == params
}

/// Whether a JSON value is the notification that a stream is no longer wanted.
pub open spec fn is_cancellation(value: serde_json::Value, id: u64) -> bool {
    let members = json_content(value)->Object_0;
    let params = json_content(members["params"@])->Object_0;
    &&& json_content(value) is Object
    &&& members.dom() == set!["jsonrpc"@, "method"@, "params"@]
    &&& json_content(members["jsonrpc"@]) == JsonContent::Text("2.0"@)
    &&& json_content(members["method"@]) == JsonContent::Text("$/cancelRequest"@)
    &&& json_content(members["params"@]) is Object
    &&& params.dom() == set!["id"@]
    &&& json_content(params["id"@]) == JsonContent::Number(Some(id))
}

proof fn lemma_envelope_keys()
    ensures
        "jsonrpc"@ != "id"@,
        "jsonrpc"@ != "method"@,
        "jsonrpc"@ != "params"@,
        "id"@ != "method"@,
        "id"@ != "params"@,
        "method"@ != "params"@,
{
    reveal_strlit("jsonrpc");
    reveal_strlit("id");
    reveal_strlit("method");
    reveal_strlit("params");
    assert("jsonrpc"@.len() == 7 && "id"@.len() == 2);
    assert("method"@[0] == 'm' && "params"@[0] == 'p');
    assert("method"@.len() == 6 && "params"@.len() == 6);
}

/// The request with this id, method and parameters.
pub fn request_frame(id: u64, method: &str, params: serde_json::Value) -> (r: serde_json::Value)
    ensures
        is_request(r, id, method@, params),
{
    let mut members = new_members();
    put_member(
        &mut members,
        "jsonrpc".to_owned(),
        make_value(JsonParts::Text("2.0".to_owned())),
    );
    put_member(&mut members, "id".to_owned(), make_value(JsonParts::Number(id)));
    put_member(
        &mut members,
        "method".to_owned(),
        make_value(JsonParts::Text(method.to_owned())),
    );
    put_member(&mut members, "params".to_owned(), params);
    proof {
        lemma_envelope_keys();
        assert(json_members(members).dom() =~= set!["jsonrpc"@, "id"@, "method"@, "params"@]);
    }
    make_value(JsonParts::Object(members))
}

/// The notification that the stream of a request is no longer wanted.
pub fn cancel_frame(id: u64) -> (r: serde_json::Value)
    ensures
        is_cancellation(r, id),
{
    let mut params = new_members();
    put_member(&mut params, "id".to_owned(), make_value(JsonParts::Number(id)));
    proof {
        assert(json_members(params).dom() =~= set!["id"@]);
    }
    let mut members = new_members();
    put_member(
        &mut members,
        "jsonrpc".to_owned(),
        make_value(JsonParts::Text("2.0".to_owned())),
    );
    put_member(
        &mut members,
        "method".to_owned(),
        make_value(JsonParts::Text("$/cancelRequest".to_owned())),
    );
    put_member(&mut members, "params".to_owned(), make_value(JsonParts::Object(params)));
    proof {
        lemma_envelope_keys();
        assert(json_members(members).dom() =~= set!["jsonrpc"@, "method"@, "params"@]);
    }
    make_value(JsonParts::Object(members))
}

/// Whether parameters are others with a limit: a member `limit` where they are
/// an object, and no change elsewhere.
pub open spec fn is_limited(
    limited: serde_json::Value,
    params: serde_json::Value,
    limit: u64,
) -> bool {
    match json_content(params) {
        JsonContent::Object(members) => {
            let with_limit = json_content(limited)->Object_0;
            &&& json_content(limited) is Object
            &&& with_limit.dom() == members.dom().insert("limit"@)
            &&& json_content(with_limit["limit"@]) == JsonContent::Number(Some(limit))
            &&& forall|key: Seq<char>| #[trigger]
                members.contains_key(key) && key != "limit"@ ==> with_limit[key] == members[key]
        },
        _ => limited == params,
    }
}

/// Parameters of a request for log entries, with a limit on their number.
pub fn with_limit(params: serde_json::Value, limit: u64) -> (r: serde_json::Value)
    ensures
        is_limited(r, params, limit),
{
    match into_members(params) {
        Ok(members) => {
            let mut members = members;
            put_member(&mut members, "limit".to_owned(), make_value(JsonParts::Number(limit)));
            proof {
                assert(json_members(members).dom() =~= json_content(
                    params,
                )->Object_0.dom().insert("limit"@));
            }
            make_value(JsonParts::Object(members))
        },
        Err(other) => other,
    }
}

/// A request for log entries that goes on with those to come.
pub fn following(request: DaemonLogsRequest) -> (r: DaemonLogsRequest)
    ensures
        r == (DaemonLogsRequest { follow: true, ..request }),
{
    let mut request = request;
    request.follow = true;
    request
}

// ---------------------------------------------------------------------
// Answers
// ---------------------------------------------------------------------

/// An error in an answer.
#[derive(Debug, Clone)]
pub struct AnswerError {
    /// Code.
    pub code: i32,
    /// What went wrong.
    pub message: String,
}

/// A number with its sign, in decimal.
pub open spec fn signed(n: i32) -> Seq<char> {
    if n < 0 {
        "-"@ + decimal(-n as nat)
    } else {
        decimal(n as nat)
    }
}

/// What a failed call reports.
pub open spec fn failure_text(method: Seq<char>, error: AnswerError) -> Seq<char> {
    method + " failed (code "@ + signed(error.code) + "): "@ + error.message@
}

/// What a failed call reports.
pub fn failure(method: &str, error: &AnswerError) -> (r: String)
    ensures
        r@ == failure_text(method@, *error),
{
    let mut out = method.to_owned();
    out.append(" failed (code ");
    if error.code < 0 {
        out.append("-");
        push_decimal(&mut out, (-(error.code as i128)) as u128);
    } else {
        push_decimal(&mut out, error.code as u128);
    }
    out.append("): ");
    out.append(error.message.as_str());
    proof {
        assert(out@ =~= failure_text(method@, *error));
    }
    out
}

/// The result in an answer. An error in it comes first; an answer with neither
/// is one, too.
pub fn result_of(
    method: &str,
    error: Option<AnswerError>,
    result: Option<serde_json::Value>,
) -> (r: Result<serde_json::Value, String>)
    ensures
        r is Ok <==> error is None && result is Some,
        r is Ok ==> Some(r->Ok_0) == result,
        error is Some ==> r->Err_0@ == failure_text(method@, error->0),
        error is None && result is None ==> r->Err_0@ == method@ + ": response missing result"@,
        is_result_of(r, method@, error, result),
{
    if let Some(error) = error {
        return Err(failure(method, &error));
    }
    match result {
        Some(value) => Ok(value),
        None => {
            let mut out = method.to_owned();
            out.append(": response missing result");
            Err(out)
        },
    }
}

// ---------------------------------------------------------------------
// Laws
// ---------------------------------------------------------------------

/// An object under an id is never taken for a notification, whatever method it
/// has, and the id is read from it as it was written.
pub proof fn numbered_frames_are_no_notifications(
    value: serde_json::Value,
    id: u64,
    method: Seq<char>,
    params: serde_json::Value,
    frame: Frame,
)
    requires
        is_request(value, id, method, params),
        is_frame(frame, value),
    ensures
        frame == (Frame::Answer { frame: value }),
        id_in(json_content(value)->Object_0["id"@]) == Some(id),
{
}

/// A notification without a request in it is for nobody.
pub proof fn notices_without_request_are_skipped(
    value: serde_json::Value,
    members: Map<Seq<char>, serde_json::Value>,
    frame: Frame,
)
    requires
        json_content(value) == JsonContent::Object(members),
        is_notification(members),
        stream_of(members) is None,
        is_frame(frame, value),
    ensures
        frame is Skip,
{
}

/// A cancellation is no event of the stream that it cancels: it carries the
/// request's id, and nothing else.
pub proof fn cancellations_name_their_request(value: serde_json::Value, id: u64)
    requires
        is_cancellation(value, id),
    ensures
        is_notification(json_content(value)->Object_0),
        stream_of(json_content(value)->Object_0) == Some(id),
        !ends_stream(json_content(value)->Object_0),
{
    lemma_envelope_keys();
    reveal_strlit("$/cancelRequest");
    reveal_strlit("subscription/closed");
    assert("$/cancelRequest"@[0] == '$' && "subscription/closed"@[0] == 's');
    let members = json_content(value)->Object_0;
    assert(members.contains_key("method"@));
    assert(!members.contains_key("id"@));
    assert(members.contains_key("params"@));
    assert(json_content(members["params"@])->Object_0.contains_key("id"@));
}

/// Whether a call was taken up under an id.
pub open spec fn call_taken_up<R, S>(
    before: Routes<R, S>,
    after: Routes<R, S>,
    caller: R,
    id: u64,
) -> bool {
    &&& id == before.next()
    &&& after.next() == if id == u64::MAX {
        0
    } else {
        id + 1
    }
    &&& after.pending() == before.pending().insert(id, caller)
    &&& after.streams() == before.streams()
}

/// Whether a call that opens a stream was taken up under an id.
pub open spec fn stream_opened<R, S>(
    before: Routes<R, S>,
    after: Routes<R, S>,
    caller: R,
    stream: S,
    id: u64,
) -> bool {
    &&& id == before.next()
    &&& after.next() == if id == u64::MAX {
        0
    } else {
        id + 1
    }
    &&& after.pending() == before.pending().insert(id, caller)
    &&& after.streams() == before.streams().insert(id, stream)
}

/// Whether `r` is the caller that waited under an id and waits no more.
pub open spec fn call_answered<R, S>(
    before: Routes<R, S>,
    after: Routes<R, S>,
    id: u64,
    r: Option<R>,
) -> bool {
    &&& r == if before.pending().contains_key(id) {
        Some(before.pending()[id])
    } else {
        None
    }
    &&& after.next() == before.next()
    &&& after.pending() == before.pending().remove(id)
    &&& after.streams() == before.streams()
}

/// Whether `r` is the stream that was open under an id and is open no more.
pub open spec fn stream_closed<R, S>(
    before: Routes<R, S>,
    after: Routes<R, S>,
    id: u64,
    r: Option<S>,
) -> bool {
    &&& r == if before.streams().contains_key(id) {
        Some(before.streams()[id])
    } else {
        None
    }
    &&& after.next() == before.next()
    &&& after.pending() == before.pending()
    &&& after.streams() == before.streams().remove(id)
}

/// Whether `r` is the result in an answer.
pub open spec fn is_result_of(
    r: Result<serde_json::Value, String>,
    method: Seq<char>,
    error: Option<AnswerError>,
    result: Option<serde_json::Value>,
) -> bool {
    match (error, result) {
        (Some(e), _) => r is Err && r->Err_0@ == failure_text(method, e),
        (None, Some(value)) => r == Ok::<serde_json::Value, String>(value),
        (None, None) => r is Err && r->Err_0@ == method + ": response missing result"@,
    }
}

/// A caller gets the answer to its own call, once: whoever was taken up under an id
/// is found under it, and not again. Other callers keep waiting, and streams stay
/// open.
pub proof fn calls_are_answered_once<R, S>(
    a: Routes<R, S>,
    b: Routes<R, S>,
    c: Routes<R, S>,
    d: Routes<R, S>,
    caller: R,
    id: u64,
    first: Option<R>,
    second: Option<R>,
    other: u64,
)
    requires
        call_taken_up(a, b, caller, id),
        call_answered(b, c, id, first),
        call_answered(c, d, id, second),
    ensures
        first == Some(caller),
        second is None,
        other != id && a.pending().contains_key(other) ==> d.pending().contains_key(other)
            && d.pending()[other] == a.pending()[other],
        other != id && !a.pending().contains_key(other) ==> !d.pending().contains_key(other),
        d.streams() == a.streams(),
{
}

/// A stream is open from its call until it is closed, once; closing it leaves the
/// others open and the callers waiting.
pub proof fn streams_are_closed_once<R, S>(
    a: Routes<R, S>,
    b: Routes<R, S>,
    c: Routes<R, S>,
    d: Routes<R, S>,
    caller: R,
    stream: S,
    id: u64,
    first: Option<S>,
    second: Option<S>,
    other: u64,
)
    requires
        stream_opened(a, b, caller, stream, id),
        stream_closed(b, c, id, first),
        stream_closed(c, d, id, second),
    ensures
        b.streams().contains_key(id) && b.streams()[id] == stream,
        b.pending().contains_key(id) && b.pending()[id] == caller,
        first == Some(stream),
        second is None,
        other != id && a.streams().contains_key(other) ==> d.streams().contains_key(other)
            && d.streams()[other] == a.streams()[other],
        d.pending().contains_key(id) && d.pending()[id] == caller,
{
}

/// Two calls in a row have two ids.
pub proof fn calls_have_ids_of_their_own<R, S>(
    a: Routes<R, S>,
    b: Routes<R, S>,
    c: Routes<R, S>,
    first: R,
    second: R,
    one: u64,
    two: u64,
)
    requires
        call_taken_up(a, b, first, one),
        call_taken_up(b, c, second, two),
    ensures
        one != two,
        one < u64::MAX ==> two == one + 1,
        c.pending().contains_key(one) && c.pending()[one] == first,
        c.pending().contains_key(two) && c.pending()[two] == second,
{
}

proof fn lemma_digits_are_decimal(s: Seq<char>)
    requires
        forall|i: int| 0 <= i < s.len() ==> '0' <= #[trigger] s[i] <= '9',
    ensures
        digits_value(s) == crate::text::number_of(s),
    decreases s.len(),
{
    if s.len() > 0 {
        let front = s.drop_last();
        assert forall|i: int| 0 <= i < front.len() implies '0' <= #[trigger] front[i] <= '9' by {
            assert(front[i] == s[i]);
        }
        lemma_digits_are_decimal(front);
        assert(s.last() == s[s.len() - 1]);
    }
}

/// The id of a request is read back as a number, and as the number's digits in a
/// string, with or without a plus sign. A string with any other character in it, an
/// empty one, and other values hold no id.
pub proof fn request_ids_are_read(value: serde_json::Value, id: u64, text: Seq<char>, k: int)
    ensures
        json_content(value) == JsonContent::Number(Some(id)) ==> id_in(value) == Some(id),
        json_content(value) == JsonContent::Text(decimal(id as nat)) ==> id_in(value) == Some(id),
        json_content(value) == JsonContent::Text(seq!['+'] + decimal(id as nat)) ==> id_in(value)
            == Some(id),
        json_content(value) == JsonContent::Text(text) && text.len() == 0 ==> id_in(value) is None,
        json_content(value) == JsonContent::Text(text) && 0 < k < text.len() && !('0' <= text[k]
            <= '9') ==> id_in(value) is None,
        json_content(value) == JsonContent::Text(text) && text.len() > 0 && !('0' <= text[0] <= '9')
            && text[0] != '+' ==> id_in(value) is None,
        json_content(value) is Null || json_content(value) is Bool || json_content(value) is List
            || json_content(value) is Object ==> id_in(value) is None,
{
    let digits = decimal(id as nat);
    crate::text::decimals_stand_for_their_number(id as nat);
    assert forall|i: int| 0 <= i < digits.len() implies is_digit(#[trigger] digits[i]) by {
        assert('0' <= digits[i] <= '9');
    }
    lemma_digits_are_decimal(digits);
    assert(is_digit(digits[0]));
    assert(without_plus(digits) == digits);
    let signed_digits = seq!['+'] + digits;
    assert(signed_digits.skip(1) =~= digits);
    assert(without_plus(signed_digits) == digits);
    if json_content(value) == JsonContent::Text(text) && 0 < k < text.len() && !('0' <= text[k]
        <= '9') {
        let plain = without_plus(text);
        let at = if text[0] == '+' {
            k - 1
        } else {
            k
        };
        assert(plain[at] == text[k]);
        assert(!is_digit(plain[at]));
    }
    if json_content(value) == JsonContent::Text(text) && text.len() > 0 && !('0' <= text[0] <= '9')
        && text[0] != '+' {
        assert(!is_digit(without_plus(text)[0]));
    }
}

/// Digits in a string are read as the number that they stand for, leading zeros or
/// not, as long as it fits.
pub proof fn digits_are_read_as_their_number(value: serde_json::Value, text: Seq<char>)
    requires
        json_content(value) == JsonContent::Text(text),
        text.len() > 0,
        forall|i: int| 0 <= i < text.len() ==> '0' <= #[trigger] text[i] <= '9',
    ensures
        crate::text::number_of(text) <= u64::MAX ==> (id_in(value) matches Some(id) && id
            == crate::text::number_of(text)),
        crate::text::number_of(text) > u64::MAX ==> id_in(value) is None,
{
    lemma_digits_are_decimal(text);
    assert('0' <= text[0] <= '9');
    assert(without_plus(text) == text);
    assert forall|i: int| 0 <= i < text.len() implies is_digit(#[trigger] text[i]) by {
        assert('0' <= text[i] <= '9');
    }
}

/// A frame goes where it belongs: one with a method and no id, or a null one, to
/// the stream of the request that it names, as its end or as an event with its
/// data; any other object to whoever waits for an answer; and what is no object to
/// nobody.
pub proof fn frames_go_where_they_belong(
    frame: Frame,
    value: serde_json::Value,
    members: Map<Seq<char>, serde_json::Value>,
    params: Map<Seq<char>, serde_json::Value>,
    request: u64,
)
    requires
        is_frame(frame, value),
    ensures
        !(json_content(value) is Object) ==> frame is Skip,
        json_content(value) == JsonContent::Object(members) && !members.contains_key("method"@)
            ==> frame == (Frame::Answer { frame: value }),
        json_content(value) == JsonContent::Object(members) && members.contains_key("id"@) && !(
        json_content(members["id"@]) is Null) ==> frame == (Frame::Answer { frame: value }),
        json_content(value) == JsonContent::Object(members) && members.contains_key("method"@) && !(
        members.contains_key("id"@) && !(json_content(members["id"@]) is Null))
            && members.contains_key("params"@) && json_content(members["params"@])
            == JsonContent::Object(params) && params.contains_key("id"@) && id_in(params["id"@])
            == Some(request) ==> (json_content(members["method"@]) == JsonContent::Text(
            "subscription/closed"@,
        ) ==> frame == (Frame::Closed { request })) && (json_content(members["method"@])
            != JsonContent::Text("subscription/closed"@) ==> frame is Event && frame->Event_request
            == request && (params.contains_key("data"@) ==> frame->data == params["data"@]) && (
        !params.contains_key("data"@) ==> json_content(frame->data) is Null)),
        json_content(value) == JsonContent::Object(members) && members.contains_key("method"@) && !(
        members.contains_key("id"@) && !(json_content(members["id"@]) is Null)) && (
        !members.contains_key("params"@) || !(json_content(members["params"@]) is Object))
            ==> frame is Skip,
{
}

/// A line is read without the white space around it; a blank line, and one that is
/// no JSON, are for nobody.
pub proof fn lines_are_read_as_frames(frame: Frame, line: Seq<char>, value: serde_json::Value)
    requires
        is_frame_of_line(frame, line),
    ensures
        trim(line).len() == 0 ==> frame is Skip,
        trim(line).len() > 0 && json_document(trim(line)) is None ==> frame is Skip,
        trim(line).len() > 0 && json_document(trim(line)) == Some(value) ==> is_frame(frame, value),
{
}

/// A request holds the version of the protocol, its id, its method and its
/// parameters as they were given.
pub proof fn requests_hold_what_was_asked(
    value: serde_json::Value,
    id: u64,
    method: Seq<char>,
    params: serde_json::Value,
)
    requires
        is_request(value, id, method, params),
    ensures
        json_content(value) is Object,
        ({
            let members = json_content(value)->Object_0;
            &&& members.contains_key("jsonrpc"@) && json_content(members["jsonrpc"@])
                == JsonContent::Text("2.0"@)
            &&& members.contains_key("id"@) && json_content(members["id"@]) == JsonContent::Number(
                Some(id),
            )
            &&& members.contains_key("method"@) && json_content(members["method"@])
                == JsonContent::Text(method)
            &&& members.contains_key("params"@) && members["params"@] == params
        }),
{
    let keys = set!["jsonrpc"@, "id"@, "method"@, "params"@];
    assert(keys.contains("jsonrpc"@) && keys.contains("id"@) && keys.contains("method"@)
        && keys.contains("params"@));
    assert(json_content(value)->Object_0.dom() == keys);
}

/// A limit is put into parameters that are an object, and everything else in them
/// stays; other parameters stay as they are.
pub proof fn limits_are_put_into_objects(
    limited: serde_json::Value,
    params: serde_json::Value,
    limit: u64,
    k: Seq<char>,
)
    requires
        is_limited(limited, params, limit),
    ensures
        !(json_content(params) is Object) ==> limited == params,
        json_content(params) is Object ==> json_content(limited) is Object && json_content(
            limited,
        )->Object_0.contains_key("limit"@) && json_content(
            json_content(limited)->Object_0["limit"@],
        ) == JsonContent::Number(Some(limit)) && (k != "limit"@ ==> (json_content(
            limited,
        )->Object_0.contains_key(k) <==> json_content(params)->Object_0.contains_key(k))) && (k
            != "limit"@ && json_content(params)->Object_0.contains_key(k) ==> json_content(
            limited,
        )->Object_0[k] == json_content(params)->Object_0[k]),
{
    if json_content(params) is Object {
        let members = json_content(params)->Object_0;
        let with_limit = json_content(limited)->Object_0;
        assert(with_limit.dom() == members.dom().insert("limit"@));
        assert(with_limit.dom().contains("limit"@));
        assert(k != "limit"@ ==> (with_limit.dom().contains(k) <==> members.dom().contains(k)));
    }
}

/// The result of a call is what the answer holds, unless it holds an error or
/// nothing; a failure tells the method, the code and the message.
pub proof fn results_come_from_answers(
    r: Result<serde_json::Value, String>,
    method: Seq<char>,
    error: Option<AnswerError>,
    result: Option<serde_json::Value>,
)
    requires
        is_result_of(r, method, error, result),
    ensures
        r is Ok <==> error is None && result is Some,
        r is Ok ==> r->Ok_0 == result->0,
        error matches Some(e) ==> r->Err_0@ == method + " failed (code "@ + (if e.code < 0 {
            "-"@ + decimal(-e.code as nat)
        } else {
            decimal(e.code as nat)
        }) + "): "@ + e.message@,
        error is None && result is None ==> r->Err_0@ == method + ": response missing result"@,
{
}

} // verus!
