//! The transport's bookkeeping: monotonically increasing request ids, the
//! pending-request table that routes each response to at most one caller,
//! classification of inbound frames, and the exact shape of every outgoing
//! request.

use vstd::prelude::*;
use crate::json::{fields, get_field, take_field, JsonValue};
use crate::text::str_eq;

verus! {

/// The pending calls of one connection: each outstanding request id mapped
/// to whatever the transport will complete it with. Ids are handed out in
/// increasing order and never reused for the connection's lifetime.
pub struct PendingTable<T> {
    next_id: u64,
    entries: Vec<(u64, T)>,
}

impl<T> PendingTable<T> {
    pub closed spec fn spec_next_id(self) -> u64 {
        self.next_id
    }

    pub closed spec fn spec_entries(self) -> Seq<(u64, T)> {
        self.entries@
    }

    /// Every pending id was handed out before `next_id`, and no two pending
    /// entries share an id — so a response completes at most one caller.
    pub open spec fn wf(self) -> bool {
        &&& forall|i: int|
            0 <= i < self.spec_entries().len() ==> (#[trigger] self.spec_entries()[i]).0
                < self.spec_next_id()
        &&& forall|i: int, j: int|
            0 <= i < j < self.spec_entries().len() ==> self.spec_entries()[i].0
                != self.spec_entries()[j].0
    }

    pub open spec fn has_id(self, id: u64) -> bool {
        exists|i: int|
            0 <= i < self.spec_entries().len() && (#[trigger] self.spec_entries()[i]).0 == id
    }

    /// A fresh table; the first request gets id 1.
    pub fn new() -> (r: PendingTable<T>)
        ensures
            r.wf(),
            r.spec_entries().len() == 0,
            r.spec_next_id() == 1,
    {
        PendingTable { next_id: 1, entries: Vec::new() }
    }

    /// How many calls are outstanding.
    pub fn len(&self) -> (r: usize)
        ensures
            r == self.spec_entries().len(),
    {
        self.entries.len()
    }

    /// Registers one outgoing call and hands out its id: the id every
    /// earlier call got is smaller, and no pending entry shares it.
    pub fn allocate(&mut self, completion: T) -> (id: u64)
        requires
            old(self).wf(),
            old(self).spec_next_id() < u64::MAX,
        ensures
            final(self).wf(),
            id == old(self).spec_next_id(),
            final(self).spec_next_id() == id + 1,
            final(self).spec_entries() == old(self).spec_entries().push((id, completion)),
            !old(self).has_id(id),
    {
        let id = self.next_id;
        self.next_id = self.next_id + 1;
        self.entries.push((id, completion));
        proof {
            assert forall|i: int|
                0 <= i < self.spec_entries().len() implies (#[trigger] self.spec_entries()[i]).0
                < self.spec_next_id() by {
                if i < old(self).spec_entries().len() {
                    assert(self.spec_entries()[i] == old(self).spec_entries()[i]);
                }
            }
            assert forall|i: int, j: int|
                0 <= i < j < self.spec_entries().len() implies self.spec_entries()[i].0
                != self.spec_entries()[j].0 by {
                if j < old(self).spec_entries().len() {
                    assert(self.spec_entries()[i] == old(self).spec_entries()[i]);
                    assert(self.spec_entries()[j] == old(self).spec_entries()[j]);
                } else {
                    assert(self.spec_entries()[i] == old(self).spec_entries()[i]);
                    assert(self.spec_entries()[j] == (id, completion));
                }
            }
        }
        id
    }

    /// Removes and returns the completion of the pending call with this id.
    /// Afterwards the id is pending no more, so a second response with the
    /// same id finds nothing to complete.
    pub fn take(&mut self, id: u64) -> (r: Option<T>)
        requires
            old(self).wf(),
        ensures
            final(self).wf(),
            final(self).spec_next_id() == old(self).spec_next_id(),
            match r {
                Some(completion) => {
                    &&& old(self).has_id(id)
                    &&& exists|i: int|
                        0 <= i < old(self).spec_entries().len() && old(self).spec_entries()[i] == (
                        id,
                        completion,
                    )
                    &&& !final(self).has_id(id)
                    &&& final(self).spec_entries().len() == old(self).spec_entries().len() - 1
                    &&& forall|j: int|
                        0 <= j < final(self).spec_entries().len()
                            ==> old(self).spec_entries().contains(
                            #[trigger] final(self).spec_entries()[j],
                        )
                    &&& forall|j: int|
                        0 <= j < old(self).spec_entries().len() && (#[trigger] old(
                            self,
                        ).spec_entries()[j]).0 != id ==> final(self).spec_entries().contains(
                            old(self).spec_entries()[j],
                        )
                },
                None => !old(self).has_id(id) && *final(self) == *old(self),
            },
    {
        let n = self.entries.len();
        let mut i: usize = 0;
        while i < n
            invariant
                n == self.entries@.len(),
                i <= n,
                *self == *old(self),
                old(self).wf(),
                forall|j: int| 0 <= j < i ==> (#[trigger] self.entries@[j]).0 != id,
            decreases n - i,
        {
            if self.entries[i].0 == id {
                proof {
                    assert(old(self).spec_entries()[i as int].0 == id);
                    assert(old(self).has_id(id));
                }
                let (_, completion) = self.entries.remove(i);
                proof {
                    assert(old(self).spec_entries()[i as int] == (id, completion));
                    assert forall|j: int|
                        0 <= j < self.entries@.len() implies old(self).spec_entries().contains(
                        #[trigger] self.entries@[j],
                    ) by {
                        if j < i {
                            assert(self.entries@[j] == old(self).entries@[j]);
                        } else {
                            assert(self.entries@[j] == old(self).entries@[j + 1]);
                        }
                    }
                    assert forall|j: int|
                        0 <= j < old(self).spec_entries().len() && (#[trigger] old(
                            self,
                        ).spec_entries()[j]).0 != id implies self.entries@.contains(
                        old(self).spec_entries()[j],
                    ) by {
                        if j < i {
                            assert(self.entries@[j] == old(self).entries@[j]);
                        } else {
                            assert(j != i);
                            assert(self.entries@[j - 1] == old(self).entries@[j]);
                        }
                    }
                    assert(!self.has_id(id)) by {
                        if self.has_id(id) {
                            let j = choose|j: int|
                                0 <= j < self.entries@.len() && (#[trigger] self.entries@[j]).0
                                    == id;
                            if j < i {
                                assert(old(self).entries@[j].0 == id);
                            } else {
                                assert(old(self).entries@[j + 1].0 == id);
                            }
                        }
                    }
                }
                return Some(completion);
            }
            i += 1;
        }
        None
    }

    /// Empties the table, handing back every outstanding completion — used
    /// when the socket closes and every pending call must fail.
    pub fn drain(&mut self) -> (r: Vec<T>)
        requires
            old(self).wf(),
        ensures
            final(self).wf(),
            final(self).spec_entries().len() == 0,
            final(self).spec_next_id() == old(self).spec_next_id(),
            r@.len() == old(self).spec_entries().len(),
            forall|i: int|
                0 <= i < r@.len() ==> r@[i] == (#[trigger] old(self).spec_entries()[i]).1,
    {
        let mut out: Vec<T> = Vec::new();
        while self.entries.len() > 0
            invariant
                old(self).wf(),
                self.next_id == old(self).next_id,
                out@.len() + self.entries@.len() == old(self).entries@.len(),
                forall|i: int|
                    0 <= i < out@.len() ==> out@[i] == (#[trigger] old(self).entries@[i]).1,
                forall|i: int|
                    0 <= i < self.entries@.len() ==> self.entries@[i] == old(self).entries@[i
                        + out@.len()],
            decreases self.entries@.len(),
        {
            let (_, completion) = self.entries.remove(0);
            out.push(completion);
        }
        out
    }
}

/// Id uniqueness: in a well-formed table every pending id is unique, and a
/// freshly handed-out id differs from every id that was ever pending, since
/// ids only grow.
pub proof fn lemma_ids_unique<T>(t: PendingTable<T>)
    requires
        t.wf(),
    ensures
        forall|i: int, j: int|
            0 <= i < j < t.spec_entries().len() ==> t.spec_entries()[i].0
                != t.spec_entries()[j].0,
        forall|i: int|
            0 <= i < t.spec_entries().len() ==> (#[trigger] t.spec_entries()[i]).0
                < t.spec_next_id(),
{
}

/// A server-pushed event, as the transport hands it to the orchestrator.
pub struct VmEvent {
    pub stream_id: String,
    pub event_kind: String,
    pub isolate_id: Option<String>,
    pub timestamp: i64,
    pub data: JsonValue,
}

/// What one inbound frame means.
pub enum FrameClass {
    /// A response to the pending call with this id.
    Response { id: u64, payload: ResponsePayload },
    /// A `streamNotify` event.
    Event(VmEvent),
    /// A frame the transport ignores.
    Other,
}

/// The useful part of a response: its `result`, its `error`, or — when the
/// peer sent neither — the whole frame.
pub enum ResponsePayload {
    Okay(JsonValue),
    Error(JsonValue),
    Whole(JsonValue),
}

/// A frame is a response exactly when it carries a non-negative integer
/// `id`.
pub open spec fn response_id_of(v: JsonValue) -> Option<u64> {
    match get_field(v, "id"@) {
        Some(JsonValue::Int(n)) => if n >= 0 {
            Some(n as u64)
        } else {
            None
        },
        _ => None,
    }
}

/// A frame is an event exactly when it is no response, names the method
/// `streamNotify`, and carries a `params` object.
pub open spec fn is_event_frame(v: JsonValue) -> bool {
    &&& response_id_of(v) is None
    &&& (match get_field(v, "method"@) {
        Some(JsonValue::Str(s)) => s@ == "streamNotify"@,
        _ => false,
    })
    &&& get_field(v, "params"@) is Some
}

/// The string content of an optional field, empty when absent or not a
/// string.
pub open spec fn str_or_empty(o: Option<JsonValue>) -> Seq<char> {
    match o {
        Some(JsonValue::Str(s)) => s@,
        _ => Seq::empty(),
    }
}

/// The event object of an event frame's params, null when absent.
pub open spec fn event_of(params: JsonValue) -> JsonValue {
    match get_field(params, "event"@) {
        Some(e) => e,
        None => JsonValue::Null,
    }
}

/// What the fields of the delivered event must read, given the frame's
/// params.
pub open spec fn event_matches(ev: VmEvent, params: JsonValue) -> bool {
    &&& ev.stream_id@ == str_or_empty(get_field(params, "streamId"@))
    &&& ev.event_kind@ == str_or_empty(get_field(event_of(params), "kind"@))
    &&& (match get_field(event_of(params), "isolate"@) {
        Some(iso) => match get_field(iso, "id"@) {
            Some(JsonValue::Str(s)) => ev.isolate_id is Some && ev.isolate_id.unwrap()@ == s@,
            _ => ev.isolate_id is None,
        },
        None => ev.isolate_id is None,
    })
    &&& ev.timestamp == (match get_field(event_of(params), "timestamp"@) {
        Some(JsonValue::Int(t)) => t,
        _ => 0,
    })
    &&& ev.data == event_of(params)
}

/// Classifies one inbound frame: a numeric `id` makes it a response routed
/// to that id, carrying the `result`, else the `error`, else the whole
/// frame; a `streamNotify` makes it an event; anything else is ignored.
pub fn classify_frame(v: JsonValue) -> (r: FrameClass)
    ensures
        match r {
            FrameClass::Response { id, payload } => {
                &&& response_id_of(v) == Some(id)
                &&& match payload {
                    ResponsePayload::Okay(res) => get_field(v, "result"@) == Some(res),
                    ResponsePayload::Error(e) => get_field(v, "result"@) is None && get_field(
                        v,
                        "error"@,
                    ) == Some(e),
                    ResponsePayload::Whole(w) => get_field(v, "result"@) is None && get_field(
                        v,
                        "error"@,
                    ) is None && w == v,
                }
            },
            FrameClass::Event(ev) => is_event_frame(v) && event_matches(
                ev,
                get_field(v, "params"@).unwrap(),
            ),
            FrameClass::Other => response_id_of(v) is None && !is_event_frame(v),
        },
{
    let id_opt: Option<u64> = match v.get("id") {
        Some(f) => match f.as_int() {
            Some(n) => if n >= 0 {
                Some(n as u64)
            } else {
                None
            },
            None => None,
        },
        None => None,
    };
    if let Some(id) = id_opt {
        let payload = match take_field(v, "result") {
            Ok(res) => ResponsePayload::Okay(res),
            Err(v2) => match take_field(v2, "error") {
                Ok(e) => ResponsePayload::Error(e),
                Err(v3) => ResponsePayload::Whole(v3),
            },
        };
        return FrameClass::Response { id, payload };
    }
    let is_notify = match v.get("method") {
        Some(m) => match m.as_str() {
            Some(s) => str_eq(s.as_str(), "streamNotify"),
            None => false,
        },
        None => false,
    };
    if is_notify {
        match take_field(v, "params") {
            Ok(params) => {
                let stream_id = match params.get("streamId") {
                    Some(f) => match f.as_str() {
                        Some(s) => s.clone(),
                        None => String::new(),
                    },
                    None => String::new(),
                };
                match take_field(params, "event") {
                    Ok(event) => {
                        let event_kind = match event.get("kind") {
                            Some(f) => match f.as_str() {
                                Some(s) => s.clone(),
                                None => String::new(),
                            },
                            None => String::new(),
                        };
                        let isolate_id = match event.get("isolate") {
                            Some(iso) => match iso.get("id") {
                                Some(f) => match f.as_str() {
                                    Some(s) => Some(s.clone()),
                                    None => None,
                                },
                                None => None,
                            },
                            None => None,
                        };
                        let timestamp = match event.get("timestamp") {
                            Some(f) => match f.as_int() {
                                Some(t) => t,
                                None => 0,
                            },
                            None => 0,
                        };
                        FrameClass::Event(
                            VmEvent { stream_id, event_kind, isolate_id, timestamp, data: event },
                        )
                    },
                    Err(_params_back) => FrameClass::Event(
                        VmEvent {
                            stream_id,
                            event_kind: String::new(),
                            isolate_id: None,
                            timestamp: 0,
                            data: JsonValue::Null,
                        },
                    ),
                }
            },
            Err(_v_back) => FrameClass::Other,
        }
    } else {
        FrameClass::Other
    }
}

/// Whether `v` is the object `{key0: val0, ...}` with exactly these string
/// fields.
pub open spec fn obj_field_is_str(v: JsonValue, i: int, key: Seq<char>, val: Seq<char>) -> bool {
    &&& fields(v)[i].0@ == key
    &&& fields(v)[i].1 matches JsonValue::Str(s) && s@ == val
}

/// Builds one JSON-RPC request frame: protocol tag, method, params, and the
/// transport-chosen id.
pub fn build_request(id: u64, method: &str, params: JsonValue) -> (r: JsonValue)
    requires
        id <= i64::MAX,
    ensures
        r is Obj,
        fields(r).len() == 4,
        obj_field_is_str(r, 0, "jsonrpc"@, "2.0"@),
        obj_field_is_str(r, 1, "method"@, method@),
        fields(r)[2].0@ == "params"@,
        fields(r)[2].1 == params,
        fields(r)[3].0@ == "id"@,
        fields(r)[3].1 == JsonValue::Int(id as i64),
{
    let mut entries: Vec<(String, JsonValue)> = Vec::new();
    entries.push((String::from_str("jsonrpc"), JsonValue::Str(String::from_str("2.0"))));
    entries.push((String::from_str("method"), JsonValue::Str(method.to_owned())));
    entries.push((String::from_str("params"), params));
    entries.push((String::from_str("id"), JsonValue::Int(id as i64)));
    JsonValue::Obj(entries)
}

/// The params of `streamListen`.
pub fn params_stream_listen(stream_id: &str) -> (r: JsonValue)
    ensures
        r is Obj,
        fields(r).len() == 1,
        obj_field_is_str(r, 0, "streamId"@, stream_id@),
{
    let mut entries: Vec<(String, JsonValue)> = Vec::new();
    entries.push((String::from_str("streamId"), JsonValue::Str(stream_id.to_owned())));
    JsonValue::Obj(entries)
}

/// The empty params of `getVM`.
pub fn params_get_vm() -> (r: JsonValue)
    ensures
        r is Obj,
        fields(r).len() == 0,
{
    JsonValue::Obj(Vec::new())
}

/// The params every per-isolate method starts from.
pub fn params_isolate(isolate_id: &str) -> (r: JsonValue)
    ensures
        r is Obj,
        fields(r).len() == 1,
        obj_field_is_str(r, 0, "isolateId"@, isolate_id@),
{
    let mut entries: Vec<(String, JsonValue)> = Vec::new();
    entries.push((String::from_str("isolateId"), JsonValue::Str(isolate_id.to_owned())));
    JsonValue::Obj(entries)
}

/// The params of the inspector's summary-tree fetch.
pub fn params_root_widget_tree(isolate_id: &str, object_group: &str) -> (r: JsonValue)
    ensures
        r is Obj,
        fields(r).len() == 2,
        obj_field_is_str(r, 0, "isolateId"@, isolate_id@),
        obj_field_is_str(r, 1, "objectGroup"@, object_group@),
{
    let mut entries: Vec<(String, JsonValue)> = Vec::new();
    entries.push((String::from_str("isolateId"), JsonValue::Str(isolate_id.to_owned())));
    entries.push((String::from_str("objectGroup"), JsonValue::Str(object_group.to_owned())));
    JsonValue::Obj(entries)
}

/// The params of the inspector's details-subtree fetch.
pub fn params_details_subtree(
    isolate_id: &str,
    object_group: &str,
    object_id: &str,
    subtree_depth: i64,
) -> (r: JsonValue)
    ensures
        r is Obj,
        fields(r).len() == 4,
        obj_field_is_str(r, 0, "isolateId"@, isolate_id@),
        obj_field_is_str(r, 1, "objectGroup"@, object_group@),
        obj_field_is_str(r, 2, "arg"@, object_id@),
        fields(r)[3].0@ == "subtreeDepth"@,
        fields(r)[3].1 == JsonValue::Int(subtree_depth),
{
    let mut entries: Vec<(String, JsonValue)> = Vec::new();
    entries.push((String::from_str("isolateId"), JsonValue::Str(isolate_id.to_owned())));
    entries.push((String::from_str("objectGroup"), JsonValue::Str(object_group.to_owned())));
    entries.push((String::from_str("arg"), JsonValue::Str(object_id.to_owned())));
    entries.push((String::from_str("subtreeDepth"), JsonValue::Int(subtree_depth)));
    JsonValue::Obj(entries)
}

/// The params of a breakpoint set by script URI and 1-based line.
pub fn params_add_breakpoint_with_script_uri(
    isolate_id: &str,
    script_uri: &str,
    line: u64,
) -> (r: JsonValue)
    requires
        line <= i64::MAX,
    ensures
        r is Obj,
        fields(r).len() == 3,
        obj_field_is_str(r, 0, "isolateId"@, isolate_id@),
        obj_field_is_str(r, 1, "scriptUri"@, script_uri@),
        fields(r)[2].0@ == "line"@,
        fields(r)[2].1 == JsonValue::Int(line as i64),
{
    let mut entries: Vec<(String, JsonValue)> = Vec::new();
    entries.push((String::from_str("isolateId"), JsonValue::Str(isolate_id.to_owned())));
    entries.push((String::from_str("scriptUri"), JsonValue::Str(script_uri.to_owned())));
    entries.push((String::from_str("line"), JsonValue::Int(line as i64)));
    JsonValue::Obj(entries)
}

/// The params of a breakpoint set by script id and 1-based line.
pub fn params_add_breakpoint(isolate_id: &str, script_id: &str, line: u64) -> (r: JsonValue)
    requires
        line <= i64::MAX,
    ensures
        r is Obj,
        fields(r).len() == 3,
        obj_field_is_str(r, 0, "isolateId"@, isolate_id@),
        obj_field_is_str(r, 1, "scriptId"@, script_id@),
        fields(r)[2].0@ == "line"@,
        fields(r)[2].1 == JsonValue::Int(line as i64),
{
    let mut entries: Vec<(String, JsonValue)> = Vec::new();
    entries.push((String::from_str("isolateId"), JsonValue::Str(isolate_id.to_owned())));
    entries.push((String::from_str("scriptId"), JsonValue::Str(script_id.to_owned())));
    entries.push((String::from_str("line"), JsonValue::Int(line as i64)));
    JsonValue::Obj(entries)
}

/// The params of `removeBreakpoint`.
pub fn params_remove_breakpoint(isolate_id: &str, breakpoint_id: &str) -> (r: JsonValue)
    ensures
        r is Obj,
        fields(r).len() == 2,
        obj_field_is_str(r, 0, "isolateId"@, isolate_id@),
        obj_field_is_str(r, 1, "breakpointId"@, breakpoint_id@),
{
    let mut entries: Vec<(String, JsonValue)> = Vec::new();
    entries.push((String::from_str("isolateId"), JsonValue::Str(isolate_id.to_owned())));
    entries.push((String::from_str("breakpointId"), JsonValue::Str(breakpoint_id.to_owned())));
    JsonValue::Obj(entries)
}

/// The params of `getObject`.
pub fn params_get_object(isolate_id: &str, object_id: &str) -> (r: JsonValue)
    ensures
        r is Obj,
        fields(r).len() == 2,
        obj_field_is_str(r, 0, "isolateId"@, isolate_id@),
        obj_field_is_str(r, 1, "objectId"@, object_id@),
{
    let mut entries: Vec<(String, JsonValue)> = Vec::new();
    entries.push((String::from_str("isolateId"), JsonValue::Str(isolate_id.to_owned())));
    entries.push((String::from_str("objectId"), JsonValue::Str(object_id.to_owned())));
    JsonValue::Obj(entries)
}

/// The params of `resume`: the isolate, plus the step kind when single-
/// stepping.
pub fn params_resume(isolate_id: &str, step: Option<&str>) -> (r: JsonValue)
    ensures
        r is Obj,
        match step {
            Some(s) => fields(r).len() == 2 && obj_field_is_str(r, 0, "isolateId"@, isolate_id@)
                && obj_field_is_str(r, 1, "step"@, s@),
            None => fields(r).len() == 1 && obj_field_is_str(r, 0, "isolateId"@, isolate_id@),
        },
{
    let mut entries: Vec<(String, JsonValue)> = Vec::new();
    entries.push((String::from_str("isolateId"), JsonValue::Str(isolate_id.to_owned())));
    match step {
        Some(s) => {
            entries.push((String::from_str("step"), JsonValue::Str(s.to_owned())));
        },
        None => {},
    }
    JsonValue::Obj(entries)
}

/// A failed call, as the taxonomy of this library reports it.
pub enum RpcError {
    /// The connection failed or closed before the response arrived.
    Transport { message: String },
    /// The peer's reply was malformed or missed a required field.
    Protocol { message: String },
    /// The peer answered with an error object.
    Remote { code: i64, message: String, data: JsonValue },
}

/// Reads the peer's error object into the `Remote` error: its integer
/// `code` (0 when missing), `message` (empty when missing) and `data` (null
/// when missing).
pub fn decode_rpc_error(e: JsonValue) -> (r: RpcError)
    ensures
        r matches RpcError::Remote { code, message, data } && code == (
        match get_field(e, "code"@) {
            Some(JsonValue::Int(c)) => c,
            _ => 0,
        }) && message@ == str_or_empty(get_field(e, "message"@)) && data == (
        match get_field(e, "data"@) {
            Some(d) => d,
            None => JsonValue::Null,
        }),
{
    let code = match e.get("code") {
        Some(f) => match f.as_int() {
            Some(c) => c,
            None => 0,
        },
        None => 0,
    };
    let message = match e.get("message") {
        Some(f) => match f.as_str() {
            Some(s) => s.clone(),
            None => String::new(),
        },
        None => String::new(),
    };
    let data = match take_field(e, "data") {
        Ok(d) => d,
        Err(_) => JsonValue::Null,
    };
    RpcError::Remote { code, message, data }
}

} // verus!
