//! Typed decoding of the peer's replies: the extension-response unwrapping
//! convention, the inspector tree, the VM and isolate descriptions, the
//! call-stack frame names, and the error objects of failed calls.

use vstd::prelude::*;
use crate::app_state::IsolateRef;
use crate::json::{
    elems, get_field, jheight, lemma_elem_height, lemma_field_height, JsonValue,
};
use crate::node::RemoteDiagnosticsNode;
use crate::text::str_eq;

verus! {

/// The unwrapped form of an extension reply: when the value is tagged
/// `_extensionType` and carries a `result`, the payload sits under that
/// `result`; otherwise the value is its own payload.
pub open spec fn unwrapped(v: JsonValue) -> JsonValue {
    if (match get_field(v, "type"@) {
        Some(t) => t matches JsonValue::Str(s) && s@ == "_extensionType"@,
        None => false,
    }) && get_field(v, "result"@) is Some {
        get_field(v, "result"@).unwrap()
    } else {
        v
    }
}

/// Peels the `_extensionType` wrapping off an extension reply, when there is
/// one.
pub fn unwrap_extension<'a>(v: &'a JsonValue) -> (r: &'a JsonValue)
    ensures
        *r == unwrapped(*v),
{
    let tagged = match v.get("type") {
        Some(t) => match t.as_str() {
            Some(s) => str_eq(s.as_str(), "_extensionType"),
            None => false,
        },
        None => false,
    };
    if tagged {
        match v.get("result") {
            Some(res) => res,
            None => v,
        }
    } else {
        v
    }
}

/// A present string field decodes to its content, an absent one to nothing;
/// any other shape refuses to decode.
pub open spec fn opt_str_field(v: JsonValue, key: Seq<char>) -> Option<Option<String>> {
    match get_field(v, key) {
        None => Some(None),
        Some(JsonValue::Str(s)) => Some(Some(s)),
        Some(_) => None,
    }
}

/// A present boolean field decodes to its content, an absent one to
/// nothing; any other shape refuses to decode.
pub open spec fn opt_bool_field(v: JsonValue, key: Seq<char>) -> Option<Option<bool>> {
    match get_field(v, key) {
        None => Some(None),
        Some(JsonValue::Bool(b)) => Some(Some(b)),
        Some(_) => None,
    }
}

/// Whether `v` decodes as an inspector tree node: an object whose optional
/// text fields are strings, whose `hasChildren` is a boolean, and whose
/// `children` and `properties`, when present, are arrays of decodable
/// nodes.
pub open spec fn node_decodable(v: JsonValue) -> bool
    decreases jheight(v), 1int,
        via node_decodable_decreases
{
    &&& v is Obj
    &&& opt_str_field(v, "description"@) is Some
    &&& opt_str_field(v, "type"@) is Some
    &&& opt_str_field(v, "name"@) is Some
    &&& opt_str_field(v, "style"@) is Some
    &&& opt_bool_field(v, "hasChildren"@) is Some
    &&& opt_str_field(v, "widgetRuntimeType"@) is Some
    &&& opt_str_field(v, "objectId"@) is Some
    &&& opt_str_field(v, "valueId"@) is Some
    &&& node_list_decodable(v, "children"@)
    &&& node_list_decodable(v, "properties"@)
}

/// Whether the field `key` of `v`, when present, is an array of decodable
/// nodes.
pub open spec fn node_list_decodable(v: JsonValue, key: Seq<char>) -> bool
    decreases jheight(v), 0int,
        via node_list_decodable_decreases
{
    match get_field(v, key) {
        None => true,
        Some(c) => c is Arr && v is Obj && (forall|i: int|
            0 <= i < elems(c).len() ==> node_decodable(#[trigger] elems(c)[i])),
    }
}

#[via_fn]
proof fn node_decodable_decreases(v: JsonValue) {
}

#[via_fn]
proof fn node_list_decodable_decreases(v: JsonValue, key: Seq<char>) {
    if v is Obj && get_field(v, key) is Some {
        let c = get_field(v, key).unwrap();
        lemma_field_height(v, key);
        if c is Arr {
            assert forall|i: int| 0 <= i < elems(c).len() implies jheight(#[trigger] elems(c)[i])
                < jheight(v) by {
                lemma_elem_height(c, i);
            }
        }
    }
}

/// Whether `node` is the decoding of `v`.
pub open spec fn node_matches_json(node: RemoteDiagnosticsNode, v: JsonValue) -> bool
    decreases jheight(v), 1int,
        via node_matches_json_decreases
{
    &&& v is Obj
    &&& opt_str_field(v, "description"@) == Some(node.description)
    &&& opt_str_field(v, "type"@) == Some(node.node_type)
    &&& opt_str_field(v, "name"@) == Some(node.name)
    &&& opt_str_field(v, "style"@) == Some(node.style)
    &&& opt_bool_field(v, "hasChildren"@) == Some(node.has_children)
    &&& opt_str_field(v, "widgetRuntimeType"@) == Some(node.widget_runtime_type)
    &&& opt_str_field(v, "objectId"@) == Some(node.object_id)
    &&& opt_str_field(v, "valueId"@) == Some(node.value_id)
    &&& node_list_matches(node.children, v, "children"@)
    &&& node_list_matches(node.properties, v, "properties"@)
}

/// Whether `nodes` is the decoding of the array field `key` of `v`.
pub open spec fn node_list_matches(
    nodes: Option<Vec<RemoteDiagnosticsNode>>,
    v: JsonValue,
    key: Seq<char>,
) -> bool
    decreases jheight(v), 0int,
        via node_list_matches_decreases
{
    match get_field(v, key) {
        None => nodes is None,
        Some(c) => {
            &&& c is Arr
            &&& v is Obj
            &&& nodes is Some
            &&& nodes.unwrap()@.len() == elems(c).len()
            &&& forall|i: int|
                0 <= i < elems(c).len() ==> node_matches_json(
                    nodes.unwrap()@[i],
                    #[trigger] elems(c)[i],
                )
        },
    }
}

#[via_fn]
proof fn node_matches_json_decreases(node: RemoteDiagnosticsNode, v: JsonValue) {
}

#[via_fn]
proof fn node_list_matches_decreases(
    nodes: Option<Vec<RemoteDiagnosticsNode>>,
    v: JsonValue,
    key: Seq<char>,
) {
    if v is Obj && get_field(v, key) is Some {
        let c = get_field(v, key).unwrap();
        lemma_field_height(v, key);
        if c is Arr {
            assert forall|i: int| 0 <= i < elems(c).len() implies jheight(#[trigger] elems(c)[i])
                < jheight(v) by {
                lemma_elem_height(c, i);
            }
        }
    }
}

/// Decodes one optional string field.
fn decode_opt_str(v: &JsonValue, key: &str) -> (r: Option<Option<String>>)
    ensures
        match r {
            Some(f) => opt_str_field(*v, key@) == Some(f),
            None => opt_str_field(*v, key@) is None,
        },
{
    match v.get(key) {
        None => Some(None),
        Some(f) => match f.as_str() {
            Some(s) => Some(Some(s.clone())),
            None => None,
        },
    }
}

/// Decodes one optional boolean field.
fn decode_opt_bool(v: &JsonValue, key: &str) -> (r: Option<Option<bool>>)
    ensures
        match r {
            Some(f) => opt_bool_field(*v, key@) == Some(f),
            None => opt_bool_field(*v, key@) is None,
        },
{
    match v.get(key) {
        None => Some(None),
        Some(f) => match f {
            JsonValue::Bool(b) => Some(Some(*b)),
            _ => None,
        },
    }
}

/// Decodes an inspector tree node from its wire form.
pub fn decode_node(v: &JsonValue) -> (r: Option<RemoteDiagnosticsNode>)
    ensures
        r is Some <==> node_decodable(*v),
        r is Some ==> node_matches_json(r.unwrap(), *v),
    decreases jheight(*v), 2int,
{
    if !matches!(v, JsonValue::Obj(_)) {
        return None;
    }
    let description = match decode_opt_str(v, "description") {
        Some(f) => f,
        None => {
            return None;
        },
    };
    let node_type = match decode_opt_str(v, "type") {
        Some(f) => f,
        None => {
            return None;
        },
    };
    let name = match decode_opt_str(v, "name") {
        Some(f) => f,
        None => {
            return None;
        },
    };
    let style = match decode_opt_str(v, "style") {
        Some(f) => f,
        None => {
            return None;
        },
    };
    let has_children = match decode_opt_bool(v, "hasChildren") {
        Some(f) => f,
        None => {
            return None;
        },
    };
    let widget_runtime_type = match decode_opt_str(v, "widgetRuntimeType") {
        Some(f) => f,
        None => {
            return None;
        },
    };
    let object_id = match decode_opt_str(v, "objectId") {
        Some(f) => f,
        None => {
            return None;
        },
    };
    let value_id = match decode_opt_str(v, "valueId") {
        Some(f) => f,
        None => {
            return None;
        },
    };
    let children = match decode_node_list(v, "children") {
        Some(f) => f,
        None => {
            return None;
        },
    };
    let properties = match decode_node_list(v, "properties") {
        Some(f) => f,
        None => {
            return None;
        },
    };
    Some(
        RemoteDiagnosticsNode {
            description,
            node_type,
            name,
            style,
            has_children,
            children,
            widget_runtime_type,
            object_id,
            value_id,
            properties,
        },
    )
}

/// Decodes the array-of-nodes field `key`, when present.
fn decode_node_list(v: &JsonValue, key: &str) -> (r: Option<Option<Vec<RemoteDiagnosticsNode>>>)
    requires
        *v is Obj,
    ensures
        match r {
            Some(nodes) => node_list_decodable(*v, key@) && node_list_matches(nodes, *v, key@),
            None => !node_list_decodable(*v, key@),
        },
    decreases jheight(*v), 1int,
{
    let field = match v.get(key) {
        None => {
            return Some(None);
        },
        Some(f) => f,
    };
    let arr = match field.as_arr() {
        Some(a) => a,
        None => {
            return None;
        },
    };
    proof {
        lemma_field_height(*v, key@);
    }
    let n = arr.len();
    let mut out: Vec<RemoteDiagnosticsNode> = Vec::new();
    let mut i: usize = 0;
    while i < n
        invariant
            n == arr@.len(),
            i <= n,
            arr@ == elems(get_field(*v, key@).unwrap()),
            get_field(*v, key@) is Some,
            get_field(*v, key@).unwrap() is Arr,
            jheight(get_field(*v, key@).unwrap()) < jheight(*v),
            *v is Obj,
            out@.len() == i,
            forall|j: int|
                0 <= j < i ==> node_decodable(#[trigger] arr@[j]) && node_matches_json(
                    out@[j],
                    arr@[j],
                ),
        decreases n - i,
    {
        proof {
            lemma_elem_height(get_field(*v, key@).unwrap(), i as int);
        }
        match decode_node(&arr[i]) {
            Some(node) => {
                out.push(node);
            },
            None => {
                return None;
            },
        }
        i += 1;
    }
    Some(Some(out))
}

/// Whether `r` is the decoding of an isolate reference `{id, name}`.
pub open spec fn isolate_ref_matches(r: IsolateRef, v: JsonValue) -> bool {
    &&& v is Obj
    &&& get_field(v, "id"@) == Some(JsonValue::Str(r.id))
    &&& get_field(v, "name"@) == Some(JsonValue::Str(r.name))
}

pub open spec fn isolate_ref_decodable(v: JsonValue) -> bool {
    &&& v is Obj
    &&& get_field(v, "id"@) matches Some(JsonValue::Str(_))
    &&& get_field(v, "name"@) matches Some(JsonValue::Str(_))
}

/// Decodes one isolate reference.
pub fn decode_isolate_ref(v: &JsonValue) -> (r: Option<IsolateRef>)
    ensures
        r is Some <==> isolate_ref_decodable(*v),
        r is Some ==> isolate_ref_matches(r.unwrap(), *v),
{
    if !matches!(v, JsonValue::Obj(_)) {
        return None;
    }
    let id = match v.get("id") {
        Some(f) => match f.as_str() {
            Some(s) => s.clone(),
            None => {
                return None;
            },
        },
        None => {
            return None;
        },
    };
    let name = match v.get("name") {
        Some(f) => match f.as_str() {
            Some(s) => s.clone(),
            None => {
                return None;
            },
        },
        None => {
            return None;
        },
    };
    Some(IsolateRef { id, name })
}

/// Whether `refs` is the decoding of the reply to `getVM`: the object's
/// `isolates` array, element by element.
pub open spec fn vm_matches(refs: Seq<IsolateRef>, v: JsonValue) -> bool {
    match get_field(v, "isolates"@) {
        Some(c) => {
            &&& v is Obj
            &&& c is Arr
            &&& refs.len() == elems(c).len()
            &&& forall|i: int|
                0 <= i < elems(c).len() ==> isolate_ref_matches(refs[i], #[trigger] elems(c)[i])
        },
        None => false,
    }
}

/// The reply to `getVM`: the list of live isolates.
pub struct VM {
    pub isolates: Vec<IsolateRef>,
}

/// Decodes the reply to `getVM` into its isolate list.
pub fn decode_vm(v: &JsonValue) -> (r: Option<VM>)
    ensures
        r is Some ==> vm_matches(r.unwrap().isolates@, *v),
        r is None ==> !(exists|refs: Seq<IsolateRef>| vm_matches(refs, *v)),
{
    let arr = match v.get("isolates") {
        Some(f) => match f.as_arr() {
            Some(a) => a,
            None => {
                return None;
            },
        },
        None => {
            return None;
        },
    };
    let n = arr.len();
    let mut out: Vec<IsolateRef> = Vec::new();
    let mut i: usize = 0;
    while i < n
        invariant
            n == arr@.len(),
            i <= n,
            arr@ == elems(get_field(*v, "isolates"@).unwrap()),
            get_field(*v, "isolates"@) is Some,
            get_field(*v, "isolates"@).unwrap() is Arr,
            *v is Obj,
            out@.len() == i,
            forall|j: int| 0 <= j < i ==> isolate_ref_matches(out@[j], #[trigger] arr@[j]),
        decreases n - i,
    {
        match decode_isolate_ref(&arr[i]) {
            Some(iso) => {
                out.push(iso);
            },
            None => {
                proof {
                    assert forall|refs: Seq<IsolateRef>| !vm_matches(refs, *v) by {
                        if vm_matches(refs, *v) {
                            assert(isolate_ref_matches(refs[i as int], elems(
                                get_field(*v, "isolates"@).unwrap(),
                            )[i as int]));
                        }
                    }
                }
                return None;
            },
        }
        i += 1;
    }
    Some(VM { isolates: out })
}

/// Whether `rpcs` is the advertised extension-RPC list of the isolate reply
/// `v` — absent on the wire reads as no list.
pub open spec fn extension_rpcs_match(rpcs: Option<Vec<String>>, v: JsonValue) -> bool {
    match get_field(v, "extensionRPCs"@) {
        None => rpcs is None,
        Some(c) => {
            &&& c is Arr
            &&& rpcs is Some
            &&& rpcs.unwrap()@.len() == elems(c).len()
            &&& forall|i: int|
                0 <= i < elems(c).len() ==> #[trigger] elems(c)[i] == JsonValue::Str(
                    rpcs.unwrap()@[i],
                )
        },
    }
}

/// The full isolate description: its reference plus the advertised
/// extension RPCs.
pub struct Isolate {
    pub id: String,
    pub name: String,
    pub extension_rpcs: Option<Vec<String>>,
}

pub open spec fn isolate_matches(iso: Isolate, v: JsonValue) -> bool {
    &&& isolate_ref_matches(IsolateRef { id: iso.id, name: iso.name }, v)
    &&& extension_rpcs_match(iso.extension_rpcs, v)
}

/// Whether `v` decodes as an isolate: its reference fields are strings, and
/// its `extensionRPCs`, when present, is an array of strings.
pub open spec fn isolate_decodable(v: JsonValue) -> bool {
    &&& isolate_ref_decodable(v)
    &&& match get_field(v, "extensionRPCs"@) {
        None => true,
        Some(c) => c is Arr && forall|i: int| 0 <= i < elems(c).len() ==> elems(c)[i] is Str,
    }
}

/// Decodes the reply to `getIsolate`.
pub fn decode_isolate(v: &JsonValue) -> (r: Option<Isolate>)
    ensures
        r is Some <==> isolate_decodable(*v),
        r is Some ==> isolate_matches(r.unwrap(), *v),
{
    let base = match decode_isolate_ref(v) {
        Some(b) => b,
        None => {
            return None;
        },
    };
    let rpcs: Option<Vec<String>> = match v.get("extensionRPCs") {
        None => None,
        Some(f) => {
            let arr = match f.as_arr() {
                Some(a) => a,
                None => {
                    return None;
                },
            };
            let n = arr.len();
            let mut out: Vec<String> = Vec::new();
            let mut i: usize = 0;
            while i < n
                invariant
                    n == arr@.len(),
                    i <= n,
                    arr@ == elems(get_field(*v, "extensionRPCs"@).unwrap()),
                    get_field(*v, "extensionRPCs"@) is Some,
                    get_field(*v, "extensionRPCs"@).unwrap() is Arr,
                    out@.len() == i,
                    forall|j: int|
                        0 <= j < i ==> #[trigger] arr@[j] == JsonValue::Str(out@[j]),
                decreases n - i,
            {
                match arr[i].as_str() {
                    Some(s) => {
                        out.push(s.clone());
                    },
                    None => {
                        return None;
                    },
                }
                i += 1;
            }
            Some(out)
        },
    };
    Some(Isolate { id: base.id, name: base.name, extension_rpcs: rpcs })
}

/// Whether `names` lists, in order, the `function.name` of every frame of
/// the `getStack` reply that has one.
pub open spec fn frame_name_of(frame: JsonValue) -> Option<Seq<char>> {
    match get_field(frame, "function"@) {
        Some(f) => match get_field(f, "name"@) {
            Some(JsonValue::Str(s)) => Some(s@),
            _ => None,
        },
        None => None,
    }
}

/// The frame names of the frames from index `i` on.
pub open spec fn frame_names_from(frames: Seq<JsonValue>, i: int) -> Seq<Seq<char>>
    decreases frames.len() - i,
{
    if 0 <= i < frames.len() {
        (match frame_name_of(frames[i]) {
            Some(nm) => seq![nm],
            None => Seq::empty(),
        }) + frame_names_from(frames, i + 1)
    } else {
        Seq::empty()
    }
}

/// The frame names read out of a `getStack` reply; a reply without a frame
/// array reads as no frames.
pub open spec fn stack_names_spec(v: JsonValue) -> Seq<Seq<char>> {
    match get_field(v, "frames"@) {
        Some(c) => if c is Arr {
            frame_names_from(elems(c), 0)
        } else {
            Seq::empty()
        },
        None => Seq::empty(),
    }
}

/// Reads the function names of the frames of a `getStack` reply, in order.
pub fn decode_stack_frames(v: &JsonValue) -> (r: Vec<String>)
    ensures
        crate::app_state::views_of(r@) == stack_names_spec(*v),
{
    let mut out: Vec<String> = Vec::new();
    let arr = match v.get("frames") {
        Some(f) => match f.as_arr() {
            Some(a) => a,
            None => {
                proof {
                    assert(crate::app_state::views_of(out@) =~= stack_names_spec(*v));
                }
                return out;
            },
        },
        None => {
            proof {
                assert(crate::app_state::views_of(out@) =~= stack_names_spec(*v));
            }
            return out;
        },
    };
    let n = arr.len();
    let mut i: usize = 0;
    while i < n
        invariant
            n == arr@.len(),
            i <= n,
            arr@ == elems(get_field(*v, "frames"@).unwrap()),
            get_field(*v, "frames"@) is Some,
            get_field(*v, "frames"@).unwrap() is Arr,
            crate::app_state::views_of(out@) + frame_names_from(arr@, i as int)
                =~= frame_names_from(arr@, 0),
        decreases n - i,
    {
        let ghost before = crate::app_state::views_of(out@);
        match arr[i].get("function") {
            Some(f) => match f.get("name") {
                Some(nm) => match nm.as_str() {
                    Some(s) => {
                        out.push(s.clone());
                        proof {
                            assert(crate::app_state::views_of(out@) =~= before + seq![s@]);
                        }
                    },
                    None => {},
                },
                None => {},
            },
            None => {},
        }
        i += 1;
        proof {
            assert(crate::app_state::views_of(out@) + frame_names_from(arr@, i as int)
                =~= frame_names_from(arr@, 0));
        }
    }
    proof {
        assert(crate::app_state::views_of(out@) =~= stack_names_spec(*v));
    }
    out
}

} // verus!
