use vstd::prelude::*;
use crate::json::{
    JsonModel, JsonValue, arr_model, decode_json, decoded, jfield, jstr, ju64, str_eq,
};
use vstd::string::StrSliceExecFns;

verus! {

/// The mathematical shape of one normalized event: the view of
/// [`FrontendEvent`].
pub enum EventModel {
    TextDelta { text: Seq<char> },
    ToolStart { id: Seq<char>, name: Seq<char>, input: JsonModel },
    ToolResult { id: Seq<char>, result: Seq<char> },
    Usage { input_tokens: u64, output_tokens: u64 },
    MessageStop,
    PermissionRequest { tool_id: Seq<char>, tool_name: Seq<char>, input: JsonModel },
    Error { message: Seq<char> },
    ProcessExit { code: i32 },
}

/// One normalized, typed message describing one increment of subprocess
/// output. A `Usage` field of zero means "not reported in this increment".
#[derive(Debug, PartialEq, Eq)]
pub enum FrontendEvent {
    TextDelta { text: String },
    ToolStart { id: String, name: String, input: JsonValue },
    ToolResult { id: String, result: String },
    Usage { input_tokens: u64, output_tokens: u64 },
    MessageStop,
    PermissionRequest { tool_id: String, tool_name: String, input: JsonValue },
    Error { message: String },
    ProcessExit { code: i32 },
}

impl View for FrontendEvent {
    type V = EventModel;

    open spec fn view(&self) -> EventModel {
        match *self {
            FrontendEvent::TextDelta { ref text } => EventModel::TextDelta { text: text@ },
            FrontendEvent::ToolStart { ref id, ref name, ref input } => EventModel::ToolStart {
                id: id@,
                name: name@,
                input: input@,
            },
            FrontendEvent::ToolResult { ref id, ref result } => EventModel::ToolResult {
                id: id@,
                result: result@,
            },
            FrontendEvent::Usage { input_tokens, output_tokens } => EventModel::Usage {
                input_tokens,
                output_tokens,
            },
            FrontendEvent::MessageStop => EventModel::MessageStop,
            FrontendEvent::PermissionRequest {
                ref tool_id,
                ref tool_name,
                ref input,
            } => EventModel::PermissionRequest {
                tool_id: tool_id@,
                tool_name: tool_name@,
                input: input@,
            },
            FrontendEvent::Error { ref message } => EventModel::Error { message: message@ },
            FrontendEvent::ProcessExit { code } => EventModel::ProcessExit { code },
        }
    }
}

/// The views of an optional event, used to state translator contracts.
pub open spec fn event_views(r: Option<FrontendEvent>) -> Option<EventModel> {
    match r {
        Some(e) => Some(e@),
        None => None,
    }
}

/// The number an optional token count reads as: absent reads as zero.
pub open spec fn u64_or_zero(o: Option<u64>) -> u64 {
    match o {
        Some(u) => u,
        None => 0,
    }
}

/// The flattened text of a tool result given as a sequence: the `text`
/// field of every element that has one, in order, with no separator.
pub open spec fn flat_model(elems: Seq<JsonModel>) -> Seq<char>
    decreases elems.len(),
{
    if elems.len() == 0 {
        Seq::empty()
    } else {
        (match jstr(jfield(elems[0], "text"@)) {
            Some(t) => t,
            None => Seq::<char>::empty(),
        }) + flat_model(elems.drop_first())
    }
}

/// The flattened text of a tool result's `content` field: a sequence is
/// flattened, a string is taken verbatim, anything else reads as empty.
pub open spec fn content_model(content: JsonModel) -> Seq<char> {
    match content {
        JsonModel::Arr(elems) => flat_model(elems),
        JsonModel::Str(s) => s,
        _ => Seq::empty(),
    }
}

/// The event a decoded wire-protocol value translates to, dispatching on
/// its discriminant field; an unrecognized or incomplete value translates
/// to none.
pub open spec fn line_event(m: JsonModel) -> Option<EventModel> {
    match jstr(jfield(m, "type"@)) {
        None => None,
        Some(t) => if t == "message_start"@ {
            Some(
                EventModel::Usage {
                    input_tokens: u64_or_zero(
                        ju64(jfield(jfield(jfield(m, "message"@), "usage"@), "input_tokens"@)),
                    ),
                    output_tokens: 0,
                },
            )
        } else if t == "content_block_start"@ {
            let block = jfield(m, "content_block"@);
            if jstr(jfield(block, "type"@)) == Some("tool_use"@) {
                match (jstr(jfield(block, "id"@)), jstr(jfield(block, "name"@))) {
                    (Some(id), Some(name)) => Some(
                        EventModel::ToolStart { id, name, input: JsonModel::Null },
                    ),
                    _ => None,
                }
            } else {
                None
            }
        } else if t == "content_block_delta"@ {
            let delta = jfield(m, "delta"@);
            if jstr(jfield(delta, "type"@)) == Some("text_delta"@) {
                match jstr(jfield(delta, "text"@)) {
                    Some(text) => Some(EventModel::TextDelta { text }),
                    None => None,
                }
            } else {
                None
            }
        } else if t == "message_delta"@ {
            Some(
                EventModel::Usage {
                    input_tokens: 0,
                    output_tokens: u64_or_zero(
                        ju64(jfield(jfield(m, "usage"@), "output_tokens"@)),
                    ),
                },
            )
        } else if t == "message_stop"@ {
            Some(EventModel::MessageStop)
        } else if t == "tool_result"@ {
            match jstr(jfield(m, "tool_use_id"@)) {
                Some(id) => Some(
                    EventModel::ToolResult { id, result: content_model(jfield(m, "content"@)) },
                ),
                None => None,
            }
        } else {
            None
        },
    }
}

/// Whitespace as the translator skips it.
pub open spec fn is_ws_char(c: char) -> bool {
    c == ' ' || c == '\t' || c == '\n' || c == '\r'
}

/// A line of nothing but whitespace, the empty line included.
pub open spec fn ws_only(s: Seq<char>) -> bool {
    forall|i: int| 0 <= i < s.len() ==> is_ws_char(s[i])
}

/// What translating one line of the wire protocol yields: nothing for a
/// blank line or one that is not well-formed JSON, otherwise the event its
/// decoded value dispatches to.
pub open spec fn parse_model(s: Seq<char>) -> Option<EventModel> {
    if ws_only(s) {
        None
    } else {
        match decoded(s) {
            Some(m) => line_event(m),
            None => None,
        }
    }
}

/// Law: a line that decodes to nothing — blank, or not well-formed JSON —
/// translates to no event: it can never abort or pollute the stream.
pub proof fn lemma_undecodable_line_yields_nothing(s: Seq<char>)
    requires
        ws_only(s) || decoded(s) is None,
    ensures
        parse_model(s) is None,
{
}

/// Whether the line holds nothing but whitespace.
fn is_blank(s: &str) -> (r: bool)
    ensures
        r == ws_only(s@),
{
    let n: usize = s.unicode_len();
    let mut i: usize = 0;
    while i < n
        invariant
            i <= n,
            n == s@.len(),
            forall|j: int| 0 <= j < i ==> is_ws_char(s@[j]),
        decreases n - i,
    {
        let c = s.get_char(i);
        if !(c == ' ' || c == '\t' || c == '\n' || c == '\r') {
            return false;
        }
        i += 1;
    }
    true
}

/// Flattens a tool result sequence: concatenates the `text` field of every
/// element that has one, in order, with no separator.
fn flatten_content(elems: &Vec<JsonValue>) -> (r: String)
    ensures
        r@ == flat_model(arr_model(elems@)),
{
    let ghost entries = arr_model(elems@);
    let mut out = String::new();
    let n: usize = elems.len();
    let mut i: usize = 0;
    proof {
        assert(entries.skip(0) =~= entries);
    }
    while i < n
        invariant
            i <= n,
            n == elems@.len(),
            entries == arr_model(elems@),
            out@ + flat_model(entries.skip(i as int)) == flat_model(entries),
        decreases n - i,
    {
        proof {
            assert(entries.skip(i as int)[0] == entries[i as int]);
            assert(entries.skip(i as int).drop_first() =~= entries.skip(i as int + 1));
        }
        match elems[i].get("text") {
            Some(f) => match f.as_str() {
                Some(t) => {
                    out.append(t);
                },
                None => {},
            },
            None => {},
        }
        i += 1;
    }
    proof {
        assert(entries.skip(n as int) =~= Seq::<JsonModel>::empty());
        assert(out@ + Seq::<char>::empty() =~= out@);
    }
    out
}

/// Translates one decoded wire-protocol value into at most one event,
/// exactly as [`line_event`] reads it.
pub fn translate_value(v: &JsonValue) -> (r: Option<FrontendEvent>)
    ensures
        event_views(r) == line_event(v@),
{
    let t = match v.get("type") {
        Some(f) => f,
        None => { return None },
    };
    let t = match t.as_str() {
        Some(s) => s,
        None => { return None },
    };
    if str_eq(t, "message_start") {
        let input_tokens = match v.get("message") {
            Some(msg) => match msg.get("usage") {
                Some(usage) => match usage.get("input_tokens") {
                    Some(f) => match f.as_u64() {
                        Some(u) => u,
                        None => 0,
                    },
                    None => 0,
                },
                None => 0,
            },
            None => 0,
        };
        Some(FrontendEvent::Usage { input_tokens, output_tokens: 0 })
    } else if str_eq(t, "content_block_start") {
        let block = match v.get("content_block") {
            Some(b) => b,
            None => { return None },
        };
        let kind = match block.get("type") {
            Some(f) => f,
            None => { return None },
        };
        let kind = match kind.as_str() {
            Some(s) => s,
            None => { return None },
        };
        if !str_eq(kind, "tool_use") {
            return None;
        }
        let id = match block.get("id") {
            Some(f) => match f.as_str() {
                Some(s) => s.to_owned(),
                None => { return None },
            },
            None => { return None },
        };
        let name = match block.get("name") {
            Some(f) => match f.as_str() {
                Some(s) => s.to_owned(),
                None => { return None },
            },
            None => { return None },
        };
        Some(FrontendEvent::ToolStart { id, name, input: JsonValue::Null })
    } else if str_eq(t, "content_block_delta") {
        let delta = match v.get("delta") {
            Some(d) => d,
            None => { return None },
        };
        let kind = match delta.get("type") {
            Some(f) => f,
            None => { return None },
        };
        let kind = match kind.as_str() {
            Some(s) => s,
            None => { return None },
        };
        if !str_eq(kind, "text_delta") {
            return None;
        }
        match delta.get("text") {
            Some(f) => match f.as_str() {
                Some(s) => Some(FrontendEvent::TextDelta { text: s.to_owned() }),
                None => None,
            },
            None => None,
        }
    } else if str_eq(t, "message_delta") {
        let output_tokens = match v.get("usage") {
            Some(usage) => match usage.get("output_tokens") {
                Some(f) => match f.as_u64() {
                    Some(u) => u,
                    None => 0,
                },
                None => 0,
            },
            None => 0,
        };
        Some(FrontendEvent::Usage { input_tokens: 0, output_tokens })
    } else if str_eq(t, "message_stop") {
        Some(FrontendEvent::MessageStop)
    } else if str_eq(t, "tool_result") {
        let id = match v.get("tool_use_id") {
            Some(f) => match f.as_str() {
                Some(s) => s.to_owned(),
                None => { return None },
            },
            None => { return None },
        };
        let result = match v.get("content") {
            Some(c) => match c.as_array() {
                Some(a) => flatten_content(a),
                None => match c.as_str() {
                    Some(s) => s.to_owned(),
                    None => String::new(),
                },
            },
            None => String::new(),
        };
        Some(FrontendEvent::ToolResult { id, result })
    } else {
        None
    }
}

/// Translates one line of the wire protocol into at most one event. A
/// blank line, a line that is not well-formed JSON, and a recognized
/// discriminant with a missing required field all yield none, never an
/// error: an unrecognized line must not abort the stream.
pub fn parse_stream_line(line: &str) -> (r: Option<FrontendEvent>)
    ensures
        event_views(r) == parse_model(line@),
{
    if is_blank(line) {
        return None;
    }
    match decode_json(line) {
        Some(v) => translate_value(&v),
        None => None,
    }
}

} // verus!
