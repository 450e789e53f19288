//! Two-pass decoding of protocol lines.
//!
//! A line first becomes a generic envelope (`RawAction`): the outer object's
//! known fields, with the `fields` payload kept opaque because its shape
//! depends on a numeric code that is only interpreted later. The envelope
//! then becomes one typed [`Action`] by dispatching on that code.

use vstd::prelude::*;

use crate::action::{Action, ActionType, BuildStepId, ResultFields, StartFields};
use crate::json::{spec_obj_get, JsonValue};

verus! {

broadcast use vstd::string::group_string_axioms;

/// The tag of an envelope: which of the four event shapes the line claims.
#[derive(Clone, Copy, Debug, PartialEq, Eq, Structural)]
pub enum RawActionType {
    Msg,
    Start,
    Result,
    Stop,
}

/// The documented result codes. Codes 100, 102, 103 and 107 are carried by
/// the protocol but deliberately not interpreted here.
#[derive(Clone, Copy, Debug, PartialEq, Eq, Structural)]
pub enum RawEnumType {
    FileLinked,
    BuildLogLine,
    UntrustedPath,
    CorruptedPath,
    SetPhase,
    Progress,
    SetExpected,
    PostBuildLogLine,
}

impl RawEnumType {
    /// The result kind a wire code stands for, if it is documented at all.
    pub open spec fn spec_from_code(code: u8) -> Option<RawEnumType> {
        if code == 100 {
            Some(RawEnumType::FileLinked)
        } else if code == 101 {
            Some(RawEnumType::BuildLogLine)
        } else if code == 102 {
            Some(RawEnumType::UntrustedPath)
        } else if code == 103 {
            Some(RawEnumType::CorruptedPath)
        } else if code == 104 {
            Some(RawEnumType::SetPhase)
        } else if code == 105 {
            Some(RawEnumType::Progress)
        } else if code == 106 {
            Some(RawEnumType::SetExpected)
        } else if code == 107 {
            Some(RawEnumType::PostBuildLogLine)
        } else {
            None
        }
    }

    /// The result kind a wire code stands for, if it is documented at all.
    pub fn from_code(code: u8) -> (r: Option<RawEnumType>)
        ensures
            r == RawEnumType::spec_from_code(code),
    {
        if code == 100 {
            Some(RawEnumType::FileLinked)
        } else if code == 101 {
            Some(RawEnumType::BuildLogLine)
        } else if code == 102 {
            Some(RawEnumType::UntrustedPath)
        } else if code == 103 {
            Some(RawEnumType::CorruptedPath)
        } else if code == 104 {
            Some(RawEnumType::SetPhase)
        } else if code == 105 {
            Some(RawEnumType::Progress)
        } else if code == 106 {
            Some(RawEnumType::SetExpected)
        } else if code == 107 {
            Some(RawEnumType::PostBuildLogLine)
        } else {
            None
        }
    }
}

/// A named field of the envelope, for error reporting.
#[derive(Clone, Copy, Debug, PartialEq, Eq, Structural)]
pub enum Field {
    Level,
    Msg,
    Id,
    Parent,
    Text,
    Fields,
    Type,
}

/// The payload shape a decode expected when it found something else.
#[derive(Clone, Copy, Debug, PartialEq, Eq, Structural)]
pub enum PayloadShape {
    CopyPath,
    FileTransfer,
    Build,
    Substitute,
    LogLine,
    Phase,
    Progress,
    SetExpected,
}

/// Why a protocol line could not be decoded.
#[derive(Clone, Copy, Debug, PartialEq, Eq, Structural)]
pub enum DecodeError {
    /// The line is not valid structured data of the expected outer shape.
    Malformed,
    /// A field required by the envelope's tag is absent.
    MissingField(Field),
    /// The payload is present but does not have the expected shape.
    InvalidFields(PayloadShape),
    /// A result code outside the documented range.
    UnknownCode(u8),
    /// A documented result code this crate deliberately does not interpret.
    Unimplemented(u8),
}

/// The generically parsed envelope: every field optional, the payload
/// still opaque.
#[derive(Debug)]
pub struct RawAction {
    pub action_type: RawActionType,
    pub level: Option<u8>,
    pub msg: Option<String>,
    pub id: Option<BuildStepId>,
    pub parent: Option<BuildStepId>,
    pub text: Option<String>,
    pub fields: Option<JsonValue>,
    pub any_type: Option<u8>,
}

impl RawAction {
    /// Every field that the envelope's tag requires is present.
    pub open spec fn wf(self) -> bool {
        match self.action_type {
            RawActionType::Msg => self.level is Some && self.msg is Some,
            RawActionType::Start => self.any_type is Some && self.id is Some
                && self.level is Some && self.parent is Some && self.text is Some,
            RawActionType::Result => self.fields is Some && self.any_type is Some
                && self.id is Some,
            RawActionType::Stop => self.id is Some,
        }
    }
}

/// The tag named by the object's `action` entry, if it is one of the four.
pub open spec fn spec_tag_of(entries: Seq<(String, JsonValue)>) -> Option<RawActionType> {
    match spec_obj_get(entries, "action"@) {
        Some(JsonValue::Str(t)) => if t@ == "msg"@ {
            Some(RawActionType::Msg)
        } else if t@ == "start"@ {
            Some(RawActionType::Start)
        } else if t@ == "result"@ {
            Some(RawActionType::Result)
        } else if t@ == "stop"@ {
            Some(RawActionType::Stop)
        } else {
            None
        },
        _ => None,
    }
}

/// An optional text entry: absent is fine, present must be a string.
pub open spec fn spec_str_field(entries: Seq<(String, JsonValue)>, key: Seq<char>) -> Result<
    Option<String>,
    DecodeError,
> {
    match spec_obj_get(entries, key) {
        None => Ok(None),
        Some(JsonValue::Str(s)) => Ok(Some(s)),
        Some(_) => Err(DecodeError::Malformed),
    }
}

/// An optional counter entry: absent is fine, present must be an unsigned
/// 64-bit number.
pub open spec fn spec_u64_field(entries: Seq<(String, JsonValue)>, key: Seq<char>) -> Result<
    Option<u64>,
    DecodeError,
> {
    match spec_obj_get(entries, key) {
        None => Ok(None),
        Some(JsonValue::Uint(n)) => Ok(Some(n)),
        Some(_) => Err(DecodeError::Malformed),
    }
}

/// An optional small-number entry: absent is fine, present must fit a byte.
pub open spec fn spec_u8_field(entries: Seq<(String, JsonValue)>, key: Seq<char>) -> Result<
    Option<u8>,
    DecodeError,
> {
    match spec_obj_get(entries, key) {
        None => Ok(None),
        Some(JsonValue::Uint(n)) => if n <= 255 {
            Ok(Some(n as u8))
        } else {
            Err(DecodeError::Malformed)
        },
        Some(_) => Err(DecodeError::Malformed),
    }
}

/// Checks the presence of the fields the tag requires, in a fixed order.
pub open spec fn spec_check_required(raw: RawAction) -> Result<RawAction, DecodeError> {
    match raw.action_type {
        RawActionType::Msg => if raw.level is None {
            Err(DecodeError::MissingField(Field::Level))
        } else if raw.msg is None {
            Err(DecodeError::MissingField(Field::Msg))
        } else {
            Ok(raw)
        },
        RawActionType::Start => if raw.any_type is None {
            Err(DecodeError::MissingField(Field::Type))
        } else if raw.id is None {
            Err(DecodeError::MissingField(Field::Id))
        } else if raw.level is None {
            Err(DecodeError::MissingField(Field::Level))
        } else if raw.parent is None {
            Err(DecodeError::MissingField(Field::Parent))
        } else if raw.text is None {
            Err(DecodeError::MissingField(Field::Text))
        } else {
            Ok(raw)
        },
        RawActionType::Result => if raw.fields is None {
            Err(DecodeError::MissingField(Field::Fields))
        } else if raw.any_type is None {
            Err(DecodeError::MissingField(Field::Type))
        } else if raw.id is None {
            Err(DecodeError::MissingField(Field::Id))
        } else {
            Ok(raw)
        },
        RawActionType::Stop => if raw.id is None {
            Err(DecodeError::MissingField(Field::Id))
        } else {
            Ok(raw)
        },
    }
}

/// What decoding an object's entries into an envelope gives.
pub open spec fn spec_decode_obj(entries: Seq<(String, JsonValue)>) -> Result<
    RawAction,
    DecodeError,
> {
    match spec_tag_of(entries) {
        None => Err(DecodeError::Malformed),
        Some(tag) => if spec_u8_field(entries, "level"@) is Err || spec_str_field(
            entries,
            "msg"@,
        ) is Err || spec_u64_field(entries, "id"@) is Err || spec_u64_field(
            entries,
            "parent"@,
        ) is Err || spec_str_field(entries, "text"@) is Err || spec_u8_field(
            entries,
            "type"@,
        ) is Err {
            Err(DecodeError::Malformed)
        } else {
            spec_check_required(
                RawAction {
                    action_type: tag,
                    level: spec_u8_field(entries, "level"@)->Ok_0,
                    msg: spec_str_field(entries, "msg"@)->Ok_0,
                    id: match spec_u64_field(entries, "id"@)->Ok_0 {
                        Some(n) => Some(BuildStepId(n)),
                        None => None,
                    },
                    parent: match spec_u64_field(entries, "parent"@)->Ok_0 {
                        Some(n) => Some(BuildStepId(n)),
                        None => None,
                    },
                    text: spec_str_field(entries, "text"@)->Ok_0,
                    fields: spec_obj_get(entries, "fields"@),
                    any_type: spec_u8_field(entries, "type"@)->Ok_0,
                },
            )
        },
    }
}

/// What decoding a whole document into an envelope gives.
pub open spec fn spec_decode_envelope(doc: JsonValue) -> Result<RawAction, DecodeError> {
    match doc {
        JsonValue::Obj(entries) => spec_decode_obj(entries@),
        _ => Err(DecodeError::Malformed),
    }
}

/// A decoded envelope always carries the fields its tag requires.
pub proof fn lemma_decoded_envelope_wf(doc: JsonValue)
    ensures
        spec_decode_envelope(doc) matches Ok(raw) ==> raw.wf(),
{
}

/// Facts that tell the envelope's eight key names apart.
proof fn lemma_keys_distinct()
    ensures
        "action"@.len() == 6,
        "level"@.len() == 5,
        "msg"@.len() == 3,
        "id"@.len() == 2,
        "parent"@.len() == 6,
        "text"@.len() == 4,
        "fields"@.len() == 6,
        "type"@.len() == 4,
        "action"@[0] == 'a',
        "parent"@[0] == 'p',
        "fields"@[0] == 'f',
        "text"@[1] == 'e',
        "type"@[1] == 'y',
{
    reveal_strlit("action");
    reveal_strlit("level");
    reveal_strlit("msg");
    reveal_strlit("id");
    reveal_strlit("parent");
    reveal_strlit("text");
    reveal_strlit("fields");
    reveal_strlit("type");
}

/// Decodes one parsed document into the generic envelope, leaving the
/// payload opaque.
#[verifier::loop_isolation(false)]
pub fn decode_envelope_value(doc: JsonValue) -> (r: Result<RawAction, DecodeError>)
    ensures
        r == spec_decode_envelope(doc),
{
    let mut entries = match doc {
        JsonValue::Obj(e) => e,
        _ => {
            return Err(DecodeError::Malformed);
        },
    };
    let ghost entries0 = entries@;
    let mut f_action: Option<JsonValue> = None;
    let mut f_level: Option<JsonValue> = None;
    let mut f_msg: Option<JsonValue> = None;
    let mut f_id: Option<JsonValue> = None;
    let mut f_parent: Option<JsonValue> = None;
    let mut f_text: Option<JsonValue> = None;
    let mut f_fields: Option<JsonValue> = None;
    let mut f_type: Option<JsonValue> = None;
    let mut i: usize = entries.len();
    proof {
        reveal_strlit("action");
        reveal_strlit("level");
        reveal_strlit("msg");
        reveal_strlit("id");
        reveal_strlit("parent");
        reveal_strlit("text");
        reveal_strlit("fields");
        reveal_strlit("type");
        assert(entries0.skip(i as int) =~= Seq::<(String, JsonValue)>::empty());
    }
    while i > 0
        invariant
            i == entries@.len(),
            i <= entries0.len(),
            entries@ =~= entries0.take(i as int),
            f_action == spec_obj_get(entries0.skip(i as int), "action"@),
            f_level == spec_obj_get(entries0.skip(i as int), "level"@),
            f_msg == spec_obj_get(entries0.skip(i as int), "msg"@),
            f_id == spec_obj_get(entries0.skip(i as int), "id"@),
            f_parent == spec_obj_get(entries0.skip(i as int), "parent"@),
            f_text == spec_obj_get(entries0.skip(i as int), "text"@),
            f_fields == spec_obj_get(entries0.skip(i as int), "fields"@),
            f_type == spec_obj_get(entries0.skip(i as int), "type"@),
        decreases i,
    {
        let kv = entries.pop().unwrap();
        i = i - 1;
        proof {
            lemma_keys_distinct();
            assert(entries0.skip(i as int)[0] == entries0[i as int]);
            assert(entries0.skip(i as int).skip(1) =~= entries0.skip(i as int + 1));
        }
        let (k, v) = kv;
        if k == String::from_str("action") {
            f_action = Some(v);
        } else if k == String::from_str("level") {
            f_level = Some(v);
        } else if k == String::from_str("msg") {
            f_msg = Some(v);
        } else if k == String::from_str("id") {
            f_id = Some(v);
        } else if k == String::from_str("parent") {
            f_parent = Some(v);
        } else if k == String::from_str("text") {
            f_text = Some(v);
        } else if k == String::from_str("fields") {
            f_fields = Some(v);
        } else if k == String::from_str("type") {
            f_type = Some(v);
        }
    }
    proof {
        assert(entries0.skip(0) =~= entries0);
    }

    let action_type = match f_action {
        Some(JsonValue::Str(t)) => {
            if t == String::from_str("msg") {
                RawActionType::Msg
            } else if t == String::from_str("start") {
                RawActionType::Start
            } else if t == String::from_str("result") {
                RawActionType::Result
            } else if t == String::from_str("stop") {
                RawActionType::Stop
            } else {
                return Err(DecodeError::Malformed);
            }
        },
        _ => {
            return Err(DecodeError::Malformed);
        },
    };

    let level: Option<u8> = match f_level {
        None => None,
        Some(JsonValue::Uint(n)) => {
            if n <= 255 {
                Some(n as u8)
            } else {
                return Err(DecodeError::Malformed);
            }
        },
        Some(_) => {
            return Err(DecodeError::Malformed);
        },
    };
    let msg: Option<String> = match f_msg {
        None => None,
        Some(JsonValue::Str(s)) => Some(s),
        Some(_) => {
            return Err(DecodeError::Malformed);
        },
    };
    let id: Option<BuildStepId> = match f_id {
        None => None,
        Some(JsonValue::Uint(n)) => Some(BuildStepId(n)),
        Some(_) => {
            return Err(DecodeError::Malformed);
        },
    };
    let parent: Option<BuildStepId> = match f_parent {
        None => None,
        Some(JsonValue::Uint(n)) => Some(BuildStepId(n)),
        Some(_) => {
            return Err(DecodeError::Malformed);
        },
    };
    let text: Option<String> = match f_text {
        None => None,
        Some(JsonValue::Str(s)) => Some(s),
        Some(_) => {
            return Err(DecodeError::Malformed);
        },
    };
    let any_type: Option<u8> = match f_type {
        None => None,
        Some(JsonValue::Uint(n)) => {
            if n <= 255 {
                Some(n as u8)
            } else {
                return Err(DecodeError::Malformed);
            }
        },
        Some(_) => {
            return Err(DecodeError::Malformed);
        },
    };

    let raw = RawAction { action_type, level, msg, id, parent, text, fields: f_fields, any_type };
    check_required(raw)
}

/// Checks the presence of the fields the tag requires, in a fixed order.
fn check_required(raw: RawAction) -> (r: Result<RawAction, DecodeError>)
    ensures
        r == spec_check_required(raw),
{
    match raw.action_type {
        RawActionType::Msg => {
            if raw.level.is_none() {
                return Err(DecodeError::MissingField(Field::Level));
            }
            if raw.msg.is_none() {
                return Err(DecodeError::MissingField(Field::Msg));
            }
        },
        RawActionType::Start => {
            if raw.any_type.is_none() {
                return Err(DecodeError::MissingField(Field::Type));
            }
            if raw.id.is_none() {
                return Err(DecodeError::MissingField(Field::Id));
            }
            if raw.level.is_none() {
                return Err(DecodeError::MissingField(Field::Level));
            }
            if raw.parent.is_none() {
                return Err(DecodeError::MissingField(Field::Parent));
            }
            if raw.text.is_none() {
                return Err(DecodeError::MissingField(Field::Text));
            }
        },
        RawActionType::Result => {
            if raw.fields.is_none() {
                return Err(DecodeError::MissingField(Field::Fields));
            }
            if raw.any_type.is_none() {
                return Err(DecodeError::MissingField(Field::Type));
            }
            if raw.id.is_none() {
                return Err(DecodeError::MissingField(Field::Id));
            }
        },
        RawActionType::Stop => {
            if raw.id.is_none() {
                return Err(DecodeError::MissingField(Field::Id));
            }
        },
    }
    Ok(raw)
}

/// The `Start` payload a kind expects, decoded from the opaque fields.
/// Kinds without a documented payload accept anything, absent included.
pub open spec fn spec_start_fields(kind: ActionType, payload: Option<JsonValue>) -> Result<
    StartFields,
    DecodeError,
> {
    match kind {
        ActionType::Unknown => Ok(StartFields::Unknown),
        ActionType::Realise => Ok(StartFields::Realise),
        ActionType::CopyPaths => Ok(StartFields::CopyPaths),
        ActionType::Builds => Ok(StartFields::Builds),
        ActionType::OptimiseStore => Ok(StartFields::OptimiseStore),
        ActionType::VerifyPaths => Ok(StartFields::VerifyPaths),
        ActionType::QueryPathInfo => Ok(StartFields::QueryPathInfo),
        ActionType::PostBuildHook => Ok(StartFields::PostBuildHook),
        ActionType::BuildWaiting => Ok(StartFields::BuildWaiting),
        ActionType::CopyPath => match payload {
            None => Err(DecodeError::MissingField(Field::Fields)),
            Some(JsonValue::Arr(v)) => spec_copy_path_fields(v@),
            Some(_) => Err(DecodeError::InvalidFields(PayloadShape::CopyPath)),
        },
        ActionType::FileTransfer => match payload {
            None => Err(DecodeError::MissingField(Field::Fields)),
            Some(JsonValue::Arr(v)) => spec_file_transfer_fields(v@),
            Some(_) => Err(DecodeError::InvalidFields(PayloadShape::FileTransfer)),
        },
        ActionType::Build => match payload {
            None => Err(DecodeError::MissingField(Field::Fields)),
            Some(JsonValue::Arr(v)) => spec_build_fields(v@),
            Some(_) => Err(DecodeError::InvalidFields(PayloadShape::Build)),
        },
        ActionType::Substitute => match payload {
            None => Err(DecodeError::MissingField(Field::Fields)),
            Some(JsonValue::Arr(v)) => spec_substitute_fields(v@),
            Some(_) => Err(DecodeError::InvalidFields(PayloadShape::Substitute)),
        },
    }
}

/// A copy announcement carries `[path, origin, destination]`.
pub open spec fn spec_copy_path_fields(v: Seq<JsonValue>) -> Result<StartFields, DecodeError> {
    if v.len() == 3 {
        match (v[0], v[1], v[2]) {
            (JsonValue::Str(p), JsonValue::Str(o), JsonValue::Str(d)) => Ok(
                StartFields::CopyPath { path: p, origin: o, destination: d },
            ),
            _ => Err(DecodeError::InvalidFields(PayloadShape::CopyPath)),
        }
    } else {
        Err(DecodeError::InvalidFields(PayloadShape::CopyPath))
    }
}

/// A transfer announcement carries `[target]`.
pub open spec fn spec_file_transfer_fields(v: Seq<JsonValue>) -> Result<
    StartFields,
    DecodeError,
> {
    if v.len() == 1 {
        match v[0] {
            JsonValue::Str(t) => Ok(StartFields::FileTransfer { target: t }),
            _ => Err(DecodeError::InvalidFields(PayloadShape::FileTransfer)),
        }
    } else {
        Err(DecodeError::InvalidFields(PayloadShape::FileTransfer))
    }
}

/// A build announcement carries `[target, source, val1, val2]`.
pub open spec fn spec_build_fields(v: Seq<JsonValue>) -> Result<StartFields, DecodeError> {
    if v.len() == 4 {
        match (v[0], v[1], v[2], v[3]) {
            (
                JsonValue::Str(target),
                JsonValue::Str(source),
                JsonValue::Uint(val1),
                JsonValue::Uint(val2),
            ) => Ok(StartFields::Build { target, source, val1, val2 }),
            _ => Err(DecodeError::InvalidFields(PayloadShape::Build)),
        }
    } else {
        Err(DecodeError::InvalidFields(PayloadShape::Build))
    }
}

/// A substitution announcement carries `[source, target]`.
pub open spec fn spec_substitute_fields(v: Seq<JsonValue>) -> Result<StartFields, DecodeError> {
    if v.len() == 2 {
        match (v[0], v[1]) {
            (JsonValue::Str(source), JsonValue::Str(target)) => Ok(
                StartFields::Substitute { source, target },
            ),
            _ => Err(DecodeError::InvalidFields(PayloadShape::Substitute)),
        }
    } else {
        Err(DecodeError::InvalidFields(PayloadShape::Substitute))
    }
}

/// The `Result` payload a code expects. Codes 100, 102, 103 and 107 are
/// deliberately unimplemented; codes outside 100..=107 are unknown.
pub open spec fn spec_result_fields(code: u8, payload: JsonValue) -> Result<
    ResultFields,
    DecodeError,
> {
    match RawEnumType::spec_from_code(code) {
        None => Err(DecodeError::UnknownCode(code)),
        Some(RawEnumType::FileLinked) => Err(DecodeError::Unimplemented(code)),
        Some(RawEnumType::UntrustedPath) => Err(DecodeError::Unimplemented(code)),
        Some(RawEnumType::CorruptedPath) => Err(DecodeError::Unimplemented(code)),
        Some(RawEnumType::PostBuildLogLine) => Err(DecodeError::Unimplemented(code)),
        Some(RawEnumType::BuildLogLine) => match payload {
            JsonValue::Arr(v) => spec_log_line_fields(v@),
            _ => Err(DecodeError::InvalidFields(PayloadShape::LogLine)),
        },
        Some(RawEnumType::SetPhase) => match payload {
            JsonValue::Arr(v) => spec_phase_fields(v@),
            _ => Err(DecodeError::InvalidFields(PayloadShape::Phase)),
        },
        Some(RawEnumType::Progress) => match payload {
            JsonValue::Arr(v) => spec_progress_fields(v@),
            _ => Err(DecodeError::InvalidFields(PayloadShape::Progress)),
        },
        Some(RawEnumType::SetExpected) => match payload {
            JsonValue::Arr(v) => spec_set_expected_fields(v@),
            _ => Err(DecodeError::InvalidFields(PayloadShape::SetExpected)),
        },
    }
}

/// A build log line carries `[line]`.
pub open spec fn spec_log_line_fields(v: Seq<JsonValue>) -> Result<ResultFields, DecodeError> {
    if v.len() == 1 {
        match v[0] {
            JsonValue::Str(line) => Ok(ResultFields::BuildLogLine(line)),
            _ => Err(DecodeError::InvalidFields(PayloadShape::LogLine)),
        }
    } else {
        Err(DecodeError::InvalidFields(PayloadShape::LogLine))
    }
}

/// A phase change carries `[phase]`.
pub open spec fn spec_phase_fields(v: Seq<JsonValue>) -> Result<ResultFields, DecodeError> {
    if v.len() == 1 {
        match v[0] {
            JsonValue::Str(phase) => Ok(ResultFields::SetPhase(phase)),
            _ => Err(DecodeError::InvalidFields(PayloadShape::Phase)),
        }
    } else {
        Err(DecodeError::InvalidFields(PayloadShape::Phase))
    }
}

/// A progress update carries `[done, expected, running, failed]`.
pub open spec fn spec_progress_fields(v: Seq<JsonValue>) -> Result<ResultFields, DecodeError> {
    if v.len() == 4 {
        match (v[0], v[1], v[2], v[3]) {
            (
                JsonValue::Uint(done),
                JsonValue::Uint(expected),
                JsonValue::Uint(running),
                JsonValue::Uint(failed),
            ) => Ok(ResultFields::Progress { done, expected, running, failed }),
            _ => Err(DecodeError::InvalidFields(PayloadShape::Progress)),
        }
    } else {
        Err(DecodeError::InvalidFields(PayloadShape::Progress))
    }
}

/// An expectation update carries `[kind_code, expected]`.
pub open spec fn spec_set_expected_fields(v: Seq<JsonValue>) -> Result<
    ResultFields,
    DecodeError,
> {
    if v.len() == 2 {
        match (v[0], v[1]) {
            (JsonValue::Uint(code), JsonValue::Uint(expected)) => if code <= 255 {
                Ok(
                    ResultFields::SetExpected {
                        action: ActionType::spec_from_code(code as u8),
                        expected,
                    },
                )
            } else {
                Err(DecodeError::InvalidFields(PayloadShape::SetExpected))
            },
            _ => Err(DecodeError::InvalidFields(PayloadShape::SetExpected)),
        }
    } else {
        Err(DecodeError::InvalidFields(PayloadShape::SetExpected))
    }
}

/// What typing a well-formed envelope gives: one event, or the exact error.
pub open spec fn spec_type_event(raw: RawAction) -> Result<Action, DecodeError>
    recommends
        raw.wf(),
{
    match raw.action_type {
        RawActionType::Msg => Ok(
            Action::Msg { level: raw.level.unwrap(), msg: raw.msg.unwrap() },
        ),
        RawActionType::Start => match spec_start_fields(
            ActionType::spec_from_code(raw.any_type.unwrap()),
            raw.fields,
        ) {
            Err(e) => Err(e),
            Ok(start_type) => Ok(
                Action::Start {
                    start_type,
                    id: raw.id.unwrap(),
                    level: raw.level.unwrap(),
                    parent: raw.parent.unwrap(),
                    text: raw.text.unwrap(),
                },
            ),
        },
        RawActionType::Result => match spec_result_fields(
            raw.any_type.unwrap(),
            raw.fields.unwrap(),
        ) {
            Err(e) => Err(e),
            Ok(fields) => Ok(Action::Result { id: raw.id.unwrap(), fields }),
        },
        RawActionType::Stop => Ok(Action::Stop { id: raw.id.unwrap() }),
    }
}

/// Decodes a `Start` payload for its kind.
fn start_fields(kind: ActionType, payload: Option<JsonValue>) -> (r: Result<
    StartFields,
    DecodeError,
>)
    ensures
        r == spec_start_fields(kind, payload),
{
    match kind {
        ActionType::Unknown => Ok(StartFields::Unknown),
        ActionType::Realise => Ok(StartFields::Realise),
        ActionType::CopyPaths => Ok(StartFields::CopyPaths),
        ActionType::Builds => Ok(StartFields::Builds),
        ActionType::OptimiseStore => Ok(StartFields::OptimiseStore),
        ActionType::VerifyPaths => Ok(StartFields::VerifyPaths),
        ActionType::QueryPathInfo => Ok(StartFields::QueryPathInfo),
        ActionType::PostBuildHook => Ok(StartFields::PostBuildHook),
        ActionType::BuildWaiting => Ok(StartFields::BuildWaiting),
        ActionType::CopyPath => match payload {
            None => Err(DecodeError::MissingField(Field::Fields)),
            Some(JsonValue::Arr(mut v)) => {
                if v.len() == 3 {
                    let d = v.pop().unwrap();
                    let o = v.pop().unwrap();
                    let p = v.pop().unwrap();
                    match (p, o, d) {
                        (JsonValue::Str(path), JsonValue::Str(origin), JsonValue::Str(
                            destination,
                        )) => Ok(StartFields::CopyPath { path, origin, destination }),
                        _ => Err(DecodeError::InvalidFields(PayloadShape::CopyPath)),
                    }
                } else {
                    Err(DecodeError::InvalidFields(PayloadShape::CopyPath))
                }
            },
            Some(_) => Err(DecodeError::InvalidFields(PayloadShape::CopyPath)),
        },
        ActionType::FileTransfer => match payload {
            None => Err(DecodeError::MissingField(Field::Fields)),
            Some(JsonValue::Arr(mut v)) => {
                if v.len() == 1 {
                    let t = v.pop().unwrap();
                    match t {
                        JsonValue::Str(target) => Ok(StartFields::FileTransfer { target }),
                        _ => Err(DecodeError::InvalidFields(PayloadShape::FileTransfer)),
                    }
                } else {
                    Err(DecodeError::InvalidFields(PayloadShape::FileTransfer))
                }
            },
            Some(_) => Err(DecodeError::InvalidFields(PayloadShape::FileTransfer)),
        },
        ActionType::Build => match payload {
            None => Err(DecodeError::MissingField(Field::Fields)),
            Some(JsonValue::Arr(mut v)) => {
                if v.len() == 4 {
                    let v2 = v.pop().unwrap();
                    let v1 = v.pop().unwrap();
                    let s = v.pop().unwrap();
                    let t = v.pop().unwrap();
                    match (t, s, v1, v2) {
                        (JsonValue::Str(target), JsonValue::Str(source), JsonValue::Uint(
                            val1,
                        ), JsonValue::Uint(val2)) => Ok(
                            StartFields::Build { target, source, val1, val2 },
                        ),
                        _ => Err(DecodeError::InvalidFields(PayloadShape::Build)),
                    }
                } else {
                    Err(DecodeError::InvalidFields(PayloadShape::Build))
                }
            },
            Some(_) => Err(DecodeError::InvalidFields(PayloadShape::Build)),
        },
        ActionType::Substitute => match payload {
            None => Err(DecodeError::MissingField(Field::Fields)),
            Some(JsonValue::Arr(mut v)) => {
                if v.len() == 2 {
                    let t = v.pop().unwrap();
                    let s = v.pop().unwrap();
                    match (s, t) {
                        (JsonValue::Str(source), JsonValue::Str(target)) => Ok(
                            StartFields::Substitute { source, target },
                        ),
                        _ => Err(DecodeError::InvalidFields(PayloadShape::Substitute)),
                    }
                } else {
                    Err(DecodeError::InvalidFields(PayloadShape::Substitute))
                }
            },
            Some(_) => Err(DecodeError::InvalidFields(PayloadShape::Substitute)),
        },
    }
}

/// Decodes a `Result` payload for its code.
fn result_fields(code: u8, payload: JsonValue) -> (r: Result<ResultFields, DecodeError>)
    ensures
        r == spec_result_fields(code, payload),
{
    let kind = match RawEnumType::from_code(code) {
        None => {
            return Err(DecodeError::UnknownCode(code));
        },
        Some(k) => k,
    };
    match kind {
        RawEnumType::FileLinked => Err(DecodeError::Unimplemented(code)),
        RawEnumType::UntrustedPath => Err(DecodeError::Unimplemented(code)),
        RawEnumType::CorruptedPath => Err(DecodeError::Unimplemented(code)),
        RawEnumType::PostBuildLogLine => Err(DecodeError::Unimplemented(code)),
        RawEnumType::BuildLogLine => match payload {
            JsonValue::Arr(mut v) => {
                if v.len() == 1 {
                    match v.pop().unwrap() {
                        JsonValue::Str(line) => Ok(ResultFields::BuildLogLine(line)),
                        _ => Err(DecodeError::InvalidFields(PayloadShape::LogLine)),
                    }
                } else {
                    Err(DecodeError::InvalidFields(PayloadShape::LogLine))
                }
            },
            _ => Err(DecodeError::InvalidFields(PayloadShape::LogLine)),
        },
        RawEnumType::SetPhase => match payload {
            JsonValue::Arr(mut v) => {
                if v.len() == 1 {
                    match v.pop().unwrap() {
                        JsonValue::Str(phase) => Ok(ResultFields::SetPhase(phase)),
                        _ => Err(DecodeError::InvalidFields(PayloadShape::Phase)),
                    }
                } else {
                    Err(DecodeError::InvalidFields(PayloadShape::Phase))
                }
            },
            _ => Err(DecodeError::InvalidFields(PayloadShape::Phase)),
        },
        RawEnumType::Progress => match payload {
            JsonValue::Arr(mut v) => {
                if v.len() == 4 {
                    let f = v.pop().unwrap();
                    let r2 = v.pop().unwrap();
                    let e = v.pop().unwrap();
                    let d = v.pop().unwrap();
                    match (d, e, r2, f) {
                        (JsonValue::Uint(done), JsonValue::Uint(expected), JsonValue::Uint(
                            running,
                        ), JsonValue::Uint(failed)) => Ok(
                            ResultFields::Progress { done, expected, running, failed },
                        ),
                        _ => Err(DecodeError::InvalidFields(PayloadShape::Progress)),
                    }
                } else {
                    Err(DecodeError::InvalidFields(PayloadShape::Progress))
                }
            },
            _ => Err(DecodeError::InvalidFields(PayloadShape::Progress)),
        },
        RawEnumType::SetExpected => match payload {
            JsonValue::Arr(mut v) => {
                if v.len() == 2 {
                    let e = v.pop().unwrap();
                    let c = v.pop().unwrap();
                    match (c, e) {
                        (JsonValue::Uint(kind_code), JsonValue::Uint(expected)) => {
                            if kind_code <= 255 {
                                Ok(
                                    ResultFields::SetExpected {
                                        action: ActionType::from_code(kind_code as u8),
                                        expected,
                                    },
                                )
                            } else {
                                Err(DecodeError::InvalidFields(PayloadShape::SetExpected))
                            }
                        },
                        _ => Err(DecodeError::InvalidFields(PayloadShape::SetExpected)),
                    }
                } else {
                    Err(DecodeError::InvalidFields(PayloadShape::SetExpected))
                }
            },
            _ => Err(DecodeError::InvalidFields(PayloadShape::SetExpected)),
        },
    }
}

/// Decodes the numeric kind code and the opaque payload of a well-formed
/// envelope into one typed event.
pub fn type_event(raw: RawAction) -> (r: Result<Action, DecodeError>)
    requires
        raw.wf(),
    ensures
        r == spec_type_event(raw),
{
    let RawAction { action_type, level, msg, id, parent, text, fields, any_type } = raw;
    match action_type {
        RawActionType::Msg => Ok(Action::Msg { level: level.unwrap(), msg: msg.unwrap() }),
        RawActionType::Start => {
            let kind = ActionType::from_code(any_type.unwrap());
            match start_fields(kind, fields) {
                Err(e) => Err(e),
                Ok(start_type) => Ok(
                    Action::Start {
                        start_type,
                        id: id.unwrap(),
                        level: level.unwrap(),
                        parent: parent.unwrap(),
                        text: text.unwrap(),
                    },
                ),
            }
        },
        RawActionType::Result => {
            match result_fields(any_type.unwrap(), fields.unwrap()) {
                Err(e) => Err(e),
                Ok(fields) => Ok(Action::Result { id: id.unwrap(), fields }),
            }
        },
        RawActionType::Stop => Ok(Action::Stop { id: id.unwrap() }),
    }
}

/// What decoding one line of text into an envelope gives.
pub open spec fn spec_decode_line(s: Seq<char>) -> Result<RawAction, DecodeError> {
    match crate::json::json_of(s) {
        None => Err(DecodeError::Malformed),
        Some(doc) => spec_decode_envelope(doc),
    }
}

/// Parses one protocol line (the recognized prefix already stripped) into
/// the generic envelope.
pub fn decode_envelope(line: &str) -> (r: Result<RawAction, DecodeError>)
    ensures
        r == spec_decode_line(line@),
{
    match crate::json::parse_json(line) {
        None => Err(DecodeError::Malformed),
        Some(doc) => decode_envelope_value(doc),
    }
}

/// What parsing one protocol line all the way to a typed event gives.
pub open spec fn spec_parse_action(s: Seq<char>) -> Result<Action, DecodeError> {
    match spec_decode_line(s) {
        Err(e) => Err(e),
        Ok(raw) => spec_type_event(raw),
    }
}

impl Action {
    /// Parses one protocol line (prefix already stripped) into one typed
    /// event: envelope first, then the payload for the envelope's code.
    pub fn parse(s: &str) -> (r: Result<Action, DecodeError>)
        ensures
            r == spec_parse_action(s@),
    {
        match decode_envelope(s) {
            Err(e) => Err(e),
            Ok(raw) => {
                proof {
                    lemma_decoded_envelope_wf(crate::json::json_of(s@).unwrap());
                }
                type_event(raw)
            },
        }
    }
}

/// Builds the envelope that stands for an event. Decoding it gives the
/// event back exactly: with the typer's contract this states the round
/// trip for every event, whatever its payload.
pub fn encode_event(a: Action) -> (r: RawAction)
    ensures
        r.wf(),
        spec_type_event(r) == Ok::<Action, DecodeError>(a),
{
    match a {
        Action::Msg { level, msg } => RawAction {
            action_type: RawActionType::Msg,
            level: Some(level),
            msg: Some(msg),
            id: None,
            parent: None,
            text: None,
            fields: None,
            any_type: None,
        },
        Action::Start { start_type, id, level, parent, text } => {
            let (code, payload): (u8, Option<JsonValue>) = match start_type {
                StartFields::Unknown => (0, None),
                StartFields::CopyPath { path, origin, destination } => {
                    let v = vec![
                        JsonValue::Str(path),
                        JsonValue::Str(origin),
                        JsonValue::Str(destination),
                    ];
                    (100, Some(JsonValue::Arr(v)))
                },
                StartFields::FileTransfer { target } => {
                    let v = vec![JsonValue::Str(target)];
                    (101, Some(JsonValue::Arr(v)))
                },
                StartFields::Realise => (102, None),
                StartFields::CopyPaths => (103, None),
                StartFields::Builds => (104, None),
                StartFields::Build { target, source, val1, val2 } => {
                    let v = vec![
                        JsonValue::Str(target),
                        JsonValue::Str(source),
                        JsonValue::Uint(val1),
                        JsonValue::Uint(val2),
                    ];
                    (105, Some(JsonValue::Arr(v)))
                },
                StartFields::OptimiseStore => (106, None),
                StartFields::VerifyPaths => (107, None),
                StartFields::Substitute { source, target } => {
                    let v = vec![JsonValue::Str(source), JsonValue::Str(target)];
                    (108, Some(JsonValue::Arr(v)))
                },
                StartFields::QueryPathInfo => (109, None),
                StartFields::PostBuildHook => (110, None),
                StartFields::BuildWaiting => (111, None),
            };
            RawAction {
                action_type: RawActionType::Start,
                level: Some(level),
                msg: None,
                id: Some(id),
                parent: Some(parent),
                text: Some(text),
                fields: payload,
                any_type: Some(code),
            }
        },
        Action::Result { id, fields } => {
            let (code, payload): (u8, JsonValue) = match fields {
                ResultFields::BuildLogLine(line) => {
                    let v = vec![JsonValue::Str(line)];
                    (101, JsonValue::Arr(v))
                },
                ResultFields::SetPhase(phase) => {
                    let v = vec![JsonValue::Str(phase)];
                    (104, JsonValue::Arr(v))
                },
                ResultFields::Progress { done, expected, running, failed } => {
                    let v = vec![
                        JsonValue::Uint(done),
                        JsonValue::Uint(expected),
                        JsonValue::Uint(running),
                        JsonValue::Uint(failed),
                    ];
                    (105, JsonValue::Arr(v))
                },
                ResultFields::SetExpected { action, expected } => {
                    let kind_code = action.code();
                    let v = vec![JsonValue::Uint(kind_code as u64), JsonValue::Uint(expected)];
                    proof {
                        crate::action::lemma_action_type_code_round_trip(action);
                    }
                    (106, JsonValue::Arr(v))
                },
            };
            RawAction {
                action_type: RawActionType::Result,
                level: None,
                msg: None,
                id: Some(id),
                parent: None,
                text: None,
                fields: Some(payload),
                any_type: Some(code),
            }
        },
        Action::Stop { id } => RawAction {
            action_type: RawActionType::Stop,
            level: None,
            msg: None,
            id: Some(id),
            parent: None,
            text: None,
            fields: None,
            any_type: None,
        },
    }
}

/// A well-formed `start` envelope whose kind code announces a build and
/// whose payload is the array `[target, source, v1, v2]` types to a build
/// event carrying those four values, in that order.
pub proof fn lemma_start_build_positional(
    raw: RawAction,
    target: String,
    source: String,
    val1: u64,
    val2: u64,
)
    requires
        raw.wf(),
        raw.action_type == RawActionType::Start,
        raw.any_type == Some(105u8),
        raw.fields matches Some(JsonValue::Arr(arr)) && arr@ =~= seq![
            JsonValue::Str(target),
            JsonValue::Str(source),
            JsonValue::Uint(val1),
            JsonValue::Uint(val2),
        ],
    ensures
        spec_type_event(raw) == Ok::<Action, DecodeError>(
            Action::Start {
                start_type: StartFields::Build { target, source, val1, val2 },
                id: raw.id.unwrap(),
                level: raw.level.unwrap(),
                parent: raw.parent.unwrap(),
                text: raw.text.unwrap(),
            },
        ),
{
}

/// A `result` envelope with code 106 and payload `[kind_code, n]` types to
/// an expectation update for the kind that `kind_code` names, expecting `n`.
pub proof fn lemma_result_set_expected_positional(raw: RawAction, kind_code: u8, n: u64)
    requires
        raw.wf(),
        raw.action_type == RawActionType::Result,
        raw.any_type == Some(106u8),
        raw.fields matches Some(JsonValue::Arr(arr)) && arr@ =~= seq![
            JsonValue::Uint(kind_code as u64),
            JsonValue::Uint(n),
        ],
    ensures
        spec_type_event(raw) == Ok::<Action, DecodeError>(
            Action::Result {
                id: raw.id.unwrap(),
                fields: ResultFields::SetExpected {
                    action: ActionType::spec_from_code(kind_code),
                    expected: n,
                },
            },
        ),
{
}

} // verus!
