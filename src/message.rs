use vstd::prelude::*;
use vstd::string::StringSliceAdditionalSpecFns;
use crate::bytes::{append_bytes, copy_bytes, copy_frames, frames_view};
use crate::json::{json_quote, json_str_field, json_string_field, json_string_text};

verus! {

/// The header of a protocol message.
pub struct MsgHeader {
    pub msg_id: String,
    pub username: String,
    pub session: String,
    /// ISO-8601 time at which the message was made, if known.
    pub date: Option<String>,
    pub msg_type: String,
    pub version: String,
}

/// What a header holds, as text.
pub struct HeaderModel {
    pub msg_id: Seq<char>,
    pub username: Seq<char>,
    pub session: Seq<char>,
    pub date: Option<Seq<char>>,
    pub msg_type: Seq<char>,
    pub version: Seq<char>,
}

pub open spec fn opt_text(s: Option<String>) -> Option<Seq<char>> {
    match s {
        Some(t) => Some(t@),
        None => None,
    }
}

impl View for MsgHeader {
    type V = HeaderModel;

    open spec fn view(&self) -> HeaderModel {
        HeaderModel {
            msg_id: self.msg_id@,
            username: self.username@,
            session: self.session@,
            date: opt_text(self.date),
            msg_type: self.msg_type@,
            version: self.version@,
        }
    }
}

/// One message: routing identities, a header, the header of the message it
/// answers, and JSON texts of metadata and content.
pub struct Message {
    pub identities: Vec<Vec<u8>>,
    pub header: MsgHeader,
    pub parent_header: Option<MsgHeader>,
    pub metadata: Vec<u8>,
    pub content: Vec<u8>,
}

pub struct MessageModel {
    pub identities: Seq<Seq<u8>>,
    pub header: HeaderModel,
    pub parent_header: Option<HeaderModel>,
    pub metadata: Seq<u8>,
    pub content: Seq<u8>,
}

pub open spec fn opt_header(h: Option<MsgHeader>) -> Option<HeaderModel> {
    match h {
        Some(x) => Some(x@),
        None => None,
    }
}

impl View for Message {
    type V = MessageModel;

    open spec fn view(&self) -> MessageModel {
        MessageModel {
            identities: frames_view(self.identities@),
            header: self.header@,
            parent_header: opt_header(self.parent_header),
            metadata: self.metadata@,
            content: self.content@,
        }
    }
}

/// The protocol version that every header carries.
pub open spec fn protocol_version() -> Seq<char> {
    "5.0"@
}

/// The JSON text of an optional string: the quoted string, or `null`.
pub open spec fn date_text(d: Option<Seq<char>>) -> Seq<u8> {
    match d {
        Some(s) => json_string_text(s),
        None => "null".spec_bytes(),
    }
}

/// The JSON object text of a header, fields in their fixed order.
pub open spec fn header_text(h: HeaderModel) -> Seq<u8> {
    "{\"msg_id\":".spec_bytes() + json_string_text(h.msg_id)
        + ",\"username\":".spec_bytes() + json_string_text(h.username)
        + ",\"session\":".spec_bytes() + json_string_text(h.session)
        + ",\"date\":".spec_bytes() + date_text(h.date)
        + ",\"msg_type\":".spec_bytes() + json_string_text(h.msg_type)
        + ",\"version\":".spec_bytes() + json_string_text(h.version)
        + "}".spec_bytes()
}

/// The JSON text of a parent header: its object, or `null` when absent.
pub open spec fn parent_text(p: Option<HeaderModel>) -> Seq<u8> {
    match p {
        Some(h) => header_text(h),
        None => "null".spec_bytes(),
    }
}

/// The header that a JSON text describes: the five string fields must be
/// there; the date is kept where it is a string.
pub open spec fn parsed_header(text: Seq<u8>) -> Option<HeaderModel> {
    let id = json_string_field(text, "msg_id"@);
    let user = json_string_field(text, "username"@);
    let session = json_string_field(text, "session"@);
    let kind = json_string_field(text, "msg_type"@);
    let version = json_string_field(text, "version"@);
    if id.is_some() && user.is_some() && session.is_some() && kind.is_some() && version.is_some() {
        Some(HeaderModel {
            msg_id: id.unwrap(),
            username: user.unwrap(),
            session: session.unwrap(),
            date: json_string_field(text, "date"@),
            msg_type: kind.unwrap(),
            version: version.unwrap(),
        })
    } else {
        None
    }
}


/// Relies on uuid's `Uuid::new_v4` and its hyphenated text: a random id, 36
/// characters long, hyphens at 8, 13, 18 and 23, and the version digit `4`
/// after the second hyphen.
#[verifier::external_body]
fn fresh_msg_id() -> (r: String)
    ensures
        r@.len() == 36,
        r@[8] == '-' && r@[13] == '-' && r@[18] == '-' && r@[23] == '-',
        r@[14] == '4',
{
    uuid::Uuid::new_v4().hyphenated().to_string()
}

/// Relies on chrono's `Utc::now` and `to_rfc3339`: the current time as text.
#[verifier::external_body]
fn now_timestamp() -> (r: String) {
    chrono::Utc::now().to_rfc3339()
}

fn copy_opt_string(s: &Option<String>) -> (r: Option<String>)
    ensures
        opt_text(r) == opt_text(*s),
{
    match s {
        Some(t) => Some(t.clone()),
        None => None,
    }
}

impl MsgHeader {
    /// A header with a fresh id and the current time, in `session`.
    pub fn new(msg_type: &str, session: &str) -> (r: MsgHeader)
        ensures
            r@.msg_id.len() == 36,
            r@.msg_type == msg_type@,
            r@.session == session@,
            r@.username == Seq::<char>::empty(),
            r@.version == protocol_version(),
            r@.date.is_some(),
    {
        MsgHeader {
            msg_id: fresh_msg_id(),
            username: String::new(),
            session: session.to_owned(),
            date: Some(now_timestamp()),
            msg_type: msg_type.to_owned(),
            version: "5.0".to_owned(),
        }
    }

    /// A copy of the header.
    pub fn duplicate(&self) -> (r: MsgHeader)
        ensures
            r@ == self@,
    {
        MsgHeader {
            msg_id: self.msg_id.clone(),
            username: self.username.clone(),
            session: self.session.clone(),
            date: copy_opt_string(&self.date),
            msg_type: self.msg_type.clone(),
            version: self.version.clone(),
        }
    }

    /// The JSON object text of the header.
    pub fn to_json(&self) -> (r: Vec<u8>)
        ensures
            r@ == header_text(self@),
    {
        let mut out: Vec<u8> = Vec::new();
        append_bytes(&mut out, "{\"msg_id\":".as_bytes());
        append_bytes(&mut out, json_quote(self.msg_id.as_str()).as_slice());
        append_bytes(&mut out, ",\"username\":".as_bytes());
        append_bytes(&mut out, json_quote(self.username.as_str()).as_slice());
        append_bytes(&mut out, ",\"session\":".as_bytes());
        append_bytes(&mut out, json_quote(self.session.as_str()).as_slice());
        append_bytes(&mut out, ",\"date\":".as_bytes());
        match &self.date {
            Some(d) => append_bytes(&mut out, json_quote(d.as_str()).as_slice()),
            None => append_bytes(&mut out, "null".as_bytes()),
        }
        append_bytes(&mut out, ",\"msg_type\":".as_bytes());
        append_bytes(&mut out, json_quote(self.msg_type.as_str()).as_slice());
        append_bytes(&mut out, ",\"version\":".as_bytes());
        append_bytes(&mut out, json_quote(self.version.as_str()).as_slice());
        append_bytes(&mut out, "}".as_bytes());
        out
    }

    /// The header that a JSON text describes, if it has every required field.
    pub fn from_json(text: &[u8]) -> (r: Option<MsgHeader>)
        ensures
            match r {
                Some(h) => parsed_header(text@) == Some(h@),
                None => parsed_header(text@).is_none(),
            },
    {
        let id = json_str_field(text, "msg_id");
        let user = json_str_field(text, "username");
        let session = json_str_field(text, "session");
        let kind = json_str_field(text, "msg_type");
        let version = json_str_field(text, "version");
        match (id, user, session, kind, version) {
            (Some(id), Some(user), Some(session), Some(kind), Some(version)) => Some(MsgHeader {
                msg_id: id,
                username: user,
                session,
                date: json_str_field(text, "date"),
                msg_type: kind,
                version,
            }),
            _ => None,
        }
    }
}

/// The content of a status message announcing `state`.
pub open spec fn status_text(state: Seq<char>) -> Seq<u8> {
    "{\"execution_state\":".spec_bytes() + json_string_text(state) + "}".spec_bytes()
}

/// `r` answers `parent` with a message of type `msg_type` carrying `content`:
/// same identities and session, a fresh header with a new 36-character id, the parent's header as its
/// parent, and empty metadata.
pub open spec fn is_reply(r: MessageModel, parent: MessageModel, msg_type: Seq<char>, content: Seq<u8>) -> bool {
    &&& r.identities == parent.identities
    &&& r.header.msg_id.len() == 36
    &&& r.header.session == parent.header.session
    &&& r.header.msg_type == msg_type
    &&& r.header.username == Seq::<char>::empty()
    &&& r.header.version == protocol_version()
    &&& r.header.date.is_some()
    &&& r.parent_header == Some(parent.header)
    &&& r.metadata == "{}".spec_bytes()
    &&& r.content == content
}

impl Message {
    /// A reply to `parent` of type `msg_type` with the given content.
    pub fn prepare_reply(msg_type: &str, parent: &Message, content: Vec<u8>) -> (r: Message)
        ensures
            is_reply(r@, parent@, msg_type@, content@),
    {
        Message {
            identities: copy_frames(parent.identities.as_slice()),
            header: MsgHeader::new(msg_type, parent.header.session.as_str()),
            parent_header: Some(parent.header.duplicate()),
            metadata: copy_bytes("{}".as_bytes()),
            content,
        }
    }

    /// The status message that announces `state` while `parent` is handled.
    pub fn status(state: &str, parent: &Message) -> (r: Message)
        ensures
            is_reply(r@, parent@, "status"@, status_text(state@)),
    {
        let mut content: Vec<u8> = Vec::new();
        append_bytes(&mut content, "{\"execution_state\":".as_bytes());
        append_bytes(&mut content, json_quote(state).as_slice());
        append_bytes(&mut content, "}".as_bytes());
        Message::prepare_reply("status", parent, content)
    }
}

} // verus!
