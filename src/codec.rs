use vstd::prelude::*;

use crate::message::{Envelope, MessageError, SocketMessage};

verus! {

/// The lower-case hexadecimal digit of `n`, for `n` below 16.
pub open spec fn hex_digit(n: u32) -> char {
    if n < 10 {
        ((n + 48) as u8) as char
    } else {
        ((n + 87) as u8) as char
    }
}

/// How one character is written inside a JSON string literal: a quote and a backslash
/// after a backslash; backspace, tab, line feed, form feed and carriage return as `\b`,
/// `\t`, `\n`, `\f`, `\r`; any other character below 0x20 as `\u00` and two lower-case
/// hexadecimal digits; every other character as it is.
pub open spec fn json_escape(c: char) -> Seq<char> {
    let n = c as u32;
    if c == '"' || c == '\\' {
        seq!['\\', c]
    } else if n == 8 {
        seq!['\\', 'b']
    } else if n == 9 {
        seq!['\\', 't']
    } else if n == 10 {
        seq!['\\', 'n']
    } else if n == 12 {
        seq!['\\', 'f']
    } else if n == 13 {
        seq!['\\', 'r']
    } else if n < 32 {
        seq!['\\', 'u', '0', '0', hex_digit(n / 16), hex_digit(n % 16)]
    } else {
        seq![c]
    }
}

/// The characters of `s`, each written as inside a JSON string literal.
pub open spec fn json_escaped(s: Seq<char>) -> Seq<char>
    decreases s.len(),
{
    if s.len() == 0 {
        Seq::empty()
    } else {
        json_escaped(s.drop_last()) + json_escape(s.last())
    }
}

/// The JSON string literal of the text `s`, quotes included.
pub open spec fn json_string(s: Seq<char>) -> Seq<char> {
    seq!['"'] + json_escaped(s) + seq!['"']
}

/// Relies on serde_json::to_string on a `str`: the text written as a JSON string literal,
/// each character escaped as `json_escape` says (serde_json's `format_escaped_str`).
/// Writing a `str` into serde_json's in-memory buffer cannot fail, so no error comes back.
#[verifier::external_body]
fn quote(s: &str) -> (r: String)
    ensures
        r@ == json_string(s@),
{
    serde_json::to_string(s).expect("a str is always written as JSON")
}

/// JSON string literals separated by commas.
pub open spec fn joined(l: Seq<Seq<char>>) -> Seq<char>
    decreases l.len(),
{
    if l.len() == 0 {
        Seq::empty()
    } else if l.len() == 1 {
        json_string(l[0])
    } else {
        joined(l.drop_last()) + seq![','] + json_string(l.last())
    }
}

/// The value of the `type` member for each variant.
pub open spec fn tag_of(e: Envelope) -> Seq<char> {
    match e {
        Envelope::Message { .. } => "Message"@,
        Envelope::SetName { .. } => "SetName"@,
        Envelope::RequestMe => "RequestMe"@,
        Envelope::Me { .. } => "Me"@,
        Envelope::RequestUsers => "RequestUsers"@,
        Envelope::Users { .. } => "Users"@,
        Envelope::Error { .. } => "Error"@,
    }
}

/// What follows the `type` member in the frame of each variant.
pub open spec fn body_of(e: Envelope) -> Seq<char> {
    match e {
        Envelope::Message { from, to, content } => ",\"from\":"@ + json_string(from)
            + ",\"to\":"@ + json_string(to) + ",\"content\":"@ + json_string(content) + "}"@,
        Envelope::SetName { name } => ",\"name\":"@ + json_string(name) + "}"@,
        Envelope::RequestMe => "}"@,
        Envelope::Me { name } => ",\"name\":"@ + json_string(name) + "}"@,
        Envelope::RequestUsers => "}"@,
        Envelope::Users { list } => ",\"list\":["@ + joined(list) + "]}"@,
        Envelope::Error { msg } => ",\"err\":{\"msg\":"@ + json_string(msg) + "}}"@,
    }
}

/// The frame of an envelope: a JSON object whose `type` member names the variant,
/// followed by the variant's fields in order, with no white space.
pub open spec fn enc(e: Envelope) -> Seq<char> {
    "{\"type\":"@ + json_string(tag_of(e)) + body_of(e)
}

fn push_string(out: &mut String, s: &str)
    ensures
        final(out)@ == old(out)@ + json_string(s@),
{
    let q = quote(s);
    out.append(q.as_str());
}

fn push_list(out: &mut String, list: &Vec<String>)
    ensures
        final(out)@ == old(out)@ + joined(list@.map_values(|x: String| x@)),
{
    let ghost l = list@.map_values(|x: String| x@);
    let mut k: usize = 0;
    assert(l.take(0) =~= Seq::<Seq<char>>::empty());
    assert(out@ =~= old(out)@ + joined(l.take(0)));
    while k < list.len()
        invariant
            l == list@.map_values(|x: String| x@),
            k <= list@.len(),
            out@ == old(out)@ + joined(l.take(k as int)),
        decreases list@.len() - k,
    {
        if k > 0 {
            out.append(",");
            proof {
                reveal_strlit(",");
            }
        }
        push_string(out, list[k].as_str());
        let ghost t = l.take(k + 1);
        assert(t.drop_last() =~= l.take(k as int));
        assert(t.last() == list@[k as int]@);
        assert(out@ =~= old(out)@ + joined(t));
        k = k + 1;
    }
    assert(l.take(k as int) =~= l);
}

/// Writes an envelope as a frame.
pub fn encode(m: &SocketMessage) -> (r: String)
    ensures
        r@ == enc(m@),
{
    let mut out = String::new();
    out.append("{\"type\":");
    match m {
        SocketMessage::Message { from, to, content } => {
            push_string(&mut out, "Message");
            out.append(",\"from\":");
            push_string(&mut out, from.as_str());
            out.append(",\"to\":");
            push_string(&mut out, to.as_str());
            out.append(",\"content\":");
            push_string(&mut out, content.as_str());
            out.append("}");
        },
        SocketMessage::SetName { name } => {
            push_string(&mut out, "SetName");
            out.append(",\"name\":");
            push_string(&mut out, name.as_str());
            out.append("}");
        },
        SocketMessage::RequestMe => {
            push_string(&mut out, "RequestMe");
            out.append("}");
        },
        SocketMessage::Me { name } => {
            push_string(&mut out, "Me");
            out.append(",\"name\":");
            push_string(&mut out, name.as_str());
            out.append("}");
        },
        SocketMessage::RequestUsers => {
            push_string(&mut out, "RequestUsers");
            out.append("}");
        },
        SocketMessage::Users { list } => {
            push_string(&mut out, "Users");
            out.append(",\"list\":[");
            push_list(&mut out, list);
            out.append("]}");
        },
        SocketMessage::Error { err } => {
            push_string(&mut out, "Error");
            out.append(",\"err\":{\"msg\":");
            push_string(&mut out, err.msg.as_str());
            out.append("}}");
        },
    }
    assert(out@ =~= enc(m@));
    out
}

/// A JSON value as an envelope reads it: a string, an array (each item a string or not),
/// an object (each member's value a string or not), or anything else.
pub enum JsonValue {
    Str(String),
    List(Vec<Option<String>>),
    Object(Vec<(String, Option<String>)>),
    Other,
}

/// The mathematical value of a JSON value.
pub enum Json {
    Str(Seq<char>),
    List(Seq<Option<Seq<char>>>),
    Object(Seq<(Seq<char>, Option<Seq<char>>)>),
    Other,
}

pub open spec fn opt_view(o: Option<String>) -> Option<Seq<char>> {
    match o {
        Some(s) => Some(s@),
        None => None,
    }
}

impl View for JsonValue {
    type V = Json;

    open spec fn view(&self) -> Json {
        match self {
            JsonValue::Str(s) => Json::Str(s@),
            JsonValue::List(l) => Json::List(l@.map_values(|o: Option<String>| opt_view(o))),
            JsonValue::Object(m) => Json::Object(
                m@.map_values(|e: (String, Option<String>)| (e.0@, opt_view(e.1))),
            ),
            JsonValue::Other => Json::Other,
        }
    }
}

/// The members of a JSON object, key and value.
pub type Members = Seq<(Seq<char>, Json)>;

pub open spec fn members_view(fs: Seq<(String, JsonValue)>) -> Members {
    fs.map_values(|e: (String, JsonValue)| (e.0@, e.1@))
}

/// The members of the JSON object that serde_json reads from the text `s`; `None` where
/// `s` is no JSON text or its value is no object.
pub uninterp spec fn json_object_of(s: Seq<char>) -> Option<Members>;

/// Relies on serde_json::from_str::<serde_json::Value>: the JSON text `s` read as a value;
/// the members of that value where it is an object, in the order of serde_json's map, each
/// value told apart by its variant (and `Value::as_str` on the items one level down).
#[verifier::external_body]
fn parse_json_object(s: &str) -> (r: Option<Vec<(String, JsonValue)>>)
    ensures
        match r {
            Some(fs) => json_object_of(s@) == Some(members_view(fs@)),
            None => json_object_of(s@) is None,
        },
{
    match serde_json::from_str::<serde_json::Value>(s) {
        Ok(serde_json::Value::Object(m)) => Some(m.into_iter().map(|(k, v)| (k, match v {
            serde_json::Value::String(x) => JsonValue::Str(x),
            serde_json::Value::Array(a) => JsonValue::List(
                a.iter().map(|x| x.as_str().map(String::from)).collect(),
            ),
            serde_json::Value::Object(o) => JsonValue::Object(
                o.iter().map(|(k, x)| (k.clone(), x.as_str().map(String::from))).collect(),
            ),
            _ => JsonValue::Other,
        })).collect()),
        _ => None,
    }
}

/// `i` is the first member whose key is `key`.
pub open spec fn first_key<V>(fs: Seq<(Seq<char>, V)>, key: Seq<char>, i: int) -> bool {
    0 <= i < fs.len() && fs[i].0 == key && forall|j: int| 0 <= j < i ==> fs[j].0 != key
}

/// The value of the first member whose key is `key`.
pub open spec fn member<V>(fs: Seq<(Seq<char>, V)>, key: Seq<char>) -> Option<V> {
    if exists|i: int| first_key(fs, key, i) {
        Some(fs[choose|i: int| first_key(fs, key, i)].1)
    } else {
        None
    }
}

proof fn lemma_first_key<V>(fs: Seq<(Seq<char>, V)>, key: Seq<char>, i: int)
    requires
        first_key(fs, key, i),
    ensures
        member(fs, key) == Some(fs[i].1),
{
    let k = choose|k: int| first_key(fs, key, k);
    assert(k == i) by {
        if k < i {
            assert(fs[k].0 != key);
        } else if k > i {
            assert(fs[i].0 != key);
        }
    }
}

/// The member `key` where it is a string.
pub open spec fn text_member(fs: Members, key: Seq<char>) -> Option<Seq<char>> {
    match member(fs, key) {
        Some(Json::Str(s)) => Some(s),
        _ => None,
    }
}

/// The member `key` where it is an array of strings.
pub open spec fn texts_member(fs: Members, key: Seq<char>) -> Option<Seq<Seq<char>>> {
    match member(fs, key) {
        Some(Json::List(l)) => if forall|i: int| 0 <= i < l.len() ==> l[i] is Some {
            Some(l.map_values(|o: Option<Seq<char>>| o->Some_0))
        } else {
            None
        },
        _ => None,
    }
}

/// The member `key` where it is an object whose `msg` member is a string.
pub open spec fn error_member(fs: Members, key: Seq<char>) -> Option<Seq<char>> {
    match member(fs, key) {
        Some(Json::Object(m)) => match member(m, "msg"@) {
            Some(Some(s)) => Some(s),
            _ => None,
        },
        _ => None,
    }
}

/// The envelope that the members of an object describe: the `type` member names the
/// variant and the variant's fields are read from the members named after them; `None`
/// where the tag is unknown or a field is missing or of the wrong kind.
pub open spec fn envelope_from(fs: Members) -> Option<Envelope> {
    match text_member(fs, "type"@) {
        Some(t) => if t == "Message"@ {
            match (text_member(fs, "from"@), text_member(fs, "to"@), text_member(fs, "content"@)) {
                (Some(from), Some(to), Some(content)) => Some(
                    Envelope::Message { from, to, content },
                ),
                _ => None,
            }
        } else if t == "SetName"@ {
            match text_member(fs, "name"@) {
                Some(name) => Some(Envelope::SetName { name }),
                None => None,
            }
        } else if t == "RequestMe"@ {
            Some(Envelope::RequestMe)
        } else if t == "Me"@ {
            match text_member(fs, "name"@) {
                Some(name) => Some(Envelope::Me { name }),
                None => None,
            }
        } else if t == "RequestUsers"@ {
            Some(Envelope::RequestUsers)
        } else if t == "Users"@ {
            match texts_member(fs, "list"@) {
                Some(list) => Some(Envelope::Users { list }),
                None => None,
            }
        } else if t == "Error"@ {
            match error_member(fs, "err"@) {
                Some(msg) => Some(Envelope::Error { msg }),
                None => None,
            }
        } else {
            None
        },
        None => None,
    }
}

/// The envelope a frame decodes to, if any.
pub open spec fn decoded(s: Seq<char>) -> Option<Envelope> {
    match json_object_of(s) {
        Some(fs) => envelope_from(fs),
        None => None,
    }
}

/// The reason given for a frame that decodes to no envelope.
pub open spec fn malformed() -> Seq<char> {
    "serde_json::error::Error"@
}

/// An object whose `type` member is no string, or names no variant, describes no envelope.
pub proof fn lemma_unknown_tag_rejected(fs: Members)
    requires
        text_member(fs, "type"@) is None || {
            let t = text_member(fs, "type"@)->Some_0;
            t != "Message"@ && t != "SetName"@ && t != "RequestMe"@ && t != "Me"@ && t
                != "RequestUsers"@ && t != "Users"@ && t != "Error"@
        },
    ensures
        envelope_from(fs) is None,
{
}

/// An object naming a variant but lacking one of its fields describes no envelope.
pub proof fn lemma_missing_field_rejected(fs: Members, field: Seq<char>)
    requires
        member(fs, field) is None,
        (text_member(fs, "type"@) == Some("Message"@) && (field == "from"@ || field == "to"@
            || field == "content"@)) || ((text_member(fs, "type"@) == Some("SetName"@)
            || text_member(fs, "type"@) == Some("Me"@)) && field == "name"@) || (text_member(
            fs,
            "type"@,
        ) == Some("Users"@) && field == "list"@) || (text_member(fs, "type"@) == Some(
            "Error"@,
        ) && field == "err"@),
    ensures
        envelope_from(fs) is None,
{
    reveal_strlit("Message");
    reveal_strlit("SetName");
    reveal_strlit("RequestMe");
    reveal_strlit("Me");
    reveal_strlit("RequestUsers");
    reveal_strlit("Users");
    reveal_strlit("Error");
    assert("Message"@.len() == 7 && "SetName"@.len() == 7 && "Me"@.len() == 2);
    assert("RequestMe"@.len() == 9 && "RequestUsers"@.len() == 12);
    assert("Users"@.len() == 5 && "Error"@.len() == 5);
    assert("SetName"@[0] != "Message"@[0]);
    assert("Users"@[0] != "Error"@[0]);
}

/// Position of the first member whose key is `key`.
fn find_member<V>(fs: &Vec<(String, V)>, key: &str) -> (r: Option<usize>)
    ensures
        match r {
            Some(i) => i < fs@.len() && fs@[i as int].0@ == key@ && forall|j: int|
                0 <= j < i ==> fs@[j].0@ != key@,
            None => forall|j: int| 0 <= j < fs@.len() ==> fs@[j].0@ != key@,
        },
{
    let k = key.to_owned();
    let mut i: usize = 0;
    while i < fs.len()
        invariant
            k@ == key@,
            i <= fs@.len(),
            forall|j: int| 0 <= j < i ==> fs@[j].0@ != key@,
        decreases fs@.len() - i,
    {
        if fs[i].0 == k {
            return Some(i);
        }
        i = i + 1;
    }
    None
}

/// The member `key` where it is a string.
fn text_of(fs: &Vec<(String, JsonValue)>, key: &str) -> (r: Option<String>)
    ensures
        opt_view(r) == text_member(members_view(fs@), key@),
{
    let ghost m = members_view(fs@);
    match find_member(fs, key) {
        Some(i) => {
            proof {
                assert(first_key(m, key@, i as int));
                lemma_first_key(m, key@, i as int);
            }
            match &fs[i].1 {
                JsonValue::Str(s) => Some(s.clone()),
                _ => None,
            }
        },
        None => {
            proof {
                if exists|i: int| first_key(m, key@, i) {
                    let i = choose|i: int| first_key(m, key@, i);
                    assert(m[i].0 == fs@[i].0@);
                }
            }
            None
        },
    }
}


/// The member `key` where it is an array of strings.
fn texts_of(fs: &Vec<(String, JsonValue)>, key: &str) -> (r: Option<Vec<String>>)
    ensures
        match r {
            Some(l) => texts_member(members_view(fs@), key@) == Some(
                l@.map_values(|x: String| x@),
            ),
            None => texts_member(members_view(fs@), key@) is None,
        },
{
    let ghost m = members_view(fs@);
    match find_member(fs, key) {
        Some(i) => {
            proof {
                assert(first_key(m, key@, i as int));
                lemma_first_key(m, key@, i as int);
            }
            match &fs[i].1 {
                JsonValue::List(items) => {
                    let ghost lv = items@.map_values(|o: Option<String>| opt_view(o));
                    assert(m[i as int].1 == Json::List(lv));
                    assert(member(m, key@) == Some(Json::List(lv)));
                    let mut out: Vec<String> = Vec::new();
                    let mut k: usize = 0;
                    while k < items.len()
                        invariant
                            lv == items@.map_values(|o: Option<String>| opt_view(o)),
                            member(members_view(fs@), key@) == Some(Json::List(lv)),
                            k <= items@.len(),
                            out@.len() == k,
                            forall|j: int| 0 <= j < k ==> lv[j] == Some(out@[j]@),
                        decreases items@.len() - k,
                    {
                        match &items[k] {
                            Some(x) => out.push(x.clone()),
                            None => {
                                assert(lv[k as int] is None);
                                assert(!(forall|j: int| 0 <= j < lv.len() ==> lv[j] is Some));
                                return None;
                            },
                        }
                        k = k + 1;
                    }
                    assert(out@.map_values(|x: String| x@) =~= lv.map_values(
                        |o: Option<Seq<char>>| o->Some_0,
                    ));
                    Some(out)
                },
                _ => None,
            }
        },
        None => {
            proof {
                if exists|i: int| first_key(m, key@, i) {
                    let i = choose|i: int| first_key(m, key@, i);
                    assert(m[i].0 == fs@[i].0@);
                }
            }
            None
        },
    }
}

/// The member `key` where it is an object whose `msg` member is a string.
fn error_of(fs: &Vec<(String, JsonValue)>, key: &str) -> (r: Option<String>)
    ensures
        opt_view(r) == error_member(members_view(fs@), key@),
{
    let ghost m = members_view(fs@);
    match find_member(fs, key) {
        Some(i) => {
            proof {
                assert(first_key(m, key@, i as int));
                lemma_first_key(m, key@, i as int);
            }
            match &fs[i].1 {
                JsonValue::Object(inner) => {
                    let ghost iv = inner@.map_values(
                        |e: (String, Option<String>)| (e.0@, opt_view(e.1)),
                    );
                    match find_member(inner, "msg") {
                        Some(j) => {
                            proof {
                                assert(first_key(iv, "msg"@, j as int));
                                lemma_first_key(iv, "msg"@, j as int);
                            }
                            match &inner[j].1 {
                                Some(x) => Some(x.clone()),
                                None => None,
                            }
                        },
                        None => {
                            proof {
                                if exists|j: int| first_key(iv, "msg"@, j) {
                                    let j = choose|j: int| first_key(iv, "msg"@, j);
                                    assert(iv[j].0 == inner@[j].0@);
                                }
                            }
                            None
                        },
                    }
                },
                _ => None,
            }
        },
        None => {
            proof {
                if exists|i: int| first_key(m, key@, i) {
                    let i = choose|i: int| first_key(m, key@, i);
                    assert(m[i].0 == fs@[i].0@);
                }
            }
            None
        },
    }
}

/// Reads the envelope that the members of a JSON object describe.
pub fn envelope_of(fs: &Vec<(String, JsonValue)>) -> (r: Option<SocketMessage>)
    ensures
        match r {
            Some(m) => envelope_from(members_view(fs@)) == Some(m@),
            None => envelope_from(members_view(fs@)) is None,
        },
{
    let tag = match text_of(fs, "type") {
        Some(t) => t,
        None => return None,
    };
    proof {
        reveal_strlit("Message");
        reveal_strlit("SetName");
        reveal_strlit("RequestMe");
        reveal_strlit("Me");
        reveal_strlit("RequestUsers");
        reveal_strlit("Users");
        reveal_strlit("Error");
    }
    if tag == "Message".to_owned() {
        match (text_of(fs, "from"), text_of(fs, "to"), text_of(fs, "content")) {
            (Some(from), Some(to), Some(content)) => Some(
                SocketMessage::Message { from, to, content },
            ),
            _ => None,
        }
    } else if tag == "SetName".to_owned() {
        match text_of(fs, "name") {
            Some(name) => Some(SocketMessage::SetName { name }),
            None => None,
        }
    } else if tag == "RequestMe".to_owned() {
        Some(SocketMessage::RequestMe)
    } else if tag == "Me".to_owned() {
        match text_of(fs, "name") {
            Some(name) => Some(SocketMessage::Me { name }),
            None => None,
        }
    } else if tag == "RequestUsers".to_owned() {
        Some(SocketMessage::RequestUsers)
    } else if tag == "Users".to_owned() {
        match texts_of(fs, "list") {
            Some(list) => Some(SocketMessage::Users { list }),
            None => None,
        }
    } else if tag == "Error".to_owned() {
        match error_of(fs, "err") {
            Some(msg) => Some(SocketMessage::Error { err: MessageError { msg } }),
            None => None,
        }
    } else {
        None
    }
}

/// Reads a frame: JSON text whose object names the variant in its `type` member.
pub fn decode(frame: &str) -> (r: Result<SocketMessage, MessageError>)
    ensures
        match r {
            Ok(m) => decoded(frame@) == Some(m@),
            Err(e) => decoded(frame@) is None && e.msg@ == malformed(),
        },
{
    let parsed = match parse_json_object(frame) {
        Some(fs) => envelope_of(&fs),
        None => None,
    };
    match parsed {
        Some(m) => Ok(m),
        None => Err(MessageError { msg: "serde_json::error::Error".to_owned() }),
    }
}
} // verus!
