//! The signed token ("nwt" event), its canonical serialization and its id.
use vstd::prelude::*;
use vstd::string::StringExecFns;
use vstd::string::StringSliceAdditionalSpecFns;
use crate::digest::{sha256_hex, sha256_string};
use crate::hex::hex_lower_char;
use crate::text::{
    ascii_eq_ignore_case, ascii_upper, collapse_comma_space, debug_escaped, debug_list, debug_str,
    debug_strings, decimal, eq_ignore_ascii_case, join_comma, push_debug_strings, push_decimal,
    replace_comma_space,
};

verus! {

/// An HTTP request method.
#[derive(Clone, Copy, Debug, PartialEq, Eq, Structural)]
pub enum Method {
    Get,
    Put,
    Post,
    Delete,
    Options,
    Head,
    Trace,
    Connect,
    Patch,
}

impl Method {
    /// The method's name as it is written in a request: `"GET"`, `"PUT"`, ...
    pub open spec fn name(self) -> Seq<char> {
        match self {
            Method::Get => "GET"@,
            Method::Put => "PUT"@,
            Method::Post => "POST"@,
            Method::Delete => "DELETE"@,
            Method::Options => "OPTIONS"@,
            Method::Head => "HEAD"@,
            Method::Trace => "TRACE"@,
            Method::Connect => "CONNECT"@,
            Method::Patch => "PATCH"@,
        }
    }

    /// The variant's name as `{:?}` shows it: `"Get"`, `"Put"`, ...
    pub open spec fn debug_name(self) -> Seq<char> {
        match self {
            Method::Get => "Get"@,
            Method::Put => "Put"@,
            Method::Post => "Post"@,
            Method::Delete => "Delete"@,
            Method::Options => "Options"@,
            Method::Head => "Head"@,
            Method::Trace => "Trace"@,
            Method::Connect => "Connect"@,
            Method::Patch => "Patch"@,
        }
    }

    /// The method's name as it is written in a request.
    pub fn as_str(self) -> (r: &'static str)
        ensures
            r@ == self.name(),
    {
        match self {
            Method::Get => "GET",
            Method::Put => "PUT",
            Method::Post => "POST",
            Method::Delete => "DELETE",
            Method::Options => "OPTIONS",
            Method::Head => "HEAD",
            Method::Trace => "TRACE",
            Method::Connect => "CONNECT",
            Method::Patch => "PATCH",
        }
    }

    /// The variant's name as `{:?}` shows it.
    pub fn debug_str(self) -> (r: &'static str)
        ensures
            r@ == self.debug_name(),
    {
        match self {
            Method::Get => "Get",
            Method::Put => "Put",
            Method::Post => "Post",
            Method::Delete => "Delete",
            Method::Options => "Options",
            Method::Head => "Head",
            Method::Trace => "Trace",
            Method::Connect => "Connect",
            Method::Patch => "Patch",
        }
    }
}

/// The method that a name stands for, ASCII letters compared without case
/// (`"get"`, `"Get"` and `"GET"` all stand for `Get`); `None` for any other
/// text.
pub open spec fn method_named(s: Seq<char>) -> Option<Method> {
    if eq_ignore_ascii_case(s, "GET"@) {
        Some(Method::Get)
    } else if eq_ignore_ascii_case(s, "PUT"@) {
        Some(Method::Put)
    } else if eq_ignore_ascii_case(s, "POST"@) {
        Some(Method::Post)
    } else if eq_ignore_ascii_case(s, "DELETE"@) {
        Some(Method::Delete)
    } else if eq_ignore_ascii_case(s, "OPTIONS"@) {
        Some(Method::Options)
    } else if eq_ignore_ascii_case(s, "HEAD"@) {
        Some(Method::Head)
    } else if eq_ignore_ascii_case(s, "TRACE"@) {
        Some(Method::Trace)
    } else if eq_ignore_ascii_case(s, "CONNECT"@) {
        Some(Method::Connect)
    } else if eq_ignore_ascii_case(s, "PATCH"@) {
        Some(Method::Patch)
    } else {
        None
    }
}

impl Method {
    /// Reads a method name, ASCII letters without case.
    pub fn from_name(s: &str) -> (r: Option<Method>)
        ensures
            r == method_named(s@),
    {
        if ascii_eq_ignore_case(s, "GET") {
            Some(Method::Get)
        } else if ascii_eq_ignore_case(s, "PUT") {
            Some(Method::Put)
        } else if ascii_eq_ignore_case(s, "POST") {
            Some(Method::Post)
        } else if ascii_eq_ignore_case(s, "DELETE") {
            Some(Method::Delete)
        } else if ascii_eq_ignore_case(s, "OPTIONS") {
            Some(Method::Options)
        } else if ascii_eq_ignore_case(s, "HEAD") {
            Some(Method::Head)
        } else if ascii_eq_ignore_case(s, "TRACE") {
            Some(Method::Trace)
        } else if ascii_eq_ignore_case(s, "CONNECT") {
            Some(Method::Connect)
        } else if ascii_eq_ignore_case(s, "PATCH") {
            Some(Method::Patch)
        } else {
            None
        }
    }
}

/// Reading a method's own name gives the method back.
pub proof fn lemma_method_name_round_trip(m: Method)
    ensures
        method_named(m.name()) == Some(m),
{
    reveal_strlit("GET");
    reveal_strlit("PUT");
    reveal_strlit("POST");
    reveal_strlit("DELETE");
    reveal_strlit("OPTIONS");
    reveal_strlit("HEAD");
    reveal_strlit("TRACE");
    reveal_strlit("CONNECT");
    reveal_strlit("PATCH");
    let n = m.name();
    assert(eq_ignore_ascii_case(n, n));
    if m != Method::Get {
        assert(!eq_ignore_ascii_case(n, "GET"@)) by {
            if n.len() == 3 {
                assert(ascii_upper(n[0]) != ascii_upper("GET"@[0]));
            }
        }
    }
    if m != Method::Put && m != Method::Get {
        assert(!eq_ignore_ascii_case(n, "PUT"@)) by {
            if n.len() == 3 {
                assert(ascii_upper(n[0]) != ascii_upper("PUT"@[0]));
            }
        }
    }
    if m != Method::Post && m != Method::Put && m != Method::Get {
        assert(!eq_ignore_ascii_case(n, "POST"@)) by {
            if n.len() == 4 {
                assert(ascii_upper(n[0]) != ascii_upper("POST"@[0]) || ascii_upper(n[1])
                    != ascii_upper("POST"@[1]));
            }
        }
    }
    if m == Method::Patch {
        assert(!eq_ignore_ascii_case(n, "DELETE"@));
        assert(!eq_ignore_ascii_case(n, "OPTIONS"@));
        assert(!eq_ignore_ascii_case(n, "HEAD"@));
        assert(!eq_ignore_ascii_case(n, "TRACE"@)) by {
            assert(ascii_upper(n[0]) != ascii_upper("TRACE"@[0]));
        }
        assert(!eq_ignore_ascii_case(n, "CONNECT"@));
    }
    if m == Method::Connect {
        assert(!eq_ignore_ascii_case(n, "DELETE"@));
        assert(!eq_ignore_ascii_case(n, "OPTIONS"@)) by {
            assert(ascii_upper(n[0]) != ascii_upper("OPTIONS"@[0]));
        }
        assert(!eq_ignore_ascii_case(n, "HEAD"@));
        assert(!eq_ignore_ascii_case(n, "TRACE"@));
    }
    if m == Method::Trace {
        assert(!eq_ignore_ascii_case(n, "DELETE"@));
        assert(!eq_ignore_ascii_case(n, "OPTIONS"@));
        assert(!eq_ignore_ascii_case(n, "HEAD"@));
    }
    if m == Method::Head {
        assert(!eq_ignore_ascii_case(n, "DELETE"@));
        assert(!eq_ignore_ascii_case(n, "OPTIONS"@));
    }
    if m == Method::Options {
        assert(!eq_ignore_ascii_case(n, "DELETE"@));
    }
}

/// What a token grants: one method on one URI.
#[derive(Clone, Debug)]
pub struct NwtContent {
    pub method: Method,
    pub uri: String,
}

/// A signed token, as carried (base64url-encoded JSON) in the
/// `Authorization` header. `username` is not part of the token: it is
/// filled in from the registry of users after decoding.
#[derive(Clone, Debug)]
pub struct NwtEvent {
    pub id: String,
    pub pubkey: String,
    pub created_at: u64,
    pub kind: u32,
    pub tags: Vec<Vec<String>>,
    pub content: NwtContent,
    pub sig: String,
    pub username: String,
}

/// How `serde_json` writes one character inside a JSON string: a quote and
/// a backslash get a backslash before them; backspace, tab, line feed, form
/// feed and carriage return become `\b`, `\t`, `\n`, `\f`, `\r`; other
/// characters below U+0020 become `\u00` and two lowercase hex digits; all
/// others stand as they are.
pub open spec fn json_escape_char(c: char) -> Seq<char> {
    if c == '"' {
        seq!['\\', '"']
    } else if c == '\\' {
        seq!['\\', '\\']
    } else if c == '\u{8}' {
        seq!['\\', 'b']
    } else if c == '\t' {
        seq!['\\', 't']
    } else if c == '\n' {
        seq!['\\', 'n']
    } else if c == '\u{c}' {
        seq!['\\', 'f']
    } else if c == '\r' {
        seq!['\\', 'r']
    } else if (c as int) < 32 {
        seq!['\\', 'u', '0', '0', hex_lower_char(c as int / 16), hex_lower_char(c as int % 16)]
    } else {
        seq![c]
    }
}

/// The JSON text of a string, as `serde_json` writes it: between double
/// quotes, each character written as `json_escape_char` says.
pub open spec fn json_quoted(s: Seq<char>) -> Seq<char> {
    seq!['"'] + s.map_values(|c: char| json_escape_char(c)).flatten() + seq!['"']
}

/// The error type of `serde_json`.
#[verifier::external_type_specification]
#[verifier::external_body]
pub struct ExJsonError(serde_json::Error);

/// `serde_json::to_string` on a string slice: the string between quotes,
/// escaped character by character (its `format_escaped_str` with the
/// compact formatter). Its source writes into a `Vec<u8>`, which cannot fail,
/// so the result is always `Ok`.
#[verifier::external_body]
fn json_string(s: &str) -> (r: Result<String, serde_json::Error>)
    ensures
        r is Ok,
        r->Ok_0@ == json_quoted(s@),
{
    serde_json::to_string(s)
}

/// The compact JSON object of a token's content, with its keys in order:
/// `{"method":"GET","uri":"..."}`.
pub open spec fn content_json(c: NwtContent) -> Seq<char> {
    "{\"method\":"@ + json_quoted(c.method.name()) + ",\"uri\":"@ + json_quoted(c.uri@) + "}"@
}

impl NwtContent {
    /// The compact JSON object of the content.
    pub fn to_json(&self) -> (r: String)
        ensures
            r@ == content_json(*self),
    {
        let mut out = String::from_str("{\"method\":");
        match json_string(self.method.as_str()) {
            Ok(m) => out.append(m.as_str()),
            Err(_) => {},
        }
        out.append(",\"uri\":");
        match json_string(self.uri.as_str()) {
            Ok(u) => out.append(u.as_str()),
            Err(_) => {},
        }
        out.append("}");
        out
    }
}

/// `{:?}` of a list of lists of strings: `[["a", "b"], ["c"]]`.
pub open spec fn debug_tags(tags: Seq<Vec<String>>) -> Seq<char> {
    debug_list(tags.map_values(|t: Vec<String>| debug_list(debug_strings(t@))))
}

/// Appends `{:?}` of a list of lists of strings.
pub fn push_debug_tags(out: &mut String, tags: &Vec<Vec<String>>)
    ensures
        final(out)@ == old(out)@ + debug_tags(tags@),
{
    let ghost start = out@;
    let ghost f = |t: Vec<String>| debug_list(debug_strings(t@));
    out.append("[");
    let n = tags.len();
    let mut i: usize = 0;
    while i < n
        invariant
            n == tags@.len(),
            i <= n,
            f == (|t: Vec<String>| debug_list(debug_strings(t@))),
            out@ == start + "["@ + join_comma(tags@.take(i as int).map_values(f)),
        decreases n - i,
    {
        if i > 0 {
            out.append(", ");
        }
        push_debug_strings(out, &tags[i]);
        proof {
            let t = tags@.take(i + 1).map_values(f);
            assert(t.drop_last() =~= tags@.take(i as int).map_values(f));
            assert(t.last() == f(tags@[i as int]));
            if i == 0 {
                assert(t.len() == 1);
            }
        }
        i += 1;
    }
    assert(tags@.take(n as int) =~= tags@);
    out.append("]");
}

/// The text that is hashed into an event's id, before `", "` is collapsed:
/// `[0,"<pubkey>",<created_at>,<kind>,<tags as {:?}>,<content JSON as {:?}>]`.
pub open spec fn event_preimage(e: NwtEvent) -> Seq<char> {
    "[0,\""@ + e.pubkey@ + "\","@ + decimal(e.created_at as nat) + ","@ + decimal(e.kind as nat)
        + ","@ + debug_tags(e.tags@) + ","@ + debug_escaped(content_json(e.content)) + "]"@
}

/// The canonical serialization of an event: its preimage with every `", "`
/// collapsed into `","`.
pub open spec fn serialized_event(e: NwtEvent) -> Seq<char> {
    collapse_comma_space(event_preimage(e))
}

/// The id an event must carry: the lowercase hex SHA-256 digest of the UTF-8
/// bytes of its canonical serialization.
pub open spec fn event_id(e: NwtEvent) -> Seq<char> {
    sha256_hex(vstd::utf8::encode_utf8(serialized_event(e)))
}

/// The user name is no part of the signed token: events that differ only in
/// it have the same serialization and the same id.
pub proof fn lemma_event_id_ignores_username(a: NwtEvent, b: NwtEvent)
    requires
        a.id == b.id,
        a.pubkey == b.pubkey,
        a.created_at == b.created_at,
        a.kind == b.kind,
        a.tags == b.tags,
        a.content == b.content,
        a.sig == b.sig,
    ensures
        serialized_event(a) == serialized_event(b),
        event_id(a) == event_id(b),
{
}

impl NwtEvent {
    /// The canonical serialization of the event.
    pub fn serialize_event(&self) -> (r: String)
        ensures
            r@ == serialized_event(*self),
    {
        let mut out = String::from_str("[0,\"");
        out.append(self.pubkey.as_str());
        out.append("\",");
        push_decimal(&mut out, self.created_at);
        out.append(",");
        push_decimal(&mut out, self.kind as u64);
        out.append(",");
        push_debug_tags(&mut out, &self.tags);
        out.append(",");
        let json = self.content.to_json();
        let quoted = debug_str(json.as_str());
        out.append(quoted.as_str());
        out.append("]");
        replace_comma_space(out.as_str())
    }

    /// The id the event must carry.
    pub fn generate_id(&self) -> (r: String)
        ensures
            r@ == event_id(*self),
            r@.len() == 64,
    {
        let json = self.serialize_event();
        let id = sha256_string(json.as_str());
        id.unwrap()
    }
}

/// The text that `{:?}` gives for an event, field by field in declaration
/// order.
pub open spec fn event_debug(e: NwtEvent) -> Seq<char> {
    "NwtEvent { id: "@ + debug_escaped(e.id@) + ", pubkey: "@ + debug_escaped(e.pubkey@)
        + ", created_at: "@ + decimal(e.created_at as nat) + ", kind: "@ + decimal(e.kind as nat)
        + ", tags: "@ + debug_tags(e.tags@) + ", content: NwtContent { method: "@
        + e.content.method.debug_name() + ", uri: "@ + debug_escaped(e.content.uri@)
        + " }, sig: "@ + debug_escaped(e.sig@) + ", username: "@ + debug_escaped(e.username@)
        + " }"@
}

impl NwtEvent {
    /// Appends the `{:?}` text of the event.
    pub fn push_debug(&self, out: &mut String)
        ensures
            final(out)@ == old(out)@ + event_debug(*self),
    {
        out.append("NwtEvent { id: ");
        out.append(debug_str(self.id.as_str()).as_str());
        out.append(", pubkey: ");
        out.append(debug_str(self.pubkey.as_str()).as_str());
        out.append(", created_at: ");
        push_decimal(out, self.created_at);
        out.append(", kind: ");
        push_decimal(out, self.kind as u64);
        out.append(", tags: ");
        push_debug_tags(out, &self.tags);
        out.append(", content: NwtContent { method: ");
        out.append(self.content.method.debug_str());
        out.append(", uri: ");
        out.append(debug_str(self.content.uri.as_str()).as_str());
        out.append(" }, sig: ");
        out.append(debug_str(self.sig.as_str()).as_str());
        out.append(", username: ");
        out.append(debug_str(self.username.as_str()).as_str());
        out.append(" }");
    }
}

} // verus!
