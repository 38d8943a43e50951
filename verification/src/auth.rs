//! Authorization of a request by its token: the token is taken from the
//! `Authorization` header, decoded, bound to a registered user, checked
//! against its id and signature, and held against the request it came with.
use vstd::prelude::*;
use vstd::string::StrSliceExecFns;
use vstd::string::StringExecFns;
use vstd::utf8::{decode_utf8, encode_utf8, valid_utf8};
use crate::event::{event_id, lemma_event_id_ignores_username, Method, NwtEvent};
use crate::hex::{from_hex, hex_decode_padded, hex_fits};
use crate::text::{
    has_prefix, lemma_strip_prefixes_leaves_no_prefix, starts_with, strip_prefixes,
    trim_start_matches,
};

verus! {

/// Why a request's token was refused.
#[derive(Clone, Copy, Debug, PartialEq, Eq, Structural)]
pub enum NwtError {
    /// No `Authorization: Bearer ...` header.
    Missing,
    /// A token that does not decode, verify or grant the request.
    Invalid,
}

/// The prefix of the `Authorization` header that carries a token.
pub open spec fn bearer_prefix() -> Seq<char> {
    "Bearer "@
}

/// The token that an `Authorization` header carries: the header must begin
/// with `"Bearer "`, and every leading copy of that prefix is removed.
pub open spec fn header_token(header: Option<Seq<char>>) -> Result<Seq<char>, NwtError> {
    match header {
        None => Err(NwtError::Missing),
        Some(h) => if has_prefix(h, bearer_prefix()) {
            Ok(strip_prefixes(h, bearer_prefix()))
        } else {
            Err(NwtError::Missing)
        },
    }
}

/// A token taken out of a header never itself begins with `"Bearer "`.
pub proof fn lemma_token_has_no_bearer_prefix(h: Seq<char>)
    ensures
        header_token(Some(h)) matches Ok(t) ==> !has_prefix(t, bearer_prefix()),
{
    reveal_strlit("Bearer ");
    lemma_strip_prefixes_leaves_no_prefix(h, bearer_prefix());
}

/// Takes the token out of the `Authorization` header.
pub fn nwt_from_header(header: Option<&str>) -> (r: Result<String, NwtError>)
    ensures
        match header_token(
            match header {
                Some(h) => Some(h@),
                None => None,
            },
        ) {
            Ok(t) => r matches Ok(s) && s@ == t,
            Err(e) => r == Err::<String, NwtError>(e),
        },
{
    proof {
        reveal_strlit("Bearer ");
    }
    match header {
        None => Err(NwtError::Missing),
        Some(h) => {
            if !starts_with(h, "Bearer ") {
                return Err(NwtError::Missing);
            }
            Ok(trim_start_matches(h, "Bearer "))
        },
    }
}

/// The bytes that base64url text (URL-safe alphabet, no padding) stands for,
/// as the `base64-url` crate decodes it; `None` where it refuses the text.
pub uninterp spec fn base64url_decoded(s: Seq<char>) -> Option<Seq<u8>>;

/// `base64_url::decode`: the bytes of base64url text without padding, or
/// `None` where the text is refused.
#[verifier::external_body]
fn base64_url_decode(s: &str) -> (r: Option<Vec<u8>>)
    ensures
        r is Some <==> base64url_decoded(s@) is Some,
        r is Some ==> r->0@ == base64url_decoded(s@)->0,
{
    base64_url::decode(s).ok()
}

/// `String::from_utf8`: the text that valid UTF-8 bytes encode, `None` for
/// bytes that are not valid UTF-8.
#[verifier::external_body]
fn string_from_utf8(bytes: Vec<u8>) -> (r: Option<String>)
    ensures
        r is Some <==> valid_utf8(bytes@),
        r is Some ==> r->0@ == decode_utf8(bytes@),
{
    String::from_utf8(bytes).ok()
}

/// The JSON text that a token stands for: its base64url decoding, read as
/// UTF-8.
pub open spec fn token_json(token: Seq<char>) -> Option<Seq<char>> {
    match base64url_decoded(token) {
        Some(b) => if valid_utf8(b) {
            Some(decode_utf8(b))
        } else {
            None
        },
        None => None,
    }
}

/// Decodes a token into JSON text.
pub fn decode_nwt(nwt: String) -> (r: Result<String, NwtError>)
    ensures
        match token_json(nwt@) {
            Some(j) => r matches Ok(s) && s@ == j,
            None => r == Err::<String, NwtError>(NwtError::Invalid),
        },
{
    let bytes = match base64_url_decode(nwt.as_str()) {
        Some(b) => b,
        None => return Err(NwtError::Invalid),
    };
    match string_from_utf8(bytes) {
        Some(s) => Ok(s),
        None => Err(NwtError::Invalid),
    }
}

/// Whether two texts are equal.
pub fn same_text(a: &str, b: &str) -> (r: bool)
    ensures
        r == (a@ == b@),
{
    if a.unicode_len() != b.unicode_len() {
        return false;
    }
    let r = starts_with(a, b);
    proof {
        assert(a@.take(b@.len() as int) =~= a@);
    }
    r
}

/// The names of the registry that stand for the key `pubkey`, in registry
/// order and run together.
pub open spec fn names_for_key(names: Seq<(String, String)>, pubkey: Seq<char>) -> Seq<char>
    decreases names.len(),
{
    if names.len() == 0 {
        Seq::empty()
    } else {
        let prev = names_for_key(names.drop_last(), pubkey);
        if names.last().1@ == pubkey {
            prev + names.last().0@
        } else {
            prev
        }
    }
}

/// The names for a key are those of the matching entries in registry order:
/// an entry added at either end adds its name at that end when its key
/// matches and nothing otherwise, and an empty registry has no name.
pub proof fn lemma_names_for_key_in_order(
    names: Seq<(String, String)>,
    x: (String, String),
    pubkey: Seq<char>,
)
    ensures
        names_for_key(Seq::empty(), pubkey) == Seq::<char>::empty(),
        names_for_key(names.push(x), pubkey) == names_for_key(names, pubkey) + (if x.1@ == pubkey {
            x.0@
        } else {
            Seq::<char>::empty()
        }),
        names_for_key(seq![x] + names, pubkey) == (if x.1@ == pubkey {
            x.0@
        } else {
            Seq::<char>::empty()
        }) + names_for_key(names, pubkey),
    decreases names.len(),
{
    assert(names.push(x).drop_last() =~= names);
    if x.1@ != pubkey {
        assert(names_for_key(names, pubkey) + Seq::<char>::empty() =~= names_for_key(names, pubkey));
    }
    let front = if x.1@ == pubkey { x.0@ } else { Seq::<char>::empty() };
    if names.len() == 0 {
        assert(seq![x] + names =~= seq![x]);
        assert(seq![x].drop_last() =~= Seq::<(String, String)>::empty());
        assert(front + Seq::<char>::empty() =~= front);
        assert(Seq::<char>::empty() + front =~= front);
    } else {
        let init = names.drop_last();
        let y = names.last();
        lemma_names_for_key_in_order(init, x, pubkey);
        assert((seq![x] + names).drop_last() =~= seq![x] + init);
        assert((seq![x] + names).last() == y);
        let tail = if y.1@ == pubkey { y.0@ } else { Seq::<char>::empty() };
        assert(names_for_key(names, pubkey) =~= names_for_key(init, pubkey) + tail);
        assert(names_for_key(seq![x] + names, pubkey) =~= names_for_key(seq![x] + init, pubkey) + tail);
        assert(names_for_key(seq![x] + names, pubkey) =~= front + names_for_key(names, pubkey));
    }
}

/// Runs together the names of the registry (pairs of name and key) that
/// stand for the key `pubkey`.
pub fn username_for_key(names: &Vec<(String, String)>, pubkey: &str) -> (r: String)
    ensures
        r@ == names_for_key(names@, pubkey@),
{
    let mut username = String::new();
    let n = names.len();
    let mut i: usize = 0;
    while i < n
        invariant
            n == names@.len(),
            i <= n,
            username@ == names_for_key(names@.take(i as int), pubkey@),
        decreases n - i,
    {
        let entry = &names[i];
        proof {
            assert(names@.take(i + 1).drop_last() =~= names@.take(i as int));
        }
        if same_text(entry.1.as_str(), pubkey) {
            username.append(entry.0.as_str());
        }
        i += 1;
    }
    assert(names@.take(n as int) =~= names@);
    username
}

/// Whether `b` is `a` with only its user name changed, to `name`.
pub open spec fn with_username(a: NwtEvent, b: NwtEvent, name: Seq<char>) -> bool {
    &&& b.id == a.id
    &&& b.pubkey == a.pubkey
    &&& b.created_at == a.created_at
    &&& b.kind == a.kind
    &&& b.tags == a.tags
    &&& b.content == a.content
    &&& b.sig == a.sig
    &&& b.username@ == name
}

/// Binds a decoded event to the registry of users (pairs of name and key):
/// its user name is the run of names registered for its key, and an event
/// whose key has no (non-empty) name is refused.
pub fn assign_username(event: NwtEvent, names: &Vec<(String, String)>) -> (r: Result<
    NwtEvent,
    NwtError,
>)
    ensures
        ({
            let name = names_for_key(names@, event.pubkey@);
            if name.len() == 0 {
                r == Err::<NwtEvent, NwtError>(NwtError::Invalid)
            } else {
                r matches Ok(e) && with_username(event, e, name)
            }
        }),
{
    let username = username_for_key(names, event.pubkey.as_str());
    if username.unicode_len() == 0 {
        return Err(NwtError::Invalid);
    }
    let mut event = event;
    event.username = username;
    Ok(event)
}

/// Whether secp256k1 takes `pk` as an x-only public key, `msg` as a
/// message and `sig` as a BIP-340 Schnorr signature, and finds that the
/// signature signs the message under the key.
pub uninterp spec fn schnorr_accepts(sig: Seq<u8>, msg: Seq<u8>, pk: Seq<u8>) -> bool;

/// BIP-340 verification by the `secp256k1` crate: `schnorr::Signature`,
/// `Message` and `XOnlyPublicKey::from_slice` take the bytes (refusing a
/// signature of other than 64 bytes, a message of other than 32 and a key of
/// other than 32 bytes or off the curve), and `Secp256k1::verify_schnorr`
/// with a verification-only context checks the signature.
#[verifier::external_body]
fn schnorr_verify(sig: &[u8], msg: &[u8], pk: &[u8]) -> (r: bool)
    ensures
        r == schnorr_accepts(sig@, msg@, pk@),
        r ==> sig@.len() == 64 && msg@.len() == 32 && pk@.len() == 32,
{
    let secp = secp256k1::Secp256k1::verification_only();
    match (
        secp256k1::schnorr::Signature::from_slice(sig),
        secp256k1::Message::from_slice(msg),
        secp256k1::XOnlyPublicKey::from_slice(pk),
    ) {
        (Ok(s), Ok(m), Ok(k)) => secp.verify_schnorr(&s, &m, &k).is_ok(),
        _ => false,
    }
}

/// Whether an event carries the id of its content and a valid signature of
/// that id: the id must equal the digest of the canonical serialization, the
/// key, id and signature must be hex text that fits 32, 32 and 64 bytes, and
/// secp256k1 must accept the signature, zero-padded to 64 bytes, of the id,
/// zero-padded to 32 bytes, under the key, zero-padded to 32 bytes.
pub open spec fn event_signed(e: NwtEvent) -> bool {
    let pk = encode_utf8(e.pubkey@);
    let id = encode_utf8(e.id@);
    let sig = encode_utf8(e.sig@);
    &&& e.id@ == event_id(e)
    &&& hex_fits(pk, 32)
    &&& hex_fits(id, 32)
    &&& hex_fits(sig, 64)
    &&& schnorr_accepts(
        hex_decode_padded(sig, 64),
        hex_decode_padded(id, 32),
        hex_decode_padded(pk, 32),
    )
}

/// Whether an event is signed does not depend on the user it is bound to.
pub proof fn lemma_signed_whatever_user(a: NwtEvent, b: NwtEvent)
    requires
        with_username(a, b, b.username@),
    ensures
        event_signed(a) == event_signed(b),
{
    lemma_event_id_ignores_username(a, b);
}

/// Checks an event's id and signature.
pub fn validate_nwt(nwt_event: &NwtEvent) -> (r: Result<(), NwtError>)
    ensures
        r is Ok <==> event_signed(*nwt_event),
        r is Err ==> r == Err::<(), NwtError>(NwtError::Invalid),
{
    let id = nwt_event.generate_id();
    if !(id == nwt_event.id) {
        return Err(NwtError::Invalid);
    }
    let mut pubkey_bytes: [u8; 32] = [0u8; 32];
    let mut id_bytes: [u8; 32] = [0u8; 32];
    let mut sig_bytes: [u8; 64] = [0u8; 64];
    let ghost zeros32 = pubkey_bytes@;
    let ghost zeros64 = sig_bytes@;
    assert(zeros32 =~= Seq::new(32, |i: int| 0u8));
    assert(zeros64 =~= Seq::new(64, |i: int| 0u8));
    if from_hex(nwt_event.pubkey.as_str(), &mut pubkey_bytes).is_err() || from_hex(
        nwt_event.id.as_str(),
        &mut id_bytes,
    ).is_err() || from_hex(nwt_event.sig.as_str(), &mut sig_bytes).is_err() {
        return Err(NwtError::Invalid);
    }
    proof {
        let pk = encode_utf8(nwt_event.pubkey@);
        let idb = encode_utf8(nwt_event.id@);
        let sig = encode_utf8(nwt_event.sig@);
        assert(pubkey_bytes@ =~= hex_decode_padded(pk, 32));
        assert(id_bytes@ =~= hex_decode_padded(idb, 32));
        assert(sig_bytes@ =~= hex_decode_padded(sig, 64));
    }
    if !schnorr_verify(&sig_bytes, &id_bytes, &pubkey_bytes) {
        return Err(NwtError::Invalid);
    }
    Ok(())
}

/// Whether `base` is a leading run of whole components of `path`, as
/// `std::path::Path::starts_with` decides it.
pub uninterp spec fn path_component_prefix(path: Seq<char>, base: Seq<char>) -> bool;

/// `std::path::Path::starts_with` on two paths given as text.
#[verifier::external_body]
fn path_starts_with(path: &str, base: &str) -> (r: bool)
    ensures
        r == path_component_prefix(path@, base@),
{
    std::path::Path::new(path).starts_with(base)
}

/// The address a token must name for a request on `path` with query
/// `query`.
pub open spec fn request_uri(path: Seq<char>, query: Seq<char>) -> Seq<char> {
    "http://localhost:8000"@ + path + "?"@ + query
}

/// Whether a request is the one that the event grants to the user
/// `username`: the same method, a query string, the address the token names,
/// and a path inside the user's own `/call/<username>` tree.
pub open spec fn permitted_for(
    method: Method,
    path: Seq<char>,
    query: Option<Seq<char>>,
    e: NwtEvent,
    username: Seq<char>,
) -> bool {
    &&& method == e.content.method
    &&& query is Some
    &&& request_uri(path, query->0) == e.content.uri@
    &&& path_component_prefix(path, "/call/"@ + username)
}

/// A request is granted exactly when its method is the token's, it has a
/// query string, the whole address `http://localhost:8000<path>?<query>`
/// equals the token's URI character for character, and its path lies in the
/// user's `/call/<username>` tree. So a request without a query, or whose
/// address is longer or shorter than the granted one, is refused.
pub proof fn lemma_permission_needs_the_exact_uri(
    method: Method,
    path: Seq<char>,
    query: Option<Seq<char>>,
    e: NwtEvent,
)
    ensures
        request_permitted(method, path, query, e) <==> (method == e.content.method && query is Some
            && "http://localhost:8000"@ + path + "?"@ + query->0 == e.content.uri@
            && path_component_prefix(path, "/call/"@ + e.username@)),
        query is None ==> !request_permitted(method, path, query, e),
        query is Some && ("http://localhost:8000"@ + path + "?"@ + query->0).len()
            != e.content.uri@.len() ==> !request_permitted(method, path, query, e),
{
}

/// Whether a request is the one that the event grants to its user.
pub open spec fn request_permitted(
    method: Method,
    path: Seq<char>,
    query: Option<Seq<char>>,
    e: NwtEvent,
) -> bool {
    permitted_for(method, path, query, e, e.username@)
}

/// Holds a request (method, path, and query string if any) against what its
/// event grants.
pub fn check_nwt_permissions(
    method: Method,
    path: &str,
    query: Option<&str>,
    nwt_event: &NwtEvent,
) -> (r: Result<(), NwtError>)
    ensures
        r is Ok <==> request_permitted(
            method,
            path@,
            match query {
                Some(q) => Some(q@),
                None => None,
            },
            *nwt_event,
        ),
        r is Err ==> r == Err::<(), NwtError>(NwtError::Invalid),
{
    if method != nwt_event.content.method {
        return Err(NwtError::Invalid);
    }
    let q = match query {
        Some(q) => q,
        None => return Err(NwtError::Invalid),
    };
    let mut req_uri = String::from_str("http://localhost:8000");
    req_uri.append(path);
    req_uri.append("?");
    req_uri.append(q);
    if !same_text(req_uri.as_str(), nwt_event.content.uri.as_str()) {
        return Err(NwtError::Invalid);
    }
    let mut base = String::from_str("/call/");
    base.append(nwt_event.username.as_str());
    if !path_starts_with(path, base.as_str()) {
        return Err(NwtError::Invalid);
    }
    Ok(())
}

/// Binds a decoded event to the registry, checks its id and signature, and
/// holds the request against it; the bound event comes back. Every refusal
/// is `Invalid`.
pub fn authorize_event(
    event: NwtEvent,
    names: &Vec<(String, String)>,
    method: Method,
    path: &str,
    query: Option<&str>,
) -> (r: Result<NwtEvent, NwtError>)
    ensures
        ({
            let name = names_for_key(names@, event.pubkey@);
            let q = match query {
                Some(q) => Some(q@),
                None => None,
            };
            r is Ok <==> (name.len() > 0 && event_signed(event) && permitted_for(
                method,
                path@,
                q,
                event,
                name,
            ))
        }),
        r matches Ok(e) ==> with_username(event, e, names_for_key(names@, event.pubkey@)),
        r is Err ==> r == Err::<NwtEvent, NwtError>(NwtError::Invalid),
{
    let bound = match assign_username(event, names) {
        Ok(e) => e,
        Err(e) => return Err(e),
    };
    assert(event_id(bound) == event_id(event));
    match validate_nwt(&bound) {
        Ok(()) => {},
        Err(e) => return Err(e),
    }
    match check_nwt_permissions(method, path, query, &bound) {
        Ok(()) => {},
        Err(e) => return Err(e),
    }
    Ok(bound)
}

} // verus!
