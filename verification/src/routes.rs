//! What the routes answer: the search report, the error page, and the
//! naming and placement of uploaded files.
use vstd::prelude::*;
use vstd::string::StringExecFns;
use crate::event::{event_debug, NwtEvent};
use crate::text::{
    ascii_eq_ignore_case, debug_escaped, debug_list, debug_strings, decimal, eq_ignore_ascii_case,
    push_debug_strings, push_decimal,
};
use crate::auth::same_text;

verus! {

/// Which folder a search looks in.
#[derive(Clone, Copy, Debug, PartialEq, Eq, Structural)]
pub enum Folder {
    All,
    Images,
    Videos,
}

/// The order of search results.
#[derive(Clone, Copy, Debug, PartialEq, Eq, Structural)]
pub enum Order {
    Asc,
    Desc,
}

/// How the tags of a search combine.
#[derive(Clone, Copy, Debug, PartialEq, Eq, Structural)]
pub enum TagLogic {
    And,
    Or,
}

impl Folder {
    /// The variant's name as `{:?}` shows it.
    pub open spec fn debug_name(self) -> Seq<char> {
        match self {
            Folder::All => "All"@,
            Folder::Images => "Images"@,
            Folder::Videos => "Videos"@,
        }
    }

    /// The variant's name as `{:?}` shows it.
    pub fn debug_str(self) -> (r: &'static str)
        ensures
            r@ == self.debug_name(),
    {
        match self {
            Folder::All => "All",
            Folder::Images => "Images",
            Folder::Videos => "Videos",
        }
    }
}

impl Order {
    /// The variant's name as `{:?}` shows it.
    pub open spec fn debug_name(self) -> Seq<char> {
        match self {
            Order::Asc => "Asc"@,
            Order::Desc => "Desc"@,
        }
    }

    /// The variant's name as `{:?}` shows it.
    pub fn debug_str(self) -> (r: &'static str)
        ensures
            r@ == self.debug_name(),
    {
        match self {
            Order::Asc => "Asc",
            Order::Desc => "Desc",
        }
    }
}

impl TagLogic {
    /// The variant's name as `{:?}` shows it.
    pub open spec fn debug_name(self) -> Seq<char> {
        match self {
            TagLogic::And => "And"@,
            TagLogic::Or => "Or"@,
        }
    }

    /// The variant's name as `{:?}` shows it.
    pub fn debug_str(self) -> (r: &'static str)
        ensures
            r@ == self.debug_name(),
    {
        match self {
            TagLogic::And => "And",
            TagLogic::Or => "Or",
        }
    }
}

/// The parameters of a search.
#[derive(Clone, Debug)]
pub struct Query {
    pub tag: Vec<String>,
    pub tag_logic: TagLogic,
    pub folder: Folder,
    pub since: u64,
    pub until: u64,
    pub limit: u32,
    pub page: u32,
    pub order: Order,
}

/// The report of a search request.
pub open spec fn search_report(user: Seq<char>, q: Query, e: NwtEvent) -> Seq<char> {
    "call search triggered for "@ + user + " on since="@ + decimal(q.since as nat) + " until="@
        + decimal(q.until as nat) + " limit="@ + decimal(q.limit as nat) + " page="@ + decimal(
        q.page as nat,
    ) + " tag="@ + debug_list(debug_strings(q.tag@)) + " tagLogic="@ + q.tag_logic.debug_name()
        + " order="@ + q.order.debug_name() + " folder="@ + q.folder.debug_name()
        + " with token "@ + event_debug(e)
}

/// Equal texts that agree before and after a middle part agree in the
/// middle part too.
proof fn lemma_cancel_middle(p: Seq<char>, x: Seq<char>, y: Seq<char>, s: Seq<char>)
    requires
        p + x + s == p + y + s,
    ensures
        x == y,
{
    assert((p + x + s).len() == (p + y + s).len());
    assert((p + x).len() == p.len() + x.len());
    assert((p + y).len() == p.len() + y.len());
    assert((p + x + s).len() == (p + x).len() + s.len());
    assert((p + y + s).len() == (p + y).len() + s.len());
    assert(x.len() == y.len());
    assert forall|i: int| 0 <= i < x.len() implies x[i] == y[i] by {
        assert((p + x + s)[p.len() + i] == x[i]);
        assert((p + y + s)[p.len() + i] == y[i]);
    }
    assert(x =~= y);
}

/// Distinct folders, orders and tag logics are shown by distinct names.
pub proof fn lemma_debug_names_distinct(f1: Folder, f2: Folder, o1: Order, o2: Order, t1: TagLogic, t2: TagLogic)
    ensures
        f1 != f2 ==> f1.debug_name() != f2.debug_name(),
        o1 != o2 ==> o1.debug_name() != o2.debug_name(),
        t1 != t2 ==> t1.debug_name() != t2.debug_name(),
{
    reveal_strlit("All");
    reveal_strlit("Images");
    reveal_strlit("Videos");
    reveal_strlit("Asc");
    reveal_strlit("Desc");
    reveal_strlit("And");
    reveal_strlit("Or");
    if f1 != f2 && f1.debug_name() == f2.debug_name() {
        assert(f1.debug_name()[0] == f2.debug_name()[0]);
    }
    if t1 != t2 && t1.debug_name() == t2.debug_name() {
        assert(t1.debug_name().len() == t2.debug_name().len());
    }
    if o1 != o2 && o1.debug_name() == o2.debug_name() {
        assert(o1.debug_name().len() == o2.debug_name().len());
    }
}

/// The search report tells which folder, order and tag logic were asked
/// for: two searches that differ in one of them give different reports.
#[verifier::spinoff_prover]
#[verifier::rlimit(100)]
pub proof fn lemma_search_report_tells_the_parameters(
    user: Seq<char>,
    q1: Query,
    q2: Query,
    e: NwtEvent,
)
    requires
        q1.tag == q2.tag,
        q1.since == q2.since,
        q1.until == q2.until,
        q1.limit == q2.limit,
        q1.page == q2.page,
    ensures
        search_report(user, q1, e) == search_report(user, q2, e) ==> q1.folder == q2.folder
            && q1.order == q2.order && q1.tag_logic == q2.tag_logic,
{
    if search_report(user, q1, e) == search_report(user, q2, e) {
        let head = "call search triggered for "@ + user + " on since="@ + decimal(q1.since as nat)
            + " until="@ + decimal(q1.until as nat) + " limit="@ + decimal(q1.limit as nat)
            + " page="@ + decimal(q1.page as nat) + " tag="@ + debug_list(debug_strings(q1.tag@))
            + " tagLogic="@;
        let tail = " with token "@ + event_debug(e);
        let mid1 = q1.tag_logic.debug_name() + " order="@ + q1.order.debug_name() + " folder="@
            + q1.folder.debug_name();
        let mid2 = q2.tag_logic.debug_name() + " order="@ + q2.order.debug_name() + " folder="@
            + q2.folder.debug_name();
        assert(search_report(user, q1, e) =~= head + mid1 + tail);
        assert(search_report(user, q2, e) =~= head + mid2 + tail);
        lemma_cancel_middle(head, mid1, mid2, tail);
        reveal_strlit("And");
        reveal_strlit("Or");
        reveal_strlit("Asc");
        reveal_strlit("Desc");
        reveal_strlit("All");
        reveal_strlit("Images");
        reveal_strlit("Videos");
        reveal_strlit(" order=");
        reveal_strlit(" folder=");
        lemma_debug_names_distinct(q1.folder, q2.folder, q1.order, q2.order, q1.tag_logic, q2.tag_logic);
        if q1.tag_logic != q2.tag_logic {
            // "And order=..." against "Or order=...": they differ at the first character.
            assert(mid1[0] != mid2[0]);
        } else {
            let a = q1.tag_logic.debug_name() + " order="@;
            let m1 = q1.order.debug_name() + " folder="@ + q1.folder.debug_name();
            let m2 = q2.order.debug_name() + " folder="@ + q2.folder.debug_name();
            assert(mid1 =~= a + m1 + Seq::<char>::empty());
            assert(mid2 =~= a + m2 + Seq::<char>::empty());
            lemma_cancel_middle(a, m1, m2, Seq::<char>::empty());
            if q1.order != q2.order {
                assert(m1[0] != m2[0]);
            } else {
                let b = q1.order.debug_name() + " folder="@;
                assert(m1 =~= b + q1.folder.debug_name() + Seq::<char>::empty());
                assert(m2 =~= b + q2.folder.debug_name() + Seq::<char>::empty());
                lemma_cancel_middle(b, q1.folder.debug_name(), q2.folder.debug_name(), Seq::<char>::empty());
            }
        }
    }
}

/// Reports a search of `user`'s files with the given parameters, made with
/// the given token.
pub fn search(user: &str, query: Query, nwt_event: NwtEvent) -> (r: String)
    ensures
        r@ == search_report(user@, query, nwt_event),
{
    let mut out = String::from_str("call search triggered for ");
    out.append(user);
    out.append(" on since=");
    push_decimal(&mut out, query.since);
    out.append(" until=");
    push_decimal(&mut out, query.until);
    out.append(" limit=");
    push_decimal(&mut out, query.limit as u64);
    out.append(" page=");
    push_decimal(&mut out, query.page as u64);
    out.append(" tag=");
    push_debug_strings(&mut out, &query.tag);
    out.append(" tagLogic=");
    out.append(query.tag_logic.debug_str());
    out.append(" order=");
    out.append(query.order.debug_str());
    out.append(" folder=");
    out.append(query.folder.debug_str());
    out.append(" with token ");
    nwt_event.push_debug(&mut out);
    out
}

/// The page shown for a failed request: the status (code and reason) and
/// the request as it is displayed.
pub open spec fn error_page(code: u16, reason: Seq<char>, request: Seq<char>) -> Seq<char> {
    "error "@ + decimal(code as nat) + " "@ + reason + " for request "@ + request
}

/// The page shown for a failed request with status `code` and reason
/// `reason`; `request` is how the request is displayed.
pub fn default_catcher(code: u16, reason: &str, request: &str) -> (r: String)
    ensures
        r@ == error_page(code, reason@, request@),
{
    let mut out = String::from_str("error ");
    push_decimal(&mut out, code as u64);
    out.append(" ");
    out.append(reason);
    out.append(" for request ");
    out.append(request);
    out
}

/// The extension of the last component of a path, as
/// `std::path::Path::extension` finds it; `None` where there is none.
pub uninterp spec fn path_extension(name: Seq<char>) -> Option<Seq<char>>;

/// `std::path::Path::extension` of a path given as text, read back as text.
#[verifier::external_body]
fn file_extension(name: &str) -> (r: Option<String>)
    ensures
        r is Some <==> path_extension(name@) is Some,
        r is Some ==> r->0@ == path_extension(name@)->0,
{
    std::path::Path::new(name).extension().and_then(|e| e.to_str()).map(|e| e.to_string())
}

/// The name under which an upload is stored: the hex digest of its contents,
/// a dot, and the extension of the name it was sent under.
pub open spec fn hashed_name(hash: Seq<char>, ext: Seq<char>) -> Seq<char> {
    hash + "."@ + ext
}

/// The extension of an uploaded file's name and the name under which the
/// file is stored, given the hex digest of its contents; `None` where the
/// name has no extension.
pub fn upload_name(hash: &str, raw_name: &str) -> (r: Option<(String, String)>)
    ensures
        match path_extension(raw_name@) {
            Some(ext) => r matches Some(p) && p.0@ == ext && p.1@ == hashed_name(hash@, ext),
            None => r is None,
        },
{
    let ext = match file_extension(raw_name) {
        Some(e) => e,
        None => return None,
    };
    let mut name = String::from_str(hash);
    name.append(".");
    name.append(ext.as_str());
    Some((ext, name))
}

/// The media type (top and sub type) that Rocket's table of known
/// extensions gives an extension, ASCII letters compared without case;
/// `None` for an extension it does not know.
pub uninterp spec fn extension_media_type(ext: Seq<char>) -> Option<(Seq<char>, Seq<char>)>;

/// `rocket::http::ContentType::from_extension`, read as its media type's top
/// and sub type.
#[verifier::external_body]
fn media_type_for_extension(ext: &str) -> (r: Option<(String, String)>)
    ensures
        r is Some <==> extension_media_type(ext@) is Some,
        r is Some ==> (r->0).0@ == (extension_media_type(ext@)->0).0,
        r is Some ==> (r->0).1@ == (extension_media_type(ext@)->0).1,
{
    match rocket::http::ContentType::from_extension(ext) {
        Some(t) => Some(
            (t.media_type().top().as_str().to_string(), t.media_type().sub().as_str().to_string()),
        ),
        None => None,
    }
}

/// Whether some requested name equals `name`.
pub open spec fn requested(names: Seq<String>, name: Seq<char>) -> bool {
    exists|i: int| 0 <= i < names.len() && (#[trigger] names[i])@ == name
}

/// A name counts as requested wherever it stands in the list, and only a
/// listed name counts: no name is in the empty list, and adding a name to
/// the list adds exactly that name.
pub proof fn lemma_requested_anywhere(names: Seq<String>, x: String, name: Seq<char>, i: int)
    ensures
        0 <= i < names.len() && names[i]@ == name ==> requested(names, name),
        !requested(Seq::<String>::empty(), name),
        requested(names.push(x), name) <==> (requested(names, name) || x@ == name),
        requested(seq![x] + names, name) <==> (requested(names, name) || x@ == name),
{
    let p = names.push(x);
    let q = seq![x] + names;
    if requested(p, name) {
        let j = choose|j: int| 0 <= j < p.len() && (#[trigger] p[j])@ == name;
        if j < names.len() {
            assert(names[j] == p[j]);
        }
    }
    if requested(names, name) {
        let j = choose|j: int| 0 <= j < names.len() && (#[trigger] names[j])@ == name;
        assert(p[j] == names[j]);
        assert(q[j + 1] == names[j]);
    }
    if x@ == name {
        assert(p[names.len() as int] == x);
        assert(q[0] == x);
    }
    if requested(q, name) {
        let j = choose|j: int| 0 <= j < q.len() && (#[trigger] q[j])@ == name;
        if j > 0 {
            assert(names[j - 1] == q[j]);
        }
    }
}

/// Where an accepted upload is stored: `static/<user>/<media type>/<name>`.
pub open spec fn upload_path(username: Seq<char>, top: Seq<char>, name: Seq<char>) -> Seq<char> {
    "static/"@ + username + "/"@ + top + "/"@ + name
}

/// What becomes of an uploaded file.
#[derive(Clone, Debug, PartialEq, Eq)]
pub enum UploadPlan {
    /// The extension names no known media type.
    UnknownType,
    /// The file's type or stored name is not the one asked for.
    Refused,
    /// The file is stored at this path.
    Save(String),
}

/// Decides what becomes of an uploaded file stored as `stored_name`, whose
/// name had extension `ext` and which came with media type
/// `file_top`/`file_sub`: it is stored when its media type is the one its
/// extension calls for (compared without ASCII case) and its stored name is
/// among the requested names, under `static/<user>/<top type>/<name>`.
pub fn plan_upload(
    requested_names: &Vec<String>,
    stored_name: &str,
    ext: &str,
    file_top: &str,
    file_sub: &str,
    username: &str,
) -> (r: UploadPlan)
    ensures
        match extension_media_type(ext@) {
            None => r == UploadPlan::UnknownType,
            Some(m) => if eq_ignore_ascii_case(file_top@, m.0) && eq_ignore_ascii_case(
                file_sub@,
                m.1,
            ) && requested(requested_names@, stored_name@) {
                r matches UploadPlan::Save(p) && p@ == upload_path(username@, m.0, stored_name@)
            } else {
                r == UploadPlan::Refused
            },
        },
{
    let (top, sub) = match media_type_for_extension(ext) {
        Some(m) => m,
        None => return UploadPlan::UnknownType,
    };
    let type_matches = ascii_eq_ignore_case(file_top, top.as_str()) && ascii_eq_ignore_case(
        file_sub,
        sub.as_str(),
    );
    let n = requested_names.len();
    let mut found = false;
    let mut i: usize = 0;
    while i < n
        invariant
            n == requested_names@.len(),
            i <= n,
            found <==> exists|j: int| 0 <= j < i && (#[trigger] requested_names@[j])@ == stored_name@,
        decreases n - i,
    {
        if same_text(requested_names[i].as_str(), stored_name) {
            found = true;
        }
        i += 1;
    }
    if !(type_matches && found) {
        return UploadPlan::Refused;
    }
    let mut path = String::from_str("static/");
    path.append(username);
    path.append("/");
    path.append(top.as_str());
    path.append("/");
    path.append(stored_name);
    UploadPlan::Save(path)
}

} // verus!
