use vstd::prelude::*;
use vstd::string::StringExecFns;

use crate::document::{spec_as_bool, spec_as_int, spec_as_list, spec_as_text, spec_get, DocValue};
use crate::snapshot::{spec_default_snapshot, PostSummary, ProfileSnapshot, SpecPost, SpecSnapshot};
use crate::upstream::{format_utc_timestamp, parse_json_document, parsed_doc, utc_date_text};

verus! {

/// At most this many post summaries are kept from a payload.
pub const POST_CAP: usize = 7;

/// Lifts member lookup over an optional document: an absent object has no
/// members.
pub open spec fn spec_opt_get(doc: Option<DocValue>, name: Seq<char>) -> Option<DocValue> {
    match doc {
        Some(d) => spec_get(d, name),
        None => None,
    }
}

/// The value behind an optional reference, for stating contracts of the
/// executable helpers that chain borrowed lookups.
pub open spec fn deref_opt(o: Option<&DocValue>) -> Option<DocValue> {
    match o {
        Some(v) => Some(*v),
        None => None,
    }
}

/// The text of a member, or empty when the member is absent or not text.
pub open spec fn spec_text_or_empty(v: Option<DocValue>) -> Seq<char> {
    match v {
        Some(d) => match spec_as_text(d) {
            Some(s) => s,
            None => Seq::empty(),
        },
        None => Seq::empty(),
    }
}

/// The flag of a member, or false when the member is absent or not a flag.
pub open spec fn spec_bool_or_false(v: Option<DocValue>) -> bool {
    match v {
        Some(d) => match spec_as_bool(d) {
            Some(b) => b,
            None => false,
        },
        None => false,
    }
}

/// The count of a member, or zero when the member is absent or not a number.
pub open spec fn spec_int_or_zero(v: Option<DocValue>) -> i64 {
    match v {
        Some(d) => match spec_as_int(d) {
            Some(n) => n,
            None => 0,
        },
        None => 0,
    }
}

/// The user object of a payload sits at `data.user`.
pub open spec fn spec_user(doc: DocValue) -> Option<DocValue> {
    spec_opt_get(spec_get(doc, "data"@), "user"@)
}

/// The timeline object of a payload sits at `data.user.edge_owner_to_timeline_media`.
pub open spec fn spec_media(doc: DocValue) -> Option<DocValue> {
    spec_opt_get(spec_user(doc), "edge_owner_to_timeline_media"@)
}

/// The post edges of a payload, when the timeline object carries a list.
pub open spec fn spec_edges(doc: DocValue) -> Option<Seq<DocValue>> {
    match spec_opt_get(spec_media(doc), "edges"@) {
        Some(d) => spec_as_list(d),
        None => None,
    }
}

/// The date text of a post: a positive unix-seconds value in chrono's range
/// gets chrono's rendering; anything else gets the sentinel text.
pub open spec fn spec_post_date(ts: i64) -> Seq<char> {
    if ts > 0 {
        match utc_date_text(ts) {
            Some(t) => t,
            None => "Unknown date"@,
        }
    } else {
        "Unknown date"@
    }
}

/// The post summary read from one `node` object: the image, the preview (the
/// image again, only for a video), the direct link built from the shortcode,
/// and the formatted date.
pub open spec fn spec_post_of_node(node: DocValue) -> SpecPost {
    let image = spec_text_or_empty(spec_get(node, "display_url"@));
    SpecPost {
        image_url: image,
        video_preview_url: if spec_bool_or_false(spec_get(node, "is_video"@)) {
            Some(image)
        } else {
            None
        },
        direct_link: "https://www.instagram.com/p/"@ + spec_text_or_empty(
            spec_get(node, "shortcode"@),
        ) + "/"@,
        date: spec_post_date(spec_int_or_zero(spec_get(node, "taken_at_timestamp"@))),
    }
}

/// The summaries of the first `n` edges, in upstream order; an edge without a
/// `node` member contributes nothing.
pub open spec fn spec_posts_prefix(edges: Seq<DocValue>, n: int) -> Seq<SpecPost>
    decreases n,
{
    if n <= 0 {
        Seq::empty()
    } else {
        let init = spec_posts_prefix(edges, n - 1);
        match spec_get(edges[n - 1], "node"@) {
            Some(node) => init.push(spec_post_of_node(node)),
            None => init,
        }
    }
}

/// How many edges are read: all of them, capped at `POST_CAP`.
pub open spec fn spec_post_limit(len: int) -> int {
    if len < POST_CAP { len } else { POST_CAP as int }
}

/// The summaries kept from a payload's edges: the first `POST_CAP` edges in
/// upstream order, the rest discarded.
pub open spec fn spec_posts(edges: Seq<DocValue>) -> Seq<SpecPost> {
    spec_posts_prefix(edges, spec_post_limit(edges.len() as int))
}

/// The fully defaulted record that a payload normalizes to: every field is
/// read independently and falls back to its default on absence or mismatch.
pub open spec fn spec_normalize(username: Seq<char>, doc: DocValue) -> SpecSnapshot {
    let user = spec_user(doc);
    SpecSnapshot {
        username: username,
        full_name: spec_text_or_empty(spec_opt_get(user, "full_name"@)),
        biography: spec_text_or_empty(spec_opt_get(user, "biography"@)),
        profile_pic_url: spec_text_or_empty(spec_opt_get(user, "profile_pic_url"@)),
        is_private: spec_bool_or_false(spec_opt_get(user, "is_private"@)),
        is_verified: spec_bool_or_false(spec_opt_get(user, "is_verified"@)),
        followers_count: spec_int_or_zero(
            spec_opt_get(spec_opt_get(user, "edge_followed_by"@), "count"@),
        ),
        following_count: spec_int_or_zero(
            spec_opt_get(spec_opt_get(user, "edge_follow"@), "count"@),
        ),
        posts_count: spec_int_or_zero(spec_opt_get(spec_media(doc), "count"@)),
        posts: match spec_edges(doc) {
            Some(edges) => spec_posts(edges),
            None => Seq::empty(),
        },
    }
}

/// The document a fetch response stands for: a failed status or an unparsable
/// body count as no document at all, which normalizes to the defaulted record.
pub open spec fn spec_response_document(success: bool, body: Seq<char>) -> DocValue {
    if success {
        match parsed_doc(body) {
            Some(d) => d,
            None => DocValue::Null,
        }
    } else {
        DocValue::Null
    }
}

fn opt_get<'a>(doc: Option<&'a DocValue>, name: &str) -> (r: Option<&'a DocValue>)
    ensures
        deref_opt(r) == spec_opt_get(deref_opt(doc), name@),
{
    match doc {
        Some(d) => d.get(name),
        None => None,
    }
}

fn text_or_empty(v: Option<&DocValue>) -> (r: String)
    ensures
        r@ == spec_text_or_empty(deref_opt(v)),
{
    match v {
        Some(d) => match d.as_text() {
            Some(s) => s.clone(),
            None => String::new(),
        },
        None => String::new(),
    }
}

fn bool_or_false(v: Option<&DocValue>) -> (r: bool)
    ensures
        r == spec_bool_or_false(deref_opt(v)),
{
    match v {
        Some(d) => match d.as_bool() {
            Some(b) => b,
            None => false,
        },
        None => false,
    }
}

fn int_or_zero(v: Option<&DocValue>) -> (r: i64)
    ensures
        r == spec_int_or_zero(deref_opt(v)),
{
    match v {
        Some(d) => match d.as_int() {
            Some(n) => n,
            None => 0,
        },
        None => 0,
    }
}

/// Formats a post's timestamp; non-positive or out-of-range values yield the
/// sentinel text.
pub fn post_date(ts: i64) -> (r: String)
    ensures
        r@ == spec_post_date(ts),
{
    if ts > 0 {
        match format_utc_timestamp(ts) {
            Some(s) => s,
            None => "Unknown date".to_string(),
        }
    } else {
        "Unknown date".to_string()
    }
}

fn post_of_node(node: &DocValue) -> (r: PostSummary)
    ensures
        r@ == spec_post_of_node(*node),
{
    let image_url = text_or_empty(node.get("display_url"));
    let is_video = bool_or_false(node.get("is_video"));
    let shortcode = text_or_empty(node.get("shortcode"));
    let mut direct_link = "https://www.instagram.com/p/".to_string();
    direct_link.append(shortcode.as_str());
    direct_link.append("/");
    let ts = int_or_zero(node.get("taken_at_timestamp"));
    PostSummary {
        video_preview_url: if is_video {
            Some(image_url.clone())
        } else {
            None
        },
        image_url,
        direct_link,
        date: post_date(ts),
    }
}

fn extract_posts(edges: &Vec<DocValue>) -> (r: Vec<PostSummary>)
    ensures
        r@.map_values(|p: PostSummary| p@) == spec_posts(edges@),
{
    let limit = if edges.len() < POST_CAP {
        edges.len()
    } else {
        POST_CAP
    };
    let mut posts: Vec<PostSummary> = Vec::new();
    proof {
        assert(posts@.map_values(|p: PostSummary| p@) =~= Seq::<SpecPost>::empty());
    }
    let mut i: usize = 0;
    while i < limit
        invariant
            i <= limit,
            limit == spec_post_limit(edges@.len() as int),
            limit <= edges@.len(),
            posts@.map_values(|p: PostSummary| p@) == spec_posts_prefix(edges@, i as int),
        decreases limit - i,
    {
        let ghost before = posts@.map_values(|p: PostSummary| p@);
        match edges[i].get("node") {
            Some(node) => {
                let p = post_of_node(node);
                let ghost pv = p@;
                posts.push(p);
                proof {
                    assert(posts@.map_values(|p: PostSummary| p@) =~= before.push(pv));
                }
            },
            None => {},
        }
        i = i + 1;
    }
    posts
}

/// Normalizes a parsed payload into a fully populated record for `username`.
/// Every field defaults independently; the first `POST_CAP` post edges are
/// kept in upstream order.
pub fn normalize_document(username: String, doc: &DocValue) -> (r: ProfileSnapshot)
    ensures
        r@ == spec_normalize(username@, *doc),
{
    let data = doc.get("data");
    let user = opt_get(data, "user");
    let media = opt_get(user, "edge_owner_to_timeline_media");
    let posts = match opt_get(media, "edges") {
        Some(d) => match d.as_list() {
            Some(edges) => extract_posts(edges),
            None => Vec::new(),
        },
        None => Vec::new(),
    };
    proof {
        if posts@.len() == 0 {
            assert(posts@.map_values(|p: PostSummary| p@) =~= Seq::<SpecPost>::empty());
        }
    }
    ProfileSnapshot {
        username,
        full_name: text_or_empty(opt_get(user, "full_name")),
        biography: text_or_empty(opt_get(user, "biography")),
        profile_pic_url: text_or_empty(opt_get(user, "profile_pic_url")),
        is_private: bool_or_false(opt_get(user, "is_private")),
        is_verified: bool_or_false(opt_get(user, "is_verified")),
        followers_count: int_or_zero(opt_get(opt_get(user, "edge_followed_by"), "count")),
        following_count: int_or_zero(opt_get(opt_get(user, "edge_follow"), "count")),
        posts_count: int_or_zero(opt_get(media, "count")),
        posts,
    }
}

/// Turns a fetch response into the document it stands for. The upstream call
/// itself is the caller's business; this takes the status and body as values.
pub fn response_document(success: bool, body: &str) -> (r: DocValue)
    ensures
        r == spec_response_document(success, body@),
{
    if success {
        match parse_json_document(body) {
            Some(d) => d,
            None => DocValue::Null,
        }
    } else {
        DocValue::Null
    }
}

/// Normalizes a fetch response for `username` in one step: parse, then default
/// every field independently.
pub fn normalize_response(username: String, success: bool, body: &str) -> (r: ProfileSnapshot)
    ensures
        r@ == spec_normalize(username@, spec_response_document(success, body@)),
{
    let doc = response_document(success, body);
    normalize_document(username, &doc)
}

/// Upstream failure is absorbed, never raised: a missing document — a failed
/// status or an unparsable body — normalizes to exactly the fully defaulted
/// record, the same value a transport failure substitutes.
pub proof fn lemma_no_document_normalizes_to_defaults(
    username: Seq<char>,
    success: bool,
    body: Seq<char>,
)
    ensures
        spec_normalize(username, DocValue::Null) == spec_default_snapshot(username),
        !success ==> spec_normalize(username, spec_response_document(success, body))
            == spec_default_snapshot(username),
{
}

/// A normalized record never carries more than `POST_CAP` post summaries, and
/// carries exactly as many as the read edges that hold a `node` object, capped.
pub proof fn lemma_post_cap(username: Seq<char>, doc: DocValue)
    ensures
        spec_normalize(username, doc).posts.len() <= POST_CAP,
{
    match spec_edges(doc) {
        Some(edges) => {
            lemma_posts_prefix_len(edges, spec_post_limit(edges.len() as int));
        },
        None => {},
    }
}

/// When every read edge holds a `node` object, the normalized record carries
/// one summary per read edge: all of them for a short list, `POST_CAP` for a
/// long one.
pub proof fn lemma_post_cap_reached(username: Seq<char>, doc: DocValue, edges: Seq<DocValue>)
    requires
        spec_edges(doc) == Some(edges),
        forall|k: int|
            0 <= k < spec_post_limit(edges.len() as int) ==> spec_get(edges[k], "node"@) is Some,
    ensures
        spec_normalize(username, doc).posts.len() == spec_post_limit(edges.len() as int),
{
    lemma_posts_prefix_len(edges, spec_post_limit(edges.len() as int));
}

proof fn lemma_posts_prefix_len(edges: Seq<DocValue>, n: int)
    requires
        0 <= n <= edges.len(),
    ensures
        spec_posts_prefix(edges, n).len() <= n,
        (forall|k: int| 0 <= k < n ==> spec_get(edges[k], "node"@) is Some)
            ==> spec_posts_prefix(edges, n).len() == n,
    decreases n,
{
    if n > 0 {
        lemma_posts_prefix_len(edges, n - 1);
    }
}

} // verus!
