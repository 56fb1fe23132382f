//! The server's entities and the decoding of its JSON response bodies into
//! them.  The JSON grammar itself is parsed by a trusted boundary; the
//! schema of each response is read off the parsed document here, verified
//! against a spec of exactly which shapes are accepted.

use vstd::prelude::*;
use vstd::string::*;
use crate::json::{
    json_as_array, json_as_str, json_as_u64, json_doc, json_get, json_is_null, json_model,
    parse_json, Json,
};

verus! {

/// A post as the server reports it.
pub struct Post {
    pub id: u64,
    pub title: String,
    pub slug: String,
    pub url: String,
}

/// Mathematical image of a `Post`.
pub struct PostView {
    pub id: u64,
    pub title: Seq<char>,
    pub slug: Seq<char>,
    pub url: Seq<char>,
}

impl View for Post {
    type V = PostView;

    open spec fn view(&self) -> PostView {
        PostView { id: self.id, title: self.title@, slug: self.slug@, url: self.url@ }
    }
}

/// A space as the server reports it.
pub struct Space {
    pub slug: String,
    pub name: String,
    pub description: Option<String>,
    pub visibility: String,
    pub access_token: Option<String>,
    pub url: String,
    pub token_url: Option<String>,
}

/// Mathematical image of a `Space`.
pub struct SpaceView {
    pub slug: Seq<char>,
    pub name: Seq<char>,
    pub description: Option<Seq<char>>,
    pub visibility: Seq<char>,
    pub access_token: Option<Seq<char>>,
    pub url: Seq<char>,
    pub token_url: Option<Seq<char>>,
}

impl View for Space {
    type V = SpaceView;

    open spec fn view(&self) -> SpaceView {
        SpaceView {
            slug: self.slug@,
            name: self.name@,
            description: self.description.deep_view(),
            visibility: self.visibility@,
            access_token: self.access_token.deep_view(),
            url: self.url@,
            token_url: self.token_url.deep_view(),
        }
    }
}

/// A required string field of a response object.
pub open spec fn req_str(m: Map<Seq<char>, Json>, key: Seq<char>) -> Option<Seq<char>> {
    if m.contains_key(key) {
        match m[key] {
            Json::Str(s) => Some(s),
            _ => None,
        }
    } else {
        None
    }
}

/// A required unsigned integer field of a response object.
pub open spec fn req_u64(m: Map<Seq<char>, Json>, key: Seq<char>) -> Option<u64> {
    if m.contains_key(key) {
        match m[key] {
            Json::UInt(n) => Some(n),
            _ => None,
        }
    } else {
        None
    }
}

/// An optional string field of a response object: absent or null is no
/// value; any non-string value makes the object undecodable.
pub open spec fn opt_str(m: Map<Seq<char>, Json>, key: Seq<char>) -> Option<Option<Seq<char>>> {
    if !m.contains_key(key) {
        Some(None)
    } else {
        match m[key] {
            Json::Null => Some(None),
            Json::Str(s) => Some(Some(s)),
            _ => None,
        }
    }
}

/// Reads a required string field, or fails when the value is not an object
/// or lacks the field.
fn jreq_str(v: &serde_json::Value, key: &str) -> (r: Option<String>)
    ensures
        (match r {
            Some(s) => Some(s@),
            None => None,
        }) == (match json_model(*v) {
            Json::Obj(m) => req_str(m, key@),
            _ => None,
        }),
{
    match json_get(v, key) {
        None => None,
        Some(u) => match json_as_str(u) {
            Some(s) => Some(s.to_owned()),
            None => None,
        },
    }
}

/// Reads a required unsigned integer field.
fn jreq_u64(v: &serde_json::Value, key: &str) -> (r: Option<u64>)
    ensures
        r == (match json_model(*v) {
            Json::Obj(m) => req_u64(m, key@),
            _ => None,
        }),
{
    match json_get(v, key) {
        None => None,
        Some(u) => json_as_u64(u),
    }
}

/// Reads an optional string field.
fn jopt_str(v: &serde_json::Value, key: &str) -> (r: Option<Option<String>>)
    requires
        json_model(*v) is Obj,
    ensures
        (match r {
            Some(f) => Some(f.deep_view()),
            None => None,
        }) == opt_str(json_model(*v)->Obj_0, key@),
{
    match json_get(v, key) {
        None => Some(None),
        Some(u) => {
            if json_is_null(u) {
                Some(None)
            } else {
                match json_as_str(u) {
                    Some(s) => Some(Some(s.to_owned())),
                    None => None,
                }
            }
        },
    }
}

/// Decoding one post object of a response.
pub open spec fn post_of(j: Json) -> Option<PostView> {
    match j {
        Json::Obj(m) => {
            if req_u64(m, "id"@) is Some && req_str(m, "title"@) is Some && req_str(
                m,
                "slug"@,
            ) is Some && req_str(m, "url"@) is Some {
                Some(
                    PostView {
                        id: req_u64(m, "id"@)->Some_0,
                        title: req_str(m, "title"@)->Some_0,
                        slug: req_str(m, "slug"@)->Some_0,
                        url: req_str(m, "url"@)->Some_0,
                    },
                )
            } else {
                None
            }
        },
        _ => None,
    }
}

/// Decoding one space object of a response.
pub open spec fn space_of(j: Json) -> Option<SpaceView> {
    match j {
        Json::Obj(m) => {
            if req_str(m, "slug"@) is Some && req_str(m, "name"@) is Some && opt_str(
                m,
                "description"@,
            ) is Some && req_str(m, "visibility"@) is Some && opt_str(m, "access_token"@) is Some
                && req_str(m, "url"@) is Some && opt_str(m, "token_url"@) is Some {
                Some(
                    SpaceView {
                        slug: req_str(m, "slug"@)->Some_0,
                        name: req_str(m, "name"@)->Some_0,
                        description: opt_str(m, "description"@)->Some_0,
                        visibility: req_str(m, "visibility"@)->Some_0,
                        access_token: opt_str(m, "access_token"@)->Some_0,
                        url: req_str(m, "url"@)->Some_0,
                        token_url: opt_str(m, "token_url"@)->Some_0,
                    },
                )
            } else {
                None
            }
        },
        _ => None,
    }
}

/// Decodes one post object, mirroring `post_of`.
fn post_of_value(v: &serde_json::Value) -> (r: Option<Post>)
    ensures
        (match r {
            Some(p) => Some(p@),
            None => None,
        }) == post_of(json_model(*v)),
{
    let id = match jreq_u64(v, "id") {
        Some(x) => x,
        None => return None,
    };
    let title = match jreq_str(v, "title") {
        Some(x) => x,
        None => return None,
    };
    let slug = match jreq_str(v, "slug") {
        Some(x) => x,
        None => return None,
    };
    let url = match jreq_str(v, "url") {
        Some(x) => x,
        None => return None,
    };
    Some(Post { id, title, slug, url })
}

/// Decodes one space object, mirroring `space_of`.
fn space_of_value(v: &serde_json::Value) -> (r: Option<Space>)
    ensures
        (match r {
            Some(p) => Some(p@),
            None => None,
        }) == space_of(json_model(*v)),
{
    let slug = match jreq_str(v, "slug") {
        Some(x) => x,
        None => return None,
    };
    let name = match jreq_str(v, "name") {
        Some(x) => x,
        None => return None,
    };
    let description = match jopt_str(v, "description") {
        Some(x) => x,
        None => return None,
    };
    let visibility = match jreq_str(v, "visibility") {
        Some(x) => x,
        None => return None,
    };
    let access_token = match jopt_str(v, "access_token") {
        Some(x) => x,
        None => return None,
    };
    let url = match jreq_str(v, "url") {
        Some(x) => x,
        None => return None,
    };
    let token_url = match jopt_str(v, "token_url") {
        Some(x) => x,
        None => return None,
    };
    Some(Space { slug, name, description, visibility, access_token, url, token_url })
}

/// Decoding a whole list of posts: every element must decode.
pub open spec fn posts_of(l: Seq<Json>) -> Option<Seq<PostView>> {
    if forall|i: int| 0 <= i < l.len() ==> post_of(#[trigger] l[i]) is Some {
        Some(Seq::new(l.len(), |i: int| post_of(l[i])->Some_0))
    } else {
        None
    }
}

/// Decoding a whole list of spaces: every element must decode.
pub open spec fn spaces_of(l: Seq<Json>) -> Option<Seq<SpaceView>> {
    if forall|i: int| 0 <= i < l.len() ==> space_of(#[trigger] l[i]) is Some {
        Some(Seq::new(l.len(), |i: int| space_of(l[i])->Some_0))
    } else {
        None
    }
}

/// What the body of a create-post response decodes to: an object holding
/// the post under `post`.
pub open spec fn post_response_of(s: Seq<char>) -> Option<PostView> {
    match json_doc(s) {
        Some(j) => match j {
            Json::Obj(m) => {
                if m.contains_key("post"@) {
                    post_of(m["post"@])
                } else {
                    None
                }
            },
            _ => None,
        },
        None => None,
    }
}

/// What the body of a list-posts response decodes to: an object holding an
/// array of posts under `posts`.
pub open spec fn posts_response_of(s: Seq<char>) -> Option<Seq<PostView>> {
    match json_doc(s) {
        Some(j) => match j {
            Json::Obj(m) => {
                if m.contains_key("posts"@) && m["posts"@] is Arr {
                    posts_of(m["posts"@]->Arr_0)
                } else {
                    None
                }
            },
            _ => None,
        },
        None => None,
    }
}

/// What the body of a space response decodes to: an object holding the
/// space under `space`.
pub open spec fn space_response_of(s: Seq<char>) -> Option<SpaceView> {
    match json_doc(s) {
        Some(j) => match j {
            Json::Obj(m) => {
                if m.contains_key("space"@) {
                    space_of(m["space"@])
                } else {
                    None
                }
            },
            _ => None,
        },
        None => None,
    }
}

/// What the body of a list-spaces response decodes to: an object holding
/// an array of spaces under `spaces`.
pub open spec fn spaces_response_of(s: Seq<char>) -> Option<Seq<SpaceView>> {
    match json_doc(s) {
        Some(j) => match j {
            Json::Obj(m) => {
                if m.contains_key("spaces"@) && m["spaces"@] is Arr {
                    spaces_of(m["spaces"@]->Arr_0)
                } else {
                    None
                }
            },
            _ => None,
        },
        None => None,
    }
}

/// Decodes a create-post response body, mirroring `post_response_of`.
pub fn parse_post_response(body: &str) -> (r: Option<Post>)
    ensures
        (match r {
            Some(p) => Some(p@),
            None => None,
        }) == post_response_of(body@),
{
    let doc = match parse_json(body) {
        Some(v) => v,
        None => return None,
    };
    let p = match json_get(&doc, "post") {
        Some(u) => u,
        None => return None,
    };
    post_of_value(p)
}

/// Decodes a space response body, mirroring `space_response_of`.
pub fn parse_space_response(body: &str) -> (r: Option<Space>)
    ensures
        (match r {
            Some(p) => Some(p@),
            None => None,
        }) == space_response_of(body@),
{
    let doc = match parse_json(body) {
        Some(v) => v,
        None => return None,
    };
    let p = match json_get(&doc, "space") {
        Some(u) => u,
        None => return None,
    };
    space_of_value(p)
}

/// Decodes a list-posts response body, mirroring `posts_response_of`.
pub fn parse_posts_response(body: &str) -> (r: Option<Vec<Post>>)
    ensures
        (match r {
            Some(ps) => Some(Seq::new(ps@.len(), |i: int| ps@[i]@)),
            None => None,
        }) == posts_response_of(body@),
{
    let doc = match parse_json(body) {
        Some(v) => v,
        None => return None,
    };
    let arr_v = match json_get(&doc, "posts") {
        Some(u) => u,
        None => return None,
    };
    let xs = match json_as_array(arr_v) {
        Some(a) => a,
        None => return None,
    };
    let ghost l = json_model(*arr_v)->Arr_0;
    let mut out: Vec<Post> = Vec::new();
    let mut i: usize = 0;
    while i < xs.len()
        invariant
            json_doc(body@) == Some(json_model(doc)),
            json_model(doc) is Obj,
            json_model(doc)->Obj_0.contains_key("posts"@),
            json_model(doc)->Obj_0["posts"@] == json_model(*arr_v),
            json_model(*arr_v) is Arr,
            l == json_model(*arr_v)->Arr_0,
            xs@.len() == l.len(),
            forall|t: int| 0 <= t < l.len() ==> #[trigger] json_model(xs@[t]) == l[t],
            i <= xs@.len(),
            out@.len() == i,
            forall|t: int|
                0 <= t < i ==> post_of(#[trigger] l[t]) is Some && post_of(l[t])->Some_0
                    == out@[t]@,
        decreases xs@.len() - i,
    {
        proof {
            assert(json_model(xs@[i as int]) == l[i as int]);
        }
        let ghost prev = out@;
        let p = match post_of_value(&xs[i]) {
            Some(p) => p,
            None => {
                proof {
                    assert(post_of(l[i as int]) is None);
                    assert(posts_of(l) is None);
                }
                return None;
            },
        };
        let ghost pv = p@;
        out.push(p);
        i += 1;
        proof {
            assert forall|t: int| #![trigger out@[t]] 0 <= t < i implies post_of(l[t]) is Some
                && post_of(l[t])->Some_0 == out@[t]@ by {
                if t == i - 1 {
                    assert(out@[t]@ == pv);
                    assert(post_of(l[t]) == Some(pv));
                } else {
                    assert(out@[t] == prev[t]);
                }
            }
        }
    }
    proof {
        assert(Seq::new(out@.len(), |t: int| out@[t]@) =~= Seq::new(
            l.len(),
            |t: int| post_of(l[t])->Some_0,
        ));
    }
    Some(out)
}

/// Decodes a list-spaces response body, mirroring `spaces_response_of`.
pub fn parse_spaces_response(body: &str) -> (r: Option<Vec<Space>>)
    ensures
        (match r {
            Some(ps) => Some(Seq::new(ps@.len(), |i: int| ps@[i]@)),
            None => None,
        }) == spaces_response_of(body@),
{
    let doc = match parse_json(body) {
        Some(v) => v,
        None => return None,
    };
    let arr_v = match json_get(&doc, "spaces") {
        Some(u) => u,
        None => return None,
    };
    let xs = match json_as_array(arr_v) {
        Some(a) => a,
        None => return None,
    };
    let ghost l = json_model(*arr_v)->Arr_0;
    let mut out: Vec<Space> = Vec::new();
    let mut i: usize = 0;
    while i < xs.len()
        invariant
            json_doc(body@) == Some(json_model(doc)),
            json_model(doc) is Obj,
            json_model(doc)->Obj_0.contains_key("spaces"@),
            json_model(doc)->Obj_0["spaces"@] == json_model(*arr_v),
            json_model(*arr_v) is Arr,
            l == json_model(*arr_v)->Arr_0,
            xs@.len() == l.len(),
            forall|t: int| 0 <= t < l.len() ==> #[trigger] json_model(xs@[t]) == l[t],
            i <= xs@.len(),
            out@.len() == i,
            forall|t: int|
                0 <= t < i ==> space_of(#[trigger] l[t]) is Some && space_of(l[t])->Some_0
                    == out@[t]@,
        decreases xs@.len() - i,
    {
        proof {
            assert(json_model(xs@[i as int]) == l[i as int]);
        }
        let ghost prev = out@;
        let p = match space_of_value(&xs[i]) {
            Some(p) => p,
            None => {
                proof {
                    assert(space_of(l[i as int]) is None);
                    assert(spaces_of(l) is None);
                }
                return None;
            },
        };
        let ghost pv = p@;
        out.push(p);
        i += 1;
        proof {
            assert forall|t: int| #![trigger out@[t]] 0 <= t < i implies space_of(l[t]) is Some
                && space_of(l[t])->Some_0 == out@[t]@ by {
                if t == i - 1 {
                    assert(out@[t]@ == pv);
                    assert(space_of(l[t]) == Some(pv));
                } else {
                    assert(out@[t] == prev[t]);
                }
            }
        }
    }
    proof {
        assert(Seq::new(out@.len(), |t: int| out@[t]@) =~= Seq::new(
            l.len(),
            |t: int| space_of(l[t])->Some_0,
        ));
    }
    Some(out)
}

} // verus!
