//! One function per remote operation: each builds the endpoint and payload
//! for its request, and each classifies the status and body that came back.
//! The caller performs the HTTP exchange between the two halves and passes
//! plain values across; everything decided here is verified.

use vstd::prelude::*;
use vstd::string::*;
use crate::api::{
    parse_post_response, parse_posts_response, parse_space_response, parse_spaces_response,
    post_response_of, posts_response_of, space_response_of, spaces_response_of, Post, Space,
};
use crate::config::Config;
use crate::err::Error;
use crate::frontmatter::{parse_frontmatter, spec_extract, spec_trim};
use crate::text::{matches_at, push_dec, spec_dec, str_eq};
use crate::title::{resolve_title, spec_resolve_title, trim_str};

verus! {

/// The path of the default publish and list endpoint.
pub open spec fn spec_posts_path(api_url: Seq<char>) -> Seq<char> {
    api_url + "/api/v1/posts"@
}

/// The path of the delete endpoint for one post.
pub open spec fn spec_delete_path(api_url: Seq<char>, id: u64) -> Seq<char> {
    api_url + "/api/v1/posts/"@ + spec_dec(id as nat)
}

/// The path of the list-spaces and create-space endpoint.
pub open spec fn spec_spaces_path(api_url: Seq<char>) -> Seq<char> {
    api_url + "/api/v1/spaces"@
}

/// The path of the endpoint for one space.
pub open spec fn spec_space_path(api_url: Seq<char>, slug: Seq<char>) -> Seq<char> {
    api_url + "/api/v1/spaces/"@ + slug
}

/// The publish endpoint: space-scoped when the metadata names a space.
pub open spec fn spec_publish_path(api_url: Seq<char>, space: Option<Seq<char>>) -> Seq<char> {
    match space {
        Some(sp) => api_url + "/api/v1/spaces/"@ + sp + "/posts"@,
        None => spec_posts_path(api_url),
    }
}

/// The URL for listing posts.
pub fn posts_endpoint(config: &Config) -> (r: String)
    ensures
        r@ == spec_posts_path(config.api_url@),
{
    let mut r = config.api_url.clone();
    r.append("/api/v1/posts");
    r
}

/// The URL for deleting one post.
pub fn delete_endpoint(config: &Config, id: u64) -> (r: String)
    ensures
        r@ == spec_delete_path(config.api_url@, id),
{
    let mut r = config.api_url.clone();
    r.append("/api/v1/posts/");
    push_dec(&mut r, id);
    proof {
        assert(r@ =~= spec_delete_path(config.api_url@, id));
    }
    r
}

/// The URL for listing or creating spaces.
pub fn spaces_endpoint(config: &Config) -> (r: String)
    ensures
        r@ == spec_spaces_path(config.api_url@),
{
    let mut r = config.api_url.clone();
    r.append("/api/v1/spaces");
    r
}

/// The URL for one space.
pub fn space_endpoint(config: &Config, slug: &str) -> (r: String)
    ensures
        r@ == spec_space_path(config.api_url@, slug@),
{
    let mut r = config.api_url.clone();
    r.append("/api/v1/spaces/");
    r.append(slug);
    proof {
        assert(r@ =~= spec_space_path(config.api_url@, slug@));
    }
    r
}

/// The URL a post is published to.
pub fn publish_endpoint(config: &Config, space: &Option<String>) -> (r: String)
    ensures
        r@ == spec_publish_path(config.api_url@, space.deep_view()),
{
    match space {
        None => posts_endpoint(config),
        Some(sp) => {
            let mut r = config.api_url.clone();
            r.append("/api/v1/spaces/");
            r.append(sp.as_str());
            r.append("/posts");
            proof {
                assert(r@ =~= spec_publish_path(config.api_url@, space.deep_view()));
            }
            r
        },
    }
}

/// The value of the authorization header every request carries.
pub fn bearer_header(config: &Config) -> (r: String)
    ensures
        r@ == "Bearer "@ + config.api_token@,
{
    let mut r = String::new();
    r.append("Bearer ");
    r.append(config.api_token.as_str());
    proof {
        assert(r@ =~= "Bearer "@ + config.api_token@);
    }
    r
}

/// The 2xx range, in which a response carries a decodable body.
pub open spec fn is_success(status: u16) -> bool {
    200 <= status < 300
}

fn api_failure(context: &str, status: u16, body: String) -> (r: Error)
    ensures
        r matches Error::ApiFailure { context: c, status: st, body: b } && c@ == context@ && st
            == status && b@ == body@,
{
    Error::ApiFailure { context: context.to_owned(), status, body }
}

/// Classifies a publish response: outside 2xx the failure keeps status and
/// body; inside, the body must decode to the created post.
pub fn publish_outcome(status: u16, body: String) -> (r: Result<Post, Error>)
    ensures
        !is_success(status) ==> (r matches Err(e) && e matches Error::ApiFailure {
            context: c,
            status: st,
            body: b,
        } && c@ == "Failed to publish"@ && st == status && b@ == body@),
        is_success(status) ==> match post_response_of(body@) {
            Some(p) => r matches Ok(post) && post@ == p,
            None => r matches Err(e) && e is ResponseDecode,
        },
{
    if !(200 <= status && status < 300) {
        return Err(api_failure("Failed to publish", status, body));
    }
    match parse_post_response(body.as_str()) {
        Some(p) => Ok(p),
        None => Err(Error::ResponseDecode),
    }
}

/// Classifies a list-posts response.
pub fn posts_outcome(status: u16, body: String) -> (r: Result<Vec<Post>, Error>)
    ensures
        !is_success(status) ==> (r matches Err(e) && e matches Error::ApiFailure {
            context: c,
            status: st,
            body: b,
        } && c@ == "Failed to fetch posts"@ && st == status && b@ == body@),
        is_success(status) ==> match posts_response_of(body@) {
            Some(ps) => r matches Ok(v) && Seq::new(v@.len(), |i: int| v@[i]@) == ps,
            None => r matches Err(e) && e is ResponseDecode,
        },
{
    if !(200 <= status && status < 300) {
        return Err(api_failure("Failed to fetch posts", status, body));
    }
    match parse_posts_response(body.as_str()) {
        Some(ps) => Ok(ps),
        None => Err(Error::ResponseDecode),
    }
}

/// Classifies a list-spaces response.
pub fn spaces_outcome(status: u16, body: String) -> (r: Result<Vec<Space>, Error>)
    ensures
        !is_success(status) ==> (r matches Err(e) && e matches Error::ApiFailure {
            context: c,
            status: st,
            body: b,
        } && c@ == "Failed to fetch spaces"@ && st == status && b@ == body@),
        is_success(status) ==> match spaces_response_of(body@) {
            Some(ps) => r matches Ok(v) && Seq::new(v@.len(), |i: int| v@[i]@) == ps,
            None => r matches Err(e) && e is ResponseDecode,
        },
{
    if !(200 <= status && status < 300) {
        return Err(api_failure("Failed to fetch spaces", status, body));
    }
    match parse_spaces_response(body.as_str()) {
        Some(ps) => Ok(ps),
        None => Err(Error::ResponseDecode),
    }
}

/// Classifies a create-space response.
pub fn space_create_outcome(status: u16, body: String) -> (r: Result<Space, Error>)
    ensures
        !is_success(status) ==> (r matches Err(e) && e matches Error::ApiFailure {
            context: c,
            status: st,
            body: b,
        } && c@ == "Failed to create space"@ && st == status && b@ == body@),
        is_success(status) ==> match space_response_of(body@) {
            Some(p) => r matches Ok(sp) && sp@ == p,
            None => r matches Err(e) && e is ResponseDecode,
        },
{
    if !(200 <= status && status < 300) {
        return Err(api_failure("Failed to create space", status, body));
    }
    match parse_space_response(body.as_str()) {
        Some(p) => Ok(p),
        None => Err(Error::ResponseDecode),
    }
}

/// The message a missing space is reported with.
pub open spec fn spec_space_missing(slug: Seq<char>) -> Seq<char> {
    "Space '"@ + slug + "' not found or you don't have access."@
}

/// Classifies a show-space response: 404 names the slug, other failures
/// keep status and body, success must decode to the space.
pub fn space_show_outcome(slug: &str, status: u16, body: String) -> (r: Result<Space, Error>)
    ensures
        status == 404 ==> (r matches Err(e) && e matches Error::NotFound(m) && m@
            == spec_space_missing(slug@)),
        status != 404 && !is_success(status) ==> (r matches Err(e) && e
            matches Error::ApiFailure { context: c, status: st, body: b } && c@
            == "Failed to fetch space"@ && st == status && b@ == body@),
        status != 404 && is_success(status) ==> match space_response_of(body@) {
            Some(p) => r matches Ok(sp) && sp@ == p,
            None => r matches Err(e) && e is ResponseDecode,
        },
{
    if status == 404 {
        let mut m = String::new();
        m.append("Space '");
        m.append(slug);
        m.append("' not found or you don't have access.");
        proof {
            assert(m@ =~= spec_space_missing(slug@));
        }
        return Err(Error::NotFound(m));
    }
    if !(200 <= status && status < 300) {
        return Err(api_failure("Failed to fetch space", status, body));
    }
    match parse_space_response(body.as_str()) {
        Some(p) => Ok(p),
        None => Err(Error::ResponseDecode),
    }
}

/// The message a deleted post is confirmed with.
pub open spec fn spec_deleted_msg(id: u64) -> Seq<char> {
    "Post "@ + spec_dec(id as nat) + " deleted."@
}

/// The message a missing post is reported with.
pub open spec fn spec_post_missing(id: u64) -> Seq<char> {
    "Post "@ + spec_dec(id as nat) + " not found."@
}

/// Classifies a delete response: 204 confirms the deletion, 404 reports the
/// post missing, anything else keeps status and body.
pub fn delete_outcome(id: u64, status: u16, body: String) -> (r: Result<String, Error>)
    ensures
        status == 204 ==> (r matches Ok(m) && m@ == spec_deleted_msg(id)),
        status == 404 ==> (r matches Err(e) && e matches Error::NotFound(m) && m@
            == spec_post_missing(id)),
        status != 204 && status != 404 ==> (r matches Err(e) && e matches Error::ApiFailure {
            context: c,
            status: st,
            body: b,
        } && c@ == "Failed to delete"@ && st == status && b@ == body@),
{
    if status == 204 {
        let mut m = String::new();
        m.append("Post ");
        push_dec(&mut m, id);
        m.append(" deleted.");
        proof {
            assert(m@ =~= spec_deleted_msg(id));
        }
        Ok(m)
    } else if status == 404 {
        let mut m = String::new();
        m.append("Post ");
        push_dec(&mut m, id);
        m.append(" not found.");
        proof {
            assert(m@ =~= spec_post_missing(id));
        }
        Err(Error::NotFound(m))
    } else {
        Err(api_failure("Failed to delete", status, body))
    }
}

/// The visibility levels a space can be created with.
pub open spec fn valid_visibility(v: Seq<char>) -> bool {
    v == "public"@ || v == "unlisted"@ || v == "private"@
}

/// The message an invalid visibility is rejected with: it enumerates the
/// accepted values.
pub open spec fn spec_visibility_msg(v: Seq<char>) -> Seq<char> {
    "Invalid visibility '"@ + v + "'. Must be one of: public, unlisted, private"@
}

/// Accepts exactly the three visibility levels.
pub fn validate_visibility(v: &str) -> (r: Result<(), Error>)
    ensures
        r is Ok <==> valid_visibility(v@),
        r matches Err(e) ==> (e matches Error::Validation(m) && m@ == spec_visibility_msg(v@)),
{
    if str_eq(v, "public") || str_eq(v, "unlisted") || str_eq(v, "private") {
        Ok(())
    } else {
        let mut m = String::new();
        m.append("Invalid visibility '");
        m.append(v);
        m.append("'. Must be one of: public, unlisted, private");
        proof {
            assert(m@ =~= spec_visibility_msg(v@));
        }
        Err(Error::Validation(m))
    }
}

/// An outbound create-space payload; fields are sent only when present.
pub struct CreateSpace {
    pub name: String,
    pub slug: Option<String>,
    pub description: Option<String>,
    pub visibility: Option<String>,
}

/// Builds the create-space request, validating the visibility before
/// anything is sent: an invalid level fails here, with no request built.
pub fn space_create_request(
    config: &Config,
    name: String,
    slug: Option<String>,
    description: Option<String>,
    visibility: String,
) -> (r: Result<(String, CreateSpace), Error>)
    ensures
        r is Ok <==> valid_visibility(visibility@),
        r matches Ok(p) ==> {
            &&& p.0@ == spec_spaces_path(config.api_url@)
            &&& p.1.name@ == name@
            &&& p.1.slug.deep_view() == slug.deep_view()
            &&& p.1.description.deep_view() == description.deep_view()
            &&& p.1.visibility.deep_view() == Some(visibility@)
        },
        r matches Err(e) ==> (e matches Error::Validation(m) && m@ == spec_visibility_msg(
            visibility@,
        )),
{
    match validate_visibility(visibility.as_str()) {
        Err(e) => Err(e),
        Ok(()) => {
            let endpoint = spaces_endpoint(config);
            Ok((endpoint, CreateSpace { name, slug, description, visibility: Some(visibility) }))
        },
    }
}

/// An outbound create-post payload; optional fields are sent only when the
/// metadata block set them.
pub struct CreatePost {
    pub title: String,
    pub content: String,
    pub published: bool,
    pub slug: Option<String>,
    pub tags: Option<Vec<String>>,
}

/// A publish request ready to send: where to, and what.
pub struct PublishPlan {
    pub endpoint: String,
    pub post: CreatePost,
}

/// Builds the publish request for a markdown file: splits the metadata
/// block off, resolves the title, defaults `published` to true, routes to
/// the space-scoped endpoint when a space is named, and sends the raw file
/// as the content.
pub fn build_publish_request(config: &Config, raw: &str, filename: &str) -> (r: PublishPlan)
    ensures
        ({
            let fm = spec_extract(raw@).0;
            let body = spec_extract(raw@).1;
            &&& r.endpoint@ == spec_publish_path(config.api_url@, fm.space)
            &&& r.post.title@ == spec_resolve_title(fm.title, body, filename@)
            &&& r.post.content@ == raw@
            &&& r.post.published == (match fm.published {
                Some(p) => p,
                None => true,
            })
            &&& r.post.slug.deep_view() == fm.slug
            &&& r.post.tags.deep_view() == fm.tags
        }),
{
    let parsed = parse_frontmatter(raw);
    let title = resolve_title(&parsed.frontmatter.title, parsed.content.as_str(), filename);
    let published = match parsed.frontmatter.published {
        Some(b) => b,
        None => true,
    };
    let endpoint = publish_endpoint(config, &parsed.frontmatter.space);
    PublishPlan {
        endpoint,
        post: CreatePost {
            title,
            content: raw.to_owned(),
            published,
            slug: parsed.frontmatter.slug,
            tags: parsed.frontmatter.tags,
        },
    }
}

/// The base URL used when the login prompt is left blank.
pub open spec fn spec_default_url() -> Seq<char> {
    "http://localhost:3000"@
}

/// The message a malformed token is rejected with.
pub open spec fn spec_token_msg() -> Seq<char> {
    "Invalid token format. Token should start with 'moyn_'"@
}

/// Accepts a token exactly when, after trimming, it carries the fixed
/// prefix every token of the service starts with.
pub fn validate_token(token_input: &str) -> (r: Result<(), Error>)
    ensures
        r is Ok <==> matches_at(spec_trim(token_input@), "moyn_"@, 0),
        r matches Err(e) ==> (e matches Error::Validation(m) && m@ == spec_token_msg()),
{
    let token = trim_str(token_input);
    if crate::text::has_at(token, "moyn_", 0) {
        Ok(())
    } else {
        let msg = "Invalid token format. Token should start with 'moyn_'";
        Err(Error::Validation(msg.to_owned()))
    }
}

/// Builds the configuration the login flow persists: the token must carry
/// the fixed prefix, and a blank URL falls back to the default.
pub fn build_login_config(token_input: &str, url_input: &str) -> (r: Result<Config, Error>)
    ensures
        r is Ok <==> matches_at(spec_trim(token_input@), "moyn_"@, 0),
        r matches Ok(c) ==> {
            &&& c.api_token@ == spec_trim(token_input@)
            &&& c.api_url@ == (if spec_trim(url_input@).len() == 0 {
                spec_default_url()
            } else {
                spec_trim(url_input@)
            })
        },
        r matches Err(e) ==> (e matches Error::Validation(m) && m@ == spec_token_msg()),
{
    let token = trim_str(token_input);
    if !crate::text::has_at(token, "moyn_", 0) {
        let msg = "Invalid token format. Token should start with 'moyn_'";
        return Err(Error::Validation(msg.to_owned()));
    }
    let url = trim_str(url_input);
    let api_url = if url.unicode_len() == 0 {
        let d = "http://localhost:3000";
        d.to_owned()
    } else {
        url.to_owned()
    };
    Ok(Config { api_token: token.to_owned(), api_url })
}

} // verus!
