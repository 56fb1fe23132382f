use moyn::client::{
    bearer_header, build_login_config, build_publish_request, delete_endpoint, delete_outcome,
    posts_endpoint, posts_outcome, publish_outcome, space_create_request, space_endpoint,
    space_show_outcome, spaces_endpoint, spaces_outcome, validate_visibility,
};
use moyn::config::Config;
use moyn::err::Error;

fn test_config() -> Config {
    Config {
        api_token: "moyn_secret".to_string(),
        api_url: "http://localhost:3000".to_string(),
    }
}

#[test]
fn endpoints_follow_the_path_templates() {
    let c = test_config();
    assert_eq!(posts_endpoint(&c), "http://localhost:3000/api/v1/posts");
    assert_eq!(delete_endpoint(&c, 7), "http://localhost:3000/api/v1/posts/7");
    assert_eq!(spaces_endpoint(&c), "http://localhost:3000/api/v1/spaces");
    assert_eq!(space_endpoint(&c, "dev"), "http://localhost:3000/api/v1/spaces/dev");
    assert_eq!(bearer_header(&c), "Bearer moyn_secret");
}

#[test]
fn publish_routes_to_space_when_named() {
    let c = test_config();
    let raw = "---\nspace: dev\n---\n# T\nbody";
    let plan = build_publish_request(&c, raw, "f.md");
    assert_eq!(plan.endpoint, "http://localhost:3000/api/v1/spaces/dev/posts");
    assert_eq!(plan.post.title, "T");
    assert_eq!(plan.post.content, raw);
    assert!(plan.post.published);
    assert!(plan.post.slug.is_none());
    assert!(plan.post.tags.is_none());
}

#[test]
fn publish_defaults_and_overrides() {
    let c = test_config();
    let raw = "---\ntitle: Given\npublished: false\nslug: s1\n---\nbody";
    let plan = build_publish_request(&c, raw, "f.md");
    assert_eq!(plan.endpoint, "http://localhost:3000/api/v1/posts");
    assert_eq!(plan.post.title, "Given");
    assert!(!plan.post.published);
    assert_eq!(plan.post.slug.as_deref(), Some("s1"));
    assert_eq!(plan.post.content, raw);
}

#[test]
fn delete_204_confirms_with_id() {
    match delete_outcome(12, 204, String::new()) {
        Ok(msg) => {
            assert!(msg.contains("12"));
            assert_eq!(msg, "Post 12 deleted.");
        }
        Err(_) => panic!("expected success"),
    }
}

#[test]
fn delete_404_reports_missing_post() {
    match delete_outcome(12, 404, String::new()) {
        Err(Error::NotFound(msg)) => {
            assert!(msg.contains("12"));
            assert_eq!(msg, "Post 12 not found.");
        }
        _ => panic!("expected the not-found failure"),
    }
}

#[test]
fn delete_other_status_keeps_status_and_body() {
    match delete_outcome(12, 500, "boom".to_string()) {
        Err(e @ Error::ApiFailure { .. }) => {
            if let Error::ApiFailure { ref context, status, ref body } = e {
                assert_eq!(context, "Failed to delete");
                assert_eq!(status, 500);
                assert_eq!(body, "boom");
            }
            assert_eq!(e.message(), "Failed to delete: 500 - boom");
        }
        _ => panic!("expected the api failure"),
    }
}

#[test]
fn invalid_visibility_fails_before_any_request() {
    match validate_visibility("archived") {
        Err(Error::Validation(msg)) => {
            assert_eq!(
                msg,
                "Invalid visibility 'archived'. Must be one of: public, unlisted, private"
            );
        }
        _ => panic!("expected the validation failure"),
    }
    assert!(validate_visibility("public").is_ok());
    assert!(validate_visibility("unlisted").is_ok());
    assert!(validate_visibility("private").is_ok());
}

#[test]
fn space_create_request_rejects_bad_visibility() {
    let c = test_config();
    let r = space_create_request(&c, "Team".to_string(), None, None, "archived".to_string());
    assert!(r.is_err());
    let r = space_create_request(
        &c,
        "Team".to_string(),
        Some("team".to_string()),
        Some("desc".to_string()),
        "private".to_string(),
    );
    match r {
        Ok((endpoint, payload)) => {
            assert_eq!(endpoint, "http://localhost:3000/api/v1/spaces");
            assert_eq!(payload.name, "Team");
            assert_eq!(payload.slug.as_deref(), Some("team"));
            assert_eq!(payload.description.as_deref(), Some("desc"));
            assert_eq!(payload.visibility.as_deref(), Some("private"));
        }
        Err(_) => panic!("expected the request to build"),
    }
}

#[test]
fn publish_success_decodes_post() {
    let body = "{\"post\":{\"id\":1,\"title\":\"T\",\"slug\":\"t\",\"url\":\"http://p/1\"}}";
    match publish_outcome(200, body.to_string()) {
        Ok(post) => {
            assert_eq!(post.id, 1);
            assert_eq!(post.title, "T");
            assert_eq!(post.slug, "t");
            assert_eq!(post.url, "http://p/1");
        }
        Err(_) => panic!("expected the post to decode"),
    }
}

#[test]
fn publish_failure_keeps_status_and_body() {
    match publish_outcome(422, "bad slug".to_string()) {
        Err(e @ Error::ApiFailure { .. }) => {
            assert_eq!(e.message(), "Failed to publish: 422 - bad slug");
        }
        _ => panic!("expected the api failure"),
    }
}

#[test]
fn publish_bad_body_is_a_decode_failure() {
    match publish_outcome(200, "not json".to_string()) {
        Err(e @ Error::ResponseDecode) => {
            assert_eq!(e.message(), "Could not parse response");
        }
        _ => panic!("expected the decode failure"),
    }
}

#[test]
fn posts_list_decodes_in_order() {
    let body = "{\"posts\":[\
        {\"id\":1,\"title\":\"A\",\"slug\":\"a\",\"url\":\"u1\"},\
        {\"id\":2,\"title\":\"B\",\"slug\":\"b\",\"url\":\"u2\"}]}";
    match posts_outcome(200, body.to_string()) {
        Ok(posts) => {
            assert_eq!(posts.len(), 2);
            assert_eq!(posts[0].id, 1);
            assert_eq!(posts[1].title, "B");
        }
        Err(_) => panic!("expected the list to decode"),
    }
}

#[test]
fn posts_list_with_bad_element_fails() {
    let body = "{\"posts\":[{\"id\":\"one\",\"title\":\"A\",\"slug\":\"a\",\"url\":\"u\"}]}";
    assert!(posts_outcome(200, body.to_string()).is_err());
}

#[test]
fn spaces_list_decodes_optional_fields() {
    let body = "{\"spaces\":[{\"slug\":\"dev\",\"name\":\"Dev\",\"description\":null,\
        \"visibility\":\"private\",\"access_token\":\"tok\",\"url\":\"u\",\"token_url\":\"tu\"}]}";
    match spaces_outcome(200, body.to_string()) {
        Ok(spaces) => {
            assert_eq!(spaces.len(), 1);
            assert_eq!(spaces[0].slug, "dev");
            assert_eq!(spaces[0].name, "Dev");
            assert!(spaces[0].description.is_none());
            assert_eq!(spaces[0].visibility, "private");
            assert_eq!(spaces[0].access_token.as_deref(), Some("tok"));
            assert_eq!(spaces[0].token_url.as_deref(), Some("tu"));
        }
        Err(_) => panic!("expected the spaces to decode"),
    }
}

#[test]
fn space_show_404_names_the_slug() {
    match space_show_outcome("dev", 404, String::new()) {
        Err(Error::NotFound(msg)) => {
            assert_eq!(msg, "Space 'dev' not found or you don't have access.");
        }
        _ => panic!("expected the not-found failure"),
    }
}

#[test]
fn space_show_success_decodes_space() {
    let body = "{\"space\":{\"slug\":\"dev\",\"name\":\"Dev\",\"visibility\":\"public\",\"url\":\"u\"}}";
    match space_show_outcome("dev", 200, body.to_string()) {
        Ok(space) => {
            assert_eq!(space.slug, "dev");
            assert!(space.description.is_none());
            assert!(space.access_token.is_none());
            assert!(space.token_url.is_none());
        }
        Err(_) => panic!("expected the space to decode"),
    }
}

#[test]
fn login_requires_the_token_prefix() {
    match build_login_config("  wrong_token  ", "") {
        Err(Error::Validation(msg)) => {
            assert_eq!(msg, "Invalid token format. Token should start with 'moyn_'");
        }
        _ => panic!("expected the validation failure"),
    }
}

#[test]
fn login_trims_and_defaults_the_url() {
    match build_login_config(" moyn_tok \n", "   \n") {
        Ok(c) => {
            assert_eq!(c.api_token, "moyn_tok");
            assert_eq!(c.api_url, "http://localhost:3000");
        }
        Err(_) => panic!("expected the login to build"),
    }
    match build_login_config("moyn_t", " http://h ") {
        Ok(c) => assert_eq!(c.api_url, "http://h"),
        Err(_) => panic!("expected the login to build"),
    }
}
