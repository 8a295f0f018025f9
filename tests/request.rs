use capybara::comment::{CommentId, CreateComment, CreateCommentLike, GetComments};
use capybara::person::Login;
use capybara::post::{GetPosts, PostId, SavePost};
use capybara::request::{get_url, ClientError, HttpMode, LemmyRequest};

#[test]
fn get_request_url_has_query() {
    let url = get_url("https://lemmy.ml", GetPosts::get_path(), GetPosts::get_http_mode(), "page=2");
    assert_eq!(url, "https://lemmy.ml/api/v3/post/list?page=2");
}

#[test]
fn post_request_url_has_no_query() {
    let url = get_url("https://lemmy.ml", SavePost::get_path(), HttpMode::POST, "ignored=1");
    assert_eq!(url, "https://lemmy.ml/api/v3/post/save");
}

#[test]
fn paths_and_modes() {
    assert_eq!(GetComments::get_path(), "/comment/list");
    assert_eq!(GetComments::get_http_mode(), HttpMode::GET);
    assert_eq!(Login::get_path(), "/user/login");
    assert_eq!(Login::get_http_mode(), HttpMode::POST);
    assert_eq!(CreateCommentLike::get_path(), "/comment/like");
}

#[test]
fn auth_required_without_token_fails() {
    let mut like = CreateCommentLike { comment_id: CommentId(3), score: 1, auth: String::new() };
    assert_eq!(like.set_auth(None), Err(ClientError::NotAuthorized));
    assert_eq!(like.auth, "");
    assert_eq!(like.set_auth(Some("tok".to_string())), Ok(()));
    assert_eq!(like.auth, "tok");
}

#[test]
fn optional_auth_accepts_none() {
    let mut req = GetPosts { auth: Some("old".to_string()), ..Default::default() };
    assert_eq!(req.set_auth(None), Ok(()));
    assert_eq!(req.auth, None);
    let mut save = SavePost { post_id: PostId(1), save: true, auth: String::new() };
    assert_eq!(save.set_auth(Some("t".to_string())), Ok(()));
    assert_eq!(save.auth, "t");
}

#[test]
fn login_takes_no_token() {
    let mut login = Login::default();
    assert_eq!(login.set_auth(None), Ok(()));
}

#[test]
fn set_auth_leaves_other_fields() {
    let mut c = CreateComment {
        content: "hi".to_string(),
        post_id: PostId(4),
        parent_id: Some(CommentId(2)),
        ..Default::default()
    };
    assert_eq!(c.set_auth(Some("tok".to_string())), Ok(()));
    assert_eq!(c.content, "hi");
    assert_eq!(c.post_id, PostId(4));
    assert_eq!(c.parent_id, Some(CommentId(2)));
    assert_eq!(c.auth, "tok");
    let mut g = GetPosts { page: Some(3), limit: Some(10), ..Default::default() };
    assert_eq!(g.set_auth(Some("t".to_string())), Ok(()));
    assert_eq!(g.page, Some(3));
    assert_eq!(g.limit, Some(10));
    assert_eq!(g.auth, Some("t".to_string()));
}
