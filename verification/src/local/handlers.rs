use vstd::prelude::*;

use crate::client::{Comment, User};
use crate::diff::parser::views_of;
use crate::line_diff::{clone_files, FileDiff};
use crate::local::state::{first_with_id, has_id, has_path, without_id, without_path, AppState};
use crate::text::{push_str, string_from};

verus! {

/// HTTP status of a created resource.
pub const STATUS_CREATED: u16 = 201;

/// HTTP status of a request that succeeded with nothing to send back.
pub const STATUS_NO_CONTENT: u16 = 204;

/// HTTP status of a request on something that does not exist.
pub const STATUS_NOT_FOUND: u16 = 404;

/// HTTP status of a request that failed on the server's side.
pub const STATUS_INTERNAL_SERVER_ERROR: u16 = 500;

/// Everything the review page reads: the refs, the files of the diff, the
/// comments and the files marked as viewed.
pub struct SessionResponse {
    pub start_ref: String,
    pub end_ref: String,
    pub files: Vec<FileDiff>,
    pub comments: Vec<Comment>,
    pub viewed_files: Vec<String>,
}

/// The answer to a request on one comment.
pub struct CommentResponse {
    pub comment: Comment,
}

/// A new comment as the review page sends it.
pub struct CreateCommentRequest {
    pub path: String,
    /// The line of a comment on a file; `None` for a comment on the whole review.
    pub line: Option<u32>,
    pub body: String,
    pub user: String,
    pub diff_hunk: String,
}

/// A new text for a comment.
pub struct UpdateCommentRequest {
    pub body: String,
}

/// Whether a file is to be marked as viewed or not.
pub struct SetPathStatusRequest {
    pub viewed: bool,
}

/// Why a request failed.
pub enum AppError {
    NotFound(String),
    Internal(String),
}

impl AppError {
    /// The HTTP status of the error and its message.
    pub fn into_response(self) -> (r: (u16, String))
        ensures
            match self {
                AppError::NotFound(m) => r == (STATUS_NOT_FOUND, m),
                AppError::Internal(m) => r == (STATUS_INTERNAL_SERVER_ERROR, m),
            },
    {
        match self {
            AppError::NotFound(m) => (STATUS_NOT_FOUND, m),
            AppError::Internal(m) => (STATUS_INTERNAL_SERVER_ERROR, m),
        }
    }
}

/// The message for a comment id that no comment has.
pub open spec fn comment_not_found(id: Seq<char>) -> Seq<char> {
    "Comment "@ + id + " not found"@
}

fn comment_not_found_message(id: &str) -> (r: String)
    ensures
        r@ == comment_not_found(id@),
{
    let mut out: Vec<char> = Vec::new();
    push_str(&mut out, "Comment ");
    push_str(&mut out, id);
    push_str(&mut out, " not found");
    assert(out@ =~= comment_not_found(id@));
    string_from(&out)
}

/// The comment that a request makes, with the id `id`.
pub open spec fn requested_comment(req: CreateCommentRequest, id: String) -> Comment {
    Comment {
        id: id,
        path: req.path,
        line: req.line,
        body: req.body,
        diff_hunk: req.diff_hunk,
        user: User { login: req.user },
        is_minimized: false,
    }
}

/// A fresh id for a comment: a random UUID (version 4) as text.
///
/// Calls `uuid::Uuid::new_v4` and formats the result with `Display`, which
/// writes the hyphenated form of 36 characters. Which UUID comes out is left
/// unsaid: it is random.
#[verifier::external_body]
fn new_comment_id() -> (r: String)
    ensures
        r@.len() == 36,
{
    uuid::Uuid::new_v4().to_string()
}

/// All the data of the session.
pub fn get_session(state: &AppState) -> (r: SessionResponse)
    ensures
        r.start_ref == state.refspec.start_ref,
        r.end_ref == state.refspec.end_ref,
        views_of(r.files@) == views_of(state.diff.files@),
        r.comments@ == state.comments@,
        r.viewed_files@ == state.viewed_files@,
{
    SessionResponse {
        start_ref: state.refspec.start_ref.clone(),
        end_ref: state.refspec.end_ref.clone(),
        files: clone_files(&state.diff.files),
        comments: state.get_comments(),
        viewed_files: state.get_viewed_files(),
    }
}

/// Adds the comment that `req` describes, with the id `id`, after the others:
/// status 201 and the comment.
pub fn create_comment_with_id(state: &mut AppState, req: CreateCommentRequest, id: String) -> (r: (
    u16,
    CommentResponse,
))
    ensures
        r.0 == STATUS_CREATED,
        r.1.comment == requested_comment(req, id),
        final(state).comments@ == old(state).comments@.push(requested_comment(req, id)),
        final(state).viewed_files == old(state).viewed_files,
        final(state).refspec == old(state).refspec,
        final(state).raw_diff == old(state).raw_diff,
{
    let comment = Comment {
        id,
        path: req.path,
        line: req.line,
        body: req.body,
        diff_hunk: req.diff_hunk,
        user: User { login: req.user },
        is_minimized: false,
    };
    let comment = state.add_comment(comment);
    (STATUS_CREATED, CommentResponse { comment })
}

/// Adds the comment that `req` describes, with a fresh random id, after the
/// others: status 201 and the comment.
pub fn create_comment(state: &mut AppState, req: CreateCommentRequest) -> (r: (u16, CommentResponse))
    ensures
        r.0 == STATUS_CREATED,
        r.1.comment.id@.len() == 36,
        r.1.comment == requested_comment(req, r.1.comment.id),
        final(state).comments@ == old(state).comments@.push(r.1.comment),
        final(state).viewed_files == old(state).viewed_files,
        final(state).refspec == old(state).refspec,
        final(state).raw_diff == old(state).raw_diff,
{
    let id = new_comment_id();
    create_comment_with_id(state, req, id)
}

/// Puts the text of `req` in the first comment with the id `id` and sends
/// that comment back; `NotFound` where no comment has that id.
pub fn update_comment(state: &mut AppState, id: &str, req: UpdateCommentRequest) -> (r: Result<
    CommentResponse,
    AppError,
>)
    ensures
        match first_with_id(old(state).comments@, id@) {
            Some(i) => {
                &&& r matches Ok(resp) && resp.comment == Comment {
                    body: req.body,
                    ..old(state).comments@[i]
                }
                &&& final(state).comments@ == old(state).comments@.update(
                    i,
                    Comment { body: req.body, ..old(state).comments@[i] },
                )
            },
            None => {
                &&& r matches Err(AppError::NotFound(m)) && m@ == comment_not_found(id@)
                &&& final(state).comments@ == old(state).comments@
            },
        },
        r is Ok <==> has_id(old(state).comments@, id@),
        final(state).viewed_files == old(state).viewed_files,
        final(state).refspec == old(state).refspec,
        final(state).raw_diff == old(state).raw_diff,
{
    match state.update_comment(id, req.body) {
        Some(comment) => Ok(CommentResponse { comment }),
        None => Err(AppError::NotFound(comment_not_found_message(id))),
    }
}

/// Removes the comments with the id `id`: status 204; `NotFound` where no
/// comment has that id.
pub fn delete_comment(state: &mut AppState, id: &str) -> (r: Result<u16, AppError>)
    ensures
        final(state).comments@ == without_id(old(state).comments@, id@),
        has_id(old(state).comments@, id@) ==> r == Ok::<u16, AppError>(STATUS_NO_CONTENT),
        !has_id(old(state).comments@, id@) ==> (r matches Err(AppError::NotFound(m)) && m@
            == comment_not_found(id@)),
        final(state).viewed_files == old(state).viewed_files,
        final(state).refspec == old(state).refspec,
        final(state).raw_diff == old(state).raw_diff,
{
    if state.delete_comment(id) {
        Ok(STATUS_NO_CONTENT)
    } else {
        Err(AppError::NotFound(comment_not_found_message(id)))
    }
}

/// Marks `path` as viewed or not, as `req` says: status 204, and whether the
/// files marked changed.
pub fn set_path_status(state: &mut AppState, path: String, req: SetPathStatusRequest) -> (r: (
    u16,
    bool,
))
    ensures
        r.0 == STATUS_NO_CONTENT,
        req.viewed ==> (r.1 == !has_path(old(state).viewed_files@, path@)
            && final(state).viewed_files@ == if r.1 {
            old(state).viewed_files@.push(path)
        } else {
            old(state).viewed_files@
        }),
        !req.viewed ==> (r.1 == has_path(old(state).viewed_files@, path@)
            && final(state).viewed_files@ == without_path(old(state).viewed_files@, path@)),
        final(state).comments == old(state).comments,
        final(state).refspec == old(state).refspec,
        final(state).raw_diff == old(state).raw_diff,
{
    let changed = if req.viewed {
        state.mark_file_viewed(path)
    } else {
        state.mark_file_unviewed(path.as_str())
    };
    (STATUS_NO_CONTENT, changed)
}

} // verus!
