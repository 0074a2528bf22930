use vstd::prelude::*;

use crate::client::Comment;
use crate::line_diff::SideBySideDiff;
use crate::local::refspec::RefSpec;
use crate::text::str_eq;

verus! {

/// What a saved review session holds: the refs, the diff as it was when
/// the session began, the comments and the files marked as viewed.
#[derive(Debug)]
pub struct CommentsFile {
    pub version: u32,
    pub start_ref: String,
    /// Resolved commit of the start ref.
    pub start_sha: String,
    /// End ref (empty in files written before it was recorded).
    pub end_ref: String,
    /// Resolved commit of the end ref.
    pub end_sha: String,
    /// The unified diff captured when the session began.
    pub raw_diff: String,
    pub comments: Vec<Comment>,
    /// Files marked as viewed.
    pub viewed_files: Vec<String>,
}

/// The version of the session file format that this library writes.
pub const COMMENTS_FILE_VERSION: u32 = 1;

/// The state of a local review session.
pub struct AppState {
    pub refspec: RefSpec,
    pub comments: Vec<Comment>,
    pub viewed_files: Vec<String>,
    /// The diff under review.
    pub diff: SideBySideDiff,
    /// The unified diff text, kept for saving.
    pub raw_diff: String,
}

/// The position of the first comment of `s` with the id `id`.
pub open spec fn first_with_id(s: Seq<Comment>, id: Seq<char>) -> Option<int>
    decreases s.len(),
{
    if s.len() == 0 {
        None
    } else if s[0].id@ == id {
        Some(0)
    } else {
        match first_with_id(s.drop_first(), id) {
            Some(i) => Some(i + 1),
            None => None,
        }
    }
}

/// Whether some comment of `s` has the id `id`.
pub open spec fn has_id(s: Seq<Comment>, id: Seq<char>) -> bool {
    exists|j: int| 0 <= j < s.len() && #[trigger] s[j].id@ == id
}

/// `s` without the comments whose id is `id`, the others in their order.
pub open spec fn without_id(s: Seq<Comment>, id: Seq<char>) -> Seq<Comment>
    decreases s.len(),
{
    if s.len() == 0 {
        s
    } else {
        let rest = without_id(s.drop_last(), id);
        if s.last().id@ == id {
            rest
        } else {
            rest.push(s.last())
        }
    }
}

/// Whether some entry of `s` reads `p`.
pub open spec fn has_path(s: Seq<String>, p: Seq<char>) -> bool {
    exists|j: int| 0 <= j < s.len() && #[trigger] s[j]@ == p
}

/// `s` without the entries that read `p`, the others in their order.
pub open spec fn without_path(s: Seq<String>, p: Seq<char>) -> Seq<String>
    decreases s.len(),
{
    if s.len() == 0 {
        s
    } else {
        let rest = without_path(s.drop_last(), p);
        if s.last()@ == p {
            rest
        } else {
            rest.push(s.last())
        }
    }
}

/// No two entries of `s` read the same.
pub open spec fn distinct_paths(s: Seq<String>) -> bool {
    forall|i: int, j: int| 0 <= i < j < s.len() ==> #[trigger] s[i]@ != #[trigger] s[j]@
}

/// What `first_with_id` gives: the first position with the id.
proof fn lemma_first_with_id(s: Seq<Comment>, id: Seq<char>)
    ensures
        match first_with_id(s, id) {
            Some(i) => 0 <= i < s.len() && s[i].id@ == id && forall|j: int|
                0 <= j < i ==> #[trigger] s[j].id@ != id,
            None => !has_id(s, id),
        },
    decreases s.len(),
{
    if s.len() > 0 {
        lemma_first_with_id(s.drop_first(), id);
        if s[0].id@ != id {
            match first_with_id(s.drop_first(), id) {
                Some(i) => {
                    assert forall|j: int| 0 <= j < i + 1 implies #[trigger] s[j].id@ != id by {
                        if j > 0 {
                            assert(s[j] == s.drop_first()[j - 1]);
                            assert(s.drop_first()[j - 1].id@ != id);
                        }
                    }
                },
                None => {
                    assert forall|j: int| 0 <= j < s.len() implies #[trigger] s[j].id@ != id by {
                        if j > 0 {
                            assert(s[j] == s.drop_first()[j - 1]);
                            assert(s.drop_first()[j - 1].id@ != id);
                        }
                    }
                },
            }
        }
    }
}

/// What is kept by `without_id` is what does not have the id, and it is all kept.
pub proof fn lemma_without_id(s: Seq<Comment>, id: Seq<char>)
    ensures
        without_id(s, id).len() <= s.len(),
        without_id(s, id).len() < s.len() <==> has_id(s, id),
        forall|j: int|
            0 <= j < without_id(s, id).len() ==> #[trigger] without_id(s, id)[j].id@ != id,
    decreases s.len(),
{
    if s.len() > 0 {
        let t = s.drop_last();
        lemma_without_id(t, id);
        if has_id(t, id) {
            let j = choose|j: int| 0 <= j < t.len() && #[trigger] t[j].id@ == id;
            assert(s[j].id@ == id);
        }
        if has_id(s, id) && s.last().id@ != id {
            let j = choose|j: int| 0 <= j < s.len() && #[trigger] s[j].id@ == id;
            assert(t[j].id@ == id);
        }
        let r = without_id(t, id);
        let w = without_id(s, id);
        assert forall|j: int| 0 <= j < w.len() implies #[trigger] w[j].id@ != id by {
            if s.last().id@ != id {
                assert(w == r.push(s.last()));
                if j < r.len() {
                    assert(w[j] == r[j]);
                    assert(r[j].id@ != id);
                }
            } else {
                assert(w == r);
                assert(r[j].id@ != id);
            }
        }
    }
}

/// What is kept by `without_path` is what does not read `p`, and it is all kept.
pub proof fn lemma_without_path(s: Seq<String>, p: Seq<char>)
    ensures
        without_path(s, p).len() <= s.len(),
        without_path(s, p).len() < s.len() <==> has_path(s, p),
        forall|j: int| 0 <= j < without_path(s, p).len() ==> #[trigger] without_path(s, p)[j]@ != p,
        forall|j: int|
            0 <= j < without_path(s, p).len() ==> has_path(s, #[trigger] without_path(s, p)[j]@),
        distinct_paths(s) ==> distinct_paths(without_path(s, p)),
    decreases s.len(),
{
    if s.len() > 0 {
        let t = s.drop_last();
        let r = without_path(t, p);
        lemma_without_path(t, p);
        if has_path(t, p) {
            let j = choose|j: int| 0 <= j < t.len() && #[trigger] t[j]@ == p;
            assert(s[j]@ == p);
        }
        if has_path(s, p) && s.last()@ != p {
            let j = choose|j: int| 0 <= j < s.len() && #[trigger] s[j]@ == p;
            assert(t[j]@ == p);
        }
        assert forall|j: int| 0 <= j < without_path(s, p).len() implies has_path(
            s,
            #[trigger] without_path(s, p)[j]@,
        ) by {
            if j < r.len() {
                assert(has_path(t, r[j]@));
                let k = choose|k: int| 0 <= k < t.len() && #[trigger] t[k]@ == r[j]@;
                assert(s[k]@ == r[j]@);
            } else {
                assert(s[s.len() - 1]@ == s.last()@);
            }
        }
        if distinct_paths(s) {
            assert(distinct_paths(t));
            if s.last()@ != p {
                let w = r.push(s.last());
                assert forall|i: int, j: int| 0 <= i < j < w.len() implies #[trigger] w[i]@
                    != #[trigger] w[j]@ by {
                    if j == w.len() - 1 {
                        assert(has_path(t, r[i]@));
                        let k = choose|k: int| 0 <= k < t.len() && #[trigger] t[k]@ == r[i]@;
                        assert(s[k]@ != s[s.len() - 1]@);
                    } else {
                        assert(w[i] == r[i] && w[j] == r[j]);
                    }
                }
            }
        }
    }
}

proof fn lemma_without_absent_id(s: Seq<Comment>, id: Seq<char>)
    requires
        !has_id(s, id),
    ensures
        without_id(s, id) == s,
    decreases s.len(),
{
    if s.len() > 0 {
        let t = s.drop_last();
        assert(!has_id(t, id)) by {
            if has_id(t, id) {
                let j = choose|j: int| 0 <= j < t.len() && #[trigger] t[j].id@ == id;
                assert(s[j].id@ == id);
            }
        }
        lemma_without_absent_id(t, id);
        assert(s.last().id@ != id) by {
            assert(s[s.len() - 1].id@ == s.last().id@);
        }
        assert(t.push(s.last()) =~= s);
    }
}

/// A comment added with an id that no other comment has, then deleted by
/// that id, leaves the comments as they were.
pub proof fn law_add_then_delete(s: Seq<Comment>, c: Comment)
    requires
        !has_id(s, c.id@),
    ensures
        without_id(s.push(c), c.id@) == s,
{
    assert(s.push(c).drop_last() =~= s);
    lemma_without_absent_id(s, c.id@);
}

/// The files marked as viewed once `p` is marked.
pub open spec fn marked(s: Seq<String>, p: String) -> Seq<String> {
    if has_path(s, p@) {
        s
    } else {
        s.push(p)
    }
}

/// Marking a file as viewed makes it viewed; removing the mark makes it
/// not viewed, whatever the marks were before.
pub proof fn law_viewed_then_unviewed(s: Seq<String>, p: String)
    ensures
        has_path(marked(s, p), p@),
        !has_path(without_path(marked(s, p), p@), p@),
        !has_path(without_path(s, p@), p@),
{
    if !has_path(s, p@) {
        assert(s.push(p)[s.len() as int]@ == p@);
    }
    lemma_without_path(marked(s, p), p@);
    lemma_without_path(s, p@);
}

/// A copy of the comments, in their order.
fn copy_comments(v: &Vec<Comment>) -> (r: Vec<Comment>)
    ensures
        r@ == v@,
{
    let mut r: Vec<Comment> = Vec::new();
    let n = v.len();
    let mut i: usize = 0;
    while i < n
        invariant
            n == v.len(),
            i <= n,
            r@ == v@.take(i as int),
        decreases n - i,
    {
        r.push(v[i].clone());
        assert(v@.take(i + 1) == v@.take(i as int).push(v@[i as int]));
        i += 1;
    }
    assert(v@.take(n as int) == v@);
    r
}

/// A copy of the strings, in their order.
fn copy_strings(v: &Vec<String>) -> (r: Vec<String>)
    ensures
        r@ == v@,
{
    let mut r: Vec<String> = Vec::new();
    let n = v.len();
    let mut i: usize = 0;
    while i < n
        invariant
            n == v.len(),
            i <= n,
            r@ == v@.take(i as int),
        decreases n - i,
    {
        r.push(v[i].clone());
        assert(v@.take(i + 1) == v@.take(i as int).push(v@[i as int]));
        i += 1;
    }
    assert(v@.take(n as int) == v@);
    r
}

impl AppState {
    /// A session on `refspec` and its diff, with the comments and viewed files
    /// that were loaded for it (none where nothing was saved yet).
    pub fn new(
        refspec: RefSpec,
        diff: SideBySideDiff,
        raw_diff: String,
        comments: Vec<Comment>,
        viewed_files: Vec<String>,
    ) -> (r: Self)
        ensures
            r.refspec == refspec,
            r.diff == diff,
            r.raw_diff == raw_diff,
            r.comments == comments,
            r.viewed_files == viewed_files,
    {
        AppState { refspec, comments, viewed_files, diff, raw_diff }
    }

    /// The session as it is saved: format version 1, the refs, the diff
    /// text, the comments and the viewed files.
    pub fn comments_file(&self) -> (r: CommentsFile)
        ensures
            r.version == COMMENTS_FILE_VERSION,
            r.start_ref == self.refspec.start_ref,
            r.start_sha == self.refspec.start_sha,
            r.end_ref == self.refspec.end_ref,
            r.end_sha == self.refspec.end_sha,
            r.raw_diff == self.raw_diff,
            r.comments@ == self.comments@,
            r.viewed_files@ == self.viewed_files@,
    {
        CommentsFile {
            version: COMMENTS_FILE_VERSION,
            start_ref: self.refspec.start_ref.clone(),
            start_sha: self.refspec.start_sha.clone(),
            end_ref: self.refspec.end_ref.clone(),
            end_sha: self.refspec.end_sha.clone(),
            raw_diff: self.raw_diff.clone(),
            comments: copy_comments(&self.comments),
            viewed_files: copy_strings(&self.viewed_files),
        }
    }

    /// Adds `comment` after the others and gives it back.
    pub fn add_comment(&mut self, comment: Comment) -> (r: Comment)
        ensures
            r == comment,
            final(self).comments@ == old(self).comments@.push(comment),
            final(self).viewed_files == old(self).viewed_files,
            final(self).refspec == old(self).refspec,
            final(self).raw_diff == old(self).raw_diff,
    {
        let c = comment.clone();
        self.comments.push(comment);
        c
    }

    /// Puts `body` in the first comment with the id `id` and gives that comment
    /// back; `None`, and nothing changed, where no comment has that id.
    pub fn update_comment(&mut self, id: &str, body: String) -> (r: Option<Comment>)
        ensures
            match first_with_id(old(self).comments@, id@) {
                Some(i) => {
                    &&& r == Some(Comment { body: body, ..old(self).comments@[i] })
                    &&& final(self).comments@ == old(self).comments@.update(
                        i,
                        Comment { body: body, ..old(self).comments@[i] },
                    )
                },
                None => r is None && final(self).comments@ == old(self).comments@,
            },
            r is Some <==> has_id(old(self).comments@, id@),
            final(self).viewed_files == old(self).viewed_files,
            final(self).refspec == old(self).refspec,
            final(self).raw_diff == old(self).raw_diff,
    {
        proof {
            lemma_first_with_id(self.comments@, id@);
        }
        let n = self.comments.len();
        let mut i: usize = 0;
        while i < n
            invariant
                n == self.comments.len(),
                i <= n,
                forall|j: int| 0 <= j < i ==> #[trigger] self.comments@[j].id@ != id@,
            ensures
                i <= n,
                forall|j: int| 0 <= j < i ==> #[trigger] self.comments@[j].id@ != id@,
                i < n ==> self.comments@[i as int].id@ == id@,
            decreases n - i,
        {
            if str_eq(self.comments[i].id.as_str(), id) {
                break;
            }
            i += 1;
        }
        if i == n {
            return None;
        }
        let ghost before = self.comments@;
        proof {
            match first_with_id(before, id@) {
                Some(k) => {
                    if k < i {
                    } else if k > i {
                    }
                },
                None => {
                    assert(before[i as int].id@ == id@);
                },
            }
        }
        self.comments[i].body = body;
        Some(self.comments[i].clone())
    }

    /// Removes every comment with the id `id`; whether there was one.
    pub fn delete_comment(&mut self, id: &str) -> (r: bool)
        ensures
            final(self).comments@ == without_id(old(self).comments@, id@),
            r == has_id(old(self).comments@, id@),
            final(self).viewed_files == old(self).viewed_files,
            final(self).refspec == old(self).refspec,
            final(self).raw_diff == old(self).raw_diff,
    {
        let n = self.comments.len();
        let mut kept: Vec<Comment> = Vec::new();
        let mut i: usize = 0;
        while i < n
            invariant
                n == self.comments.len(),
                i <= n,
                kept@ == without_id(self.comments@.take(i as int), id@),
            decreases n - i,
        {
            let ghost s = self.comments@.take(i + 1);
            assert(s.drop_last() == self.comments@.take(i as int));
            if !str_eq(self.comments[i].id.as_str(), id) {
                kept.push(self.comments[i].clone());
            }
            i += 1;
        }
        assert(self.comments@.take(n as int) == self.comments@);
        proof {
            lemma_without_id(self.comments@, id@);
        }
        let deleted = kept.len() < n;
        self.comments = kept;
        deleted
    }

    /// The comments of the session.
    pub fn get_comments(&self) -> (r: Vec<Comment>)
        ensures
            r@ == self.comments@,
    {
        copy_comments(&self.comments)
    }

    /// The files marked as viewed.
    pub fn get_viewed_files(&self) -> (r: Vec<String>)
        ensures
            r@ == self.viewed_files@,
    {
        copy_strings(&self.viewed_files)
    }

    /// Marks `path` as viewed; whether it was not marked before.
    pub fn mark_file_viewed(&mut self, path: String) -> (r: bool)
        ensures
            r == !has_path(old(self).viewed_files@, path@),
            final(self).viewed_files@ == if r {
                old(self).viewed_files@.push(path)
            } else {
                old(self).viewed_files@
            },
            distinct_paths(old(self).viewed_files@) ==> distinct_paths(final(self).viewed_files@),
            final(self).comments == old(self).comments,
            final(self).refspec == old(self).refspec,
            final(self).raw_diff == old(self).raw_diff,
    {
        let n = self.viewed_files.len();
        let mut i: usize = 0;
        while i < n
            invariant
                n == self.viewed_files.len(),
                i <= n,
                forall|j: int| 0 <= j < i ==> #[trigger] self.viewed_files@[j]@ != path@,
            decreases n - i,
        {
            if str_eq(self.viewed_files[i].as_str(), path.as_str()) {
                assert(self.viewed_files@[i as int]@ == path@);
                return false;
            }
            i += 1;
        }
        let ghost before = self.viewed_files@;
        self.viewed_files.push(path);
        proof {
            let w = self.viewed_files@;
            if distinct_paths(before) {
                assert forall|a: int, b: int| 0 <= a < b < w.len() implies #[trigger] w[a]@
                    != #[trigger] w[b]@ by {
                    if b == w.len() - 1 {
                        assert(w[a] == before[a]);
                    } else {
                        assert(w[a] == before[a] && w[b] == before[b]);
                    }
                }
            }
        }
        true
    }

    /// Removes the mark from `path`; whether it was marked.
    pub fn mark_file_unviewed(&mut self, path: &str) -> (r: bool)
        ensures
            final(self).viewed_files@ == without_path(old(self).viewed_files@, path@),
            r == has_path(old(self).viewed_files@, path@),
            distinct_paths(old(self).viewed_files@) ==> distinct_paths(final(self).viewed_files@),
            final(self).comments == old(self).comments,
            final(self).refspec == old(self).refspec,
            final(self).raw_diff == old(self).raw_diff,
    {
        let n = self.viewed_files.len();
        let mut kept: Vec<String> = Vec::new();
        let mut i: usize = 0;
        while i < n
            invariant
                n == self.viewed_files.len(),
                i <= n,
                kept@ == without_path(self.viewed_files@.take(i as int), path@),
            decreases n - i,
        {
            let ghost s = self.viewed_files@.take(i + 1);
            assert(s.drop_last() == self.viewed_files@.take(i as int));
            if !str_eq(self.viewed_files[i].as_str(), path) {
                kept.push(self.viewed_files[i].clone());
            }
            i += 1;
        }
        assert(self.viewed_files@.take(n as int) == self.viewed_files@);
        proof {
            lemma_without_path(self.viewed_files@, path@);
        }
        let removed = kept.len() < n;
        self.viewed_files = kept;
        removed
    }
}

} // verus!
