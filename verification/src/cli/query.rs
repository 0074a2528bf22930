//! `:query`: one of the client's queries, named and given its arguments on
//! the command line, for debugging.
use vstd::prelude::*;

use crate::number::{parse_unsigned, parse_unsigned_str, unsigned_error};
use crate::text::{push_str, str_eq, string_from};

verus! {

/// The options of `:query`.
pub struct QueryCommand {
    /// The name of the query.
    pub query: String,
    /// The arguments of the query.
    pub args: Vec<String>,
}

/// A query of the client, with its arguments.
pub enum Query {
    GetCurrentUser,
    ListReviews { owner: String, repo: String, pr_number: u32 },
    FetchReviewComments { review_id: String },
    ListPullRequests { owner: String, repo: String },
}

/// The message for a query name that is not known.
pub open spec fn unknown_query(name: Seq<char>) -> Seq<char> {
    "unkown command "@ + crate::review::quoted(name)
}

impl QueryCommand {
    /// The query that the name and arguments describe, or why they describe none.
    pub fn parse(self) -> (r: Result<Query, String>)
        ensures
            self.query@ == "GetCurrentUser"@ ==> if self.args@.len() == 0 {
                r matches Ok(Query::GetCurrentUser)
            } else {
                r matches Err(e) && e@ == "GetCurrentUser does not expect any arguments"@
            },
            self.query@ == "ListReviews"@ ==> if self.args@.len() != 3 {
                r matches Err(e) && e@ == "ListRevies should be called with owner, repo, pr_number"@
            } else {
                match parse_unsigned(self.args@[2]@, u32::MAX as nat) {
                    Some(n) => r matches Ok(Query::ListReviews { owner, repo, pr_number }) && owner
                        == self.args@[0] && repo == self.args@[1] && pr_number == n,
                    None => r matches Err(e) && e@ == unsigned_error(self.args@[2]@, u32::MAX as nat),
                }
            },
            self.query@ == "FetchReviewComments"@ ==> if self.args@.len() != 1 {
                r matches Err(e) && e@ == "FetchReviewComments should be called with the review_id"@
            } else {
                r matches Ok(Query::FetchReviewComments { review_id }) && review_id == self.args@[0]
            },
            self.query@ == "ListPullRequests"@ ==> if self.args@.len() != 2 {
                r matches Err(e) && e@ == "ListPullRequests should be called with owner, repo"@
            } else {
                r matches Ok(Query::ListPullRequests { owner, repo }) && owner == self.args@[0] && repo
                    == self.args@[1]
            },
            !(self.query@ == "GetCurrentUser"@ || self.query@ == "ListReviews"@ || self.query@
                == "FetchReviewComments"@ || self.query@ == "ListPullRequests"@) ==> (r matches Err(e)
                && e@ == unknown_query(self.query@)),
    {
        proof {
            reveal_strlit("GetCurrentUser");
            reveal_strlit("ListReviews");
            reveal_strlit("FetchReviewComments");
            reveal_strlit("ListPullRequests");
            assert("GetCurrentUser"@.len() == 14);
            assert("ListReviews"@.len() == 11);
            assert("FetchReviewComments"@.len() == 19);
            assert("ListPullRequests"@.len() == 16);
        }
        let n = self.args.len();
        if str_eq(self.query.as_str(), "GetCurrentUser") {
            if n != 0 {
                return Err("GetCurrentUser does not expect any arguments".to_owned());
            }
            return Ok(Query::GetCurrentUser);
        }
        if str_eq(self.query.as_str(), "ListReviews") {
            if n != 3 {
                return Err("ListRevies should be called with owner, repo, pr_number".to_owned());
            }
            let pr_number = parse_unsigned_str(self.args[2].as_str(), u32::MAX)?;
            return Ok(
                Query::ListReviews {
                    owner: self.args[0].clone(),
                    repo: self.args[1].clone(),
                    pr_number,
                },
            );
        }
        if str_eq(self.query.as_str(), "FetchReviewComments") {
            if n != 1 {
                return Err("FetchReviewComments should be called with the review_id".to_owned());
            }
            return Ok(Query::FetchReviewComments { review_id: self.args[0].clone() });
        }
        if str_eq(self.query.as_str(), "ListPullRequests") {
            if n != 2 {
                return Err("ListPullRequests should be called with owner, repo".to_owned());
            }
            return Ok(Query::ListPullRequests { owner: self.args[0].clone(), repo: self.args[1].clone() });
        }
        let mut out: Vec<char> = Vec::new();
        push_str(&mut out, "unkown command ");
        crate::review::push_quoted(&mut out, self.query.as_str());
        assert(out@ =~= unknown_query(self.query@));
        Err(string_from(&out))
    }
}

} // verus!
