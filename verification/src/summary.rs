//! The performance summary: the comparison result together with what the
//! report needs to identify the candidate commit.

use vstd::prelude::*;

use crate::compare::{ComparisonResult, WorkflowComparisonsView};
use crate::render::{format_result, workflows_text};

verus! {

use vstd::string::{StringExecFns, StrSliceExecFns};

/// The fixed, recognizable first line of the report comment; later runs
/// replace the comment keyed by this header rather than adding another.
pub const PR_COMMENT_HEADER: &'static str = "## Performance Summary for commit";

/// The address of the candidate commit in the repository.
pub open spec fn commit_url_text(owner: Seq<char>, repo: Seq<char>, hash: Seq<char>) -> Seq<char> {
    "https://github.com/"@ + owner + "/"@ + repo + "/commit/"@ + hash
}

/// The whole report body: the recognizable header with the short commit
/// hash linking to the commit, then one section per workflow of the
/// comparison result.
pub open spec fn comment_body_text(
    owner: Seq<char>,
    repo: Seq<char>,
    hash: Seq<char>,
    entries: Seq<WorkflowComparisonsView>,
) -> Seq<char>
    recommends
        hash.len() >= 7,
{
    "## Performance Summary for commit"@ + " ["@ + hash.subrange(0, 7) + "]("@ + commit_url_text(
        owner,
        repo,
        hash,
    ) + ")\n\n"@ + "### CI Runtime Comparison\n\n"@ + workflows_text(entries)
}

/// The comparison result together with the coordinates of the candidate
/// commit whose report it becomes.
#[derive(Clone, Debug, PartialEq, Eq)]
pub struct PerformanceSummary {
    pub repository_owner: String,
    pub repository_name: String,
    pub pr_commit_hash: String,
    pub ci_runtime_comparison: ComparisonResult,
}

impl PerformanceSummary {
    /// The commit hash must be long enough to carry a seven-character short
    /// form.
    pub open spec fn wf(&self) -> bool {
        self.pr_commit_hash@.len() >= 7
    }

    /// Builds a summary from its parts.
    pub fn new(
        repository_owner: String,
        repository_name: String,
        pr_commit_hash: String,
        ci_runtime_comparison: ComparisonResult,
    ) -> (r: Self)
        requires
            pr_commit_hash@.len() >= 7,
        ensures
            r.wf(),
            r.repository_owner == repository_owner,
            r.repository_name == repository_name,
            r.pr_commit_hash == pr_commit_hash,
            r.ci_runtime_comparison == ci_runtime_comparison,
    {
        PerformanceSummary { repository_owner, repository_name, pr_commit_hash, ci_runtime_comparison }
    }

    /// Renders the report body for this summary.
    pub fn format_comment_body(&self) -> (r: String)
        requires
            self.wf(),
        ensures
            r@ == comment_body_text(
                self.repository_owner@,
                self.repository_name@,
                self.pr_commit_hash@,
                self.ci_runtime_comparison@,
            ),
    {
        let mut s = String::from_str(PR_COMMENT_HEADER);
        s.append(" [");
        let short_commit_hash = self.pr_commit_hash.as_str().substring_char(0, 7);
        s.append(short_commit_hash);
        s.append("](");
        s.append("https://github.com/");
        s.append(self.repository_owner.as_str());
        s.append("/");
        s.append(self.repository_name.as_str());
        s.append("/commit/");
        s.append(self.pr_commit_hash.as_str());
        s.append(")\n\n");
        s.append("### CI Runtime Comparison\n\n");
        let sections = format_result(&self.ci_runtime_comparison);
        s.append(sections.as_str());
        proof {
            assert(s@ =~= comment_body_text(
                self.repository_owner@,
                self.repository_name@,
                self.pr_commit_hash@,
                self.ci_runtime_comparison@,
            ));
        }
        s
    }
}

} // verus!
