//! Context-file maintenance: plans the guide file this tool keeps in a
//! project and the references added to existing agent context files.
//!
//! Reading and writing the files happens outside; this module takes
//! the current contents and plans the new ones.

use vstd::prelude::*;
use vstd::string::StringExecFns;
use crate::strutil::{contains_seq, str_contains};
use crate::types::new_string;

verus! {

/// The guide file this tool maintains.
pub open spec fn clrd_md_template() -> Seq<char> {
    "# clrd\n\nThis project uses clrd for dead code detection.\n\nRun the scan to list unused exports, unused imports and files\nnobody imports, with a confidence score for each finding:\n\n    clrd scan --format json\n\nReview low-confidence findings by hand before removing anything:\nnames reached through dynamic dispatch, public package entry points\nand test helpers are easy to flag wrongly.\n"@
}

/// The note appended to an existing agent.md.
pub open spec fn agent_md_reference() -> Seq<char> {
    "\n\n## Dead Code Maintenance\n\nSee clrd.md for the dead code workflow of this project.\n"@
}

/// The note appended to an existing .cursorrules.
pub open spec fn cursorrules_reference() -> Seq<char> {
    "\n\n# Dead code: see clrd.md for the clrd scan workflow.\n"@
}

/// The marker whose presence means a file already references the
/// guide.
pub open spec fn reference_marker() -> Seq<char> {
    "clrd.md"@
}

/// The current contents of the context files the mapper maintains,
/// absent where the file does not exist.
pub struct ContextFiles {
    pub agent_md: Option<String>,
    pub cursorrules: Option<String>,
}

/// Report from an init operation.
#[derive(Clone, Debug)]
pub struct InitReport {
    pub created: Vec<String>,
    pub updated: Vec<String>,
}

impl Default for InitReport {
    /// An empty report.
    fn default() -> (r: Self)
        ensures
            r.created@.len() == 0,
            r.updated@.len() == 0,
    {
        InitReport { created: Vec::new(), updated: Vec::new() }
    }
}

/// The content planned for one context file: the old content with the
/// reference appended, or nothing where the file is absent or already
/// holds the marker.
pub open spec fn planned_reference(existing: Option<String>, reference: Seq<char>) -> Option<
    Seq<char>,
> {
    match existing {
        None => None,
        Some(c) => {
            if contains_seq(c@, reference_marker()) {
                None
            } else {
                Some(c@ + reference)
            }
        },
    }
}

/// What an init writes, and the report over it.
pub struct InitPlan {
    /// The guide file, always written.
    pub clrd_md: String,
    /// New agent.md content, where a reference is to be added.
    pub agent_md: Option<String>,
    /// New .cursorrules content, where a reference is to be added.
    pub cursorrules: Option<String>,
    /// What was created and updated.
    pub report: InitReport,
}

/// Mapper generates and maintains the agent context files.
pub struct Mapper {
    /// Root directory of the project.
    pub root: String,
}

/// The labels reported as updated, in the fixed file order.
pub open spec fn updated_labels(files: ContextFiles) -> Seq<Seq<char>> {
    (if planned_reference(files.agent_md, agent_md_reference()) is Some {
        seq!["agent.md (added clrd.md reference)"@]
    } else {
        Seq::<Seq<char>>::empty()
    }) + (if planned_reference(files.cursorrules, cursorrules_reference()) is Some {
        seq![".cursorrules (added clrd.md reference)"@]
    } else {
        Seq::<Seq<char>>::empty()
    })
}

impl Mapper {
    /// A mapper over `root`.
    pub fn new(root: &str) -> (r: Self)
        ensures
            r.root@ == root@,
    {
        Mapper { root: new_string(root) }
    }

    /// Plans an init: the guide file is always written, and each
    /// existing context file that does not yet reference it gets the
    /// reference appended. `force` is carried for compatibility; the
    /// guide file is this tool's own and is rewritten either way.
    pub fn init(&self, force: bool, files: &ContextFiles) -> (r: InitPlan)
        ensures
            r.clrd_md@ == clrd_md_template(),
            option_view(r.agent_md) == planned_reference(files.agent_md, agent_md_reference()),
            option_view(r.cursorrules) == planned_reference(
                files.cursorrules,
                cursorrules_reference(),
            ),
            r.report.created@.map_values(|s: String| s@) == seq!["clrd.md"@],
            r.report.updated@.map_values(|s: String| s@) == updated_labels(*files),
    {
        let _ = force;
        let mut report = InitReport::default();
        report.created.push(new_string("clrd.md"));

        let agent_md = plan_reference(
            &files.agent_md,
            "\n\n## Dead Code Maintenance\n\nSee clrd.md for the dead code workflow of this project.\n",
        );
        if agent_md.is_some() {
            report.updated.push(new_string("agent.md (added clrd.md reference)"));
        }
        let cursorrules = plan_reference(
            &files.cursorrules,
            "\n\n# Dead code: see clrd.md for the clrd scan workflow.\n",
        );
        if cursorrules.is_some() {
            report.updated.push(new_string(".cursorrules (added clrd.md reference)"));
        }
        proof {
            assert(report.created@.map_values(|s: String| s@) =~= seq!["clrd.md"@]);
            assert(report.updated@.map_values(|s: String| s@) =~= updated_labels(*files));
        }
        InitPlan {
            clrd_md: new_string(
                "# clrd\n\nThis project uses clrd for dead code detection.\n\nRun the scan to list unused exports, unused imports and files\nnobody imports, with a confidence score for each finding:\n\n    clrd scan --format json\n\nReview low-confidence findings by hand before removing anything:\nnames reached through dynamic dispatch, public package entry points\nand test helpers are easy to flag wrongly.\n",
            ),
            agent_md,
            cursorrules,
            report,
        }
    }
}

/// The views of an optional string.
pub open spec fn option_view(o: Option<String>) -> Option<Seq<char>> {
    match o {
        None => None,
        Some(s) => Some(s@),
    }
}

/// The old content with `reference` appended, or nothing where the
/// file is absent or already references the guide. Public so that a
/// caller can maintain further agent context files beyond the two the
/// plan names, with the same idempotence.
pub fn plan_reference(existing: &Option<String>, reference: &str) -> (r: Option<String>)
    ensures
        option_view(r) == planned_reference(*existing, reference@),
{
    match existing {
        None => None,
        Some(content) => {
            if str_contains(content.as_str(), "clrd.md") {
                None
            } else {
                let mut updated = content.clone();
                updated.append(reference);
                Some(updated)
            }
        },
    }
}

} // verus!
