//! `AGENTS.md`: project instructions for the agent, read from the project
//! root or from `.respondami/`, and the prompt that asks the agent to write
//! one.

use vstd::prelude::*;
use crate::config::{join_path, path_join};
use crate::text::{all_white_space, is_blank};

verus! {

/// The file name of the project instructions.
pub const FILENAME: &'static str = "AGENTS.md";

/// The prompt that asks the agent to create or update `AGENTS.md`.
pub const GENERATE_PROMPT: &'static str = "Analyze this codebase and create/update **AGENTS.md** with project-specific instructions for AI coding agents.

AGENTS.md should include:

## Architecture
- Key technologies, frameworks, and patterns
- How major components interact

## Development
- Build, test, and run commands
- Code style and conventions
- Pre-commit checks

## Known Pitfalls
- Common bugs, gotchas, and their fixes
- Regression risks and how to avoid them

## File Map
- Table of important files with brief descriptions

## Test Files
- Table of test files with coverage notes

Rules:
- Keep it concise — agents skim, they don't read novels
- Focus on decisions and gotchas, not obvious things
- Use tables for file maps (File | Purpose)
- Include actual commands that work (verify them)
- If AGENTS.md already exists, update it with new findings while keeping existing good content
- Output ONLY the AGENTS.md content, no wrapping text";

/// The chat line shown when `AGENTS.md` generation starts.
pub const GENERATE_CHAT_MESSAGE: &'static str = "🤖 Generate AGENTS.md for this project";

/// The places `AGENTS.md` is looked for, in order: the project root, then
/// `.respondami/`.
pub open spec fn candidate_paths(cwd: Seq<char>) -> Seq<Seq<char>> {
    seq![path_join(cwd, "AGENTS.md"@), path_join(path_join(cwd, ".respondami"@), "AGENTS.md"@)]
}

/// The places `AGENTS.md` is looked for, in order.
pub fn agents_md_candidates(cwd: &str) -> (v: Vec<String>)
    ensures
        v@.len() == 2,
        v@[0]@ == candidate_paths(cwd@)[0],
        v@[1]@ == candidate_paths(cwd@)[1],
{
    let first = join_path(cwd, FILENAME);
    let hidden = join_path(cwd, ".respondami");
    let second = join_path(hidden.as_str(), FILENAME);
    vec![first, second]
}

/// What the first existing candidate holds counts as instructions unless it
/// is blank: `None` for a blank file.
pub fn agents_md_content(content: String) -> (r: Option<String>)
    ensures
        all_white_space(content@) ==> r is None,
        !all_white_space(content@) ==> (r matches Some(c) && c@ == content@),
{
    if is_blank(content.as_str()) {
        None
    } else {
        Some(content)
    }
}

} // verus!
