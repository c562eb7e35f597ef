use vstd::prelude::*;
use vstd::string::{StrSliceExecFns, StringExecFns};

verus! {

/// `n` occurs in `h` starting at position `i`.
pub open spec fn is_substring_at(h: Seq<char>, n: Seq<char>, i: int) -> bool {
    &&& 0 <= i
    &&& i + n.len() <= h.len()
    &&& h.subrange(i, i + n.len() as int) == n
}

/// `n` occurs somewhere in `h`.
pub open spec fn has_substring(h: Seq<char>, n: Seq<char>) -> bool {
    exists|i: int| is_substring_at(h, n, i)
}

/// Whether `n` occurs in `h` starting exactly at position `i`.
fn match_at(h: &str, n: &str, i: usize) -> (r: bool)
    requires
        i + n@.len() <= h@.len(),
        h@.len() <= usize::MAX,
    ensures
        r == is_substring_at(h@, n@, i as int),
{
    let nn: usize = n.unicode_len();
    let mut k: usize = 0;
    while k < nn
        invariant
            k <= nn,
            nn == n@.len(),
            i + nn <= h@.len() <= usize::MAX,
            forall|l: int| 0 <= l < k ==> h@[i + l] == n@[l],
        decreases nn - k,
    {
        if h.get_char(i + k) != n.get_char(k) {
            proof {
                if h@.subrange(i as int, i as int + n@.len() as int) == n@ {
                    assert(h@.subrange(i as int, i as int + n@.len() as int)[k as int] == h@[i as int
                        + k as int]);
                }
            }
            return false;
        }
        k += 1;
    }
    proof {
        assert(h@.subrange(i as int, i as int + n@.len() as int) =~= n@);
    }
    true
}

/// Substring search, character by character.
pub fn str_contains(h: &str, n: &str) -> (r: bool)
    ensures
        r == has_substring(h@, n@),
{
    let hn: usize = h.unicode_len();
    let nn: usize = n.unicode_len();
    if nn > hn {
        proof {
            assert forall|i: int| !is_substring_at(h@, n@, i) by {}
        }
        return false;
    }
    if nn == 0 {
        proof {
            assert(h@.subrange(0, 0) =~= n@);
            assert(is_substring_at(h@, n@, 0));
        }
        return true;
    }
    let mut i: usize = 0;
    while i <= hn - nn
        invariant
            0 < nn <= hn,
            hn == h@.len(),
            nn == n@.len(),
            i <= hn - nn + 1,
            forall|j: int| 0 <= j < i ==> !is_substring_at(h@, n@, j),
        decreases hn - nn - i + 1,
    {
        if match_at(h, n, i) {
            return true;
        }
        i += 1;
    }
    proof {
        assert forall|j: int| !is_substring_at(h@, n@, j) by {}
    }
    false
}

/// A branch name made safe for use as one path segment: every separator
/// and space becomes a dash.
pub open spec fn sanitized(s: Seq<char>) -> Seq<char> {
    s.map_values(
        |c: char|
            if c == '/' || c == ' ' {
                '-'
            } else {
                c
            },
    )
}

/// Relies on String::push: appends exactly one character.
#[verifier::external_body]
fn push_char(s: &mut String, c: char)
    ensures
        final(s)@ == old(s)@.push(c),
{
    s.push(c);
}

/// Rewrites a branch name so it can serve as one path segment: `/` and
/// space both become `-`, every other character stays.
pub fn sanitize_branch(branch: &str) -> (r: String)
    ensures
        r@ == sanitized(branch@),
{
    let n: usize = branch.unicode_len();
    let mut out = String::new();
    let mut i: usize = 0;
    while i < n
        invariant
            i <= n,
            n == branch@.len(),
            out@ == sanitized(branch@.take(i as int)),
        decreases n - i,
    {
        let c = branch.get_char(i);
        let mapped: char = if c == '/' || c == ' ' {
            '-'
        } else {
            c
        };
        push_char(&mut out, mapped);
        proof {
            assert(out@ =~= sanitized(branch@.take(i as int + 1)));
        }
        i += 1;
    }
    proof {
        assert(branch@.take(n as int) =~= branch@);
    }
    out
}

/// The deterministic location of one thread's isolated working copy,
/// relative to the caller's base directory: derived from the project
/// identity and the sanitized branch name.
pub fn worktree_rel_path(project_id: &str, branch: &str) -> (r: String)
    ensures
        r@ == ".prism/worktrees/"@ + project_id@ + "/"@ + sanitized(branch@),
{
    let mut out = String::from_str(".prism/worktrees/");
    out.append(project_id);
    out.append("/");
    let safe = sanitize_branch(branch);
    out.append(safe.as_str());
    proof {
        assert(out@ =~= ".prism/worktrees/"@ + project_id@ + "/"@ + sanitized(branch@));
    }
    out
}

/// What the working-copy creation does after its first attempt, which adds
/// the copy together with a new branch.
#[derive(Debug, PartialEq, Eq, Structural, Clone, Copy)]
pub enum WorktreeStep {
    /// The copy is in place: report success.
    Done,
    /// The branch already exists: attempt once more, attaching to it.
    RetryExisting,
    /// The attempt failed and left nothing on disk: report the failure.
    Fail,
}

/// The decision after the first creation attempt: success is done; a
/// complaint that the branch already exists earns one retry without
/// creating it; any other failure is accepted if the copy is on disk
/// anyway, and reported otherwise.
pub open spec fn worktree_step_model(success: bool, stderr: Seq<char>, path_exists: bool)
    -> WorktreeStep {
    if success {
        WorktreeStep::Done
    } else if has_substring(stderr, "already exists"@) {
        WorktreeStep::RetryExisting
    } else if path_exists {
        WorktreeStep::Done
    } else {
        WorktreeStep::Fail
    }
}

/// Decides what the working-copy creation does next from how the first
/// attempt came out: whether the version-control call succeeded, what it
/// wrote to its error stream, and whether the copy's path now exists.
pub fn create_worktree_step(success: bool, stderr: &str, path_exists: bool) -> (r: WorktreeStep)
    ensures
        r == worktree_step_model(success, stderr@, path_exists),
{
    if success {
        WorktreeStep::Done
    } else if str_contains(stderr, "already exists") {
        WorktreeStep::RetryExisting
    } else if path_exists {
        WorktreeStep::Done
    } else {
        WorktreeStep::Fail
    }
}

} // verus!
