//! The command that starts the terminal interface.
use super::agent::Probe;
use crate::web::audit::{join, join_path};
use vstd::prelude::*;
use vstd::string::*;

verus! {

/// The bus socket in a directory.
pub open spec fn socket_in(dir: Seq<char>) -> Seq<char> {
    join_path(join_path(dir, ".deskd"@), "bus.sock"@)
}

/// The bus socket in a directory.
pub fn socket_path(dir: &str) -> (r: String)
    ensures
        r@ == socket_in(dir@),
{
    join(&join(dir, ".deskd"), "bus.sock")
}

/// Whether `r` is the socket to connect to.
pub open spec fn connects_to(
    named: Option<&str>,
    env: Option<&str>,
    served: Option<&Probe>,
    home: Option<&str>,
    r: Result<String, String>,
) -> bool {
    match (named, env, served, home) {
        (Some(p), _, _, _) => r matches Ok(t) && t@ == p@,
        (_, Some(p), _, _) => r matches Ok(t) && t@ == p@,
        (_, _, Some(s), _) if s.exists => r matches Ok(t) && t@ == s.path@,
        (_, _, _, Some(h)) => r matches Ok(t) && t@ == socket_in(h@),
        (_, _, _, None) => r matches Err(e) && e@ == "HOME not set"@,
    }
}

/// The bus socket of the interface: the one that was named, else the one of the
/// environment, else that of the running server where it is there, else the one
/// in the home directory.
pub fn resolve_socket(
    named: Option<&str>,
    env: Option<&str>,
    served: Option<&Probe>,
    home: Option<&str>,
) -> (r: Result<String, String>)
    ensures
        connects_to(named, env, served, home, r),
{
    match named {
        Some(p) => {
            return Ok(String::from_str(p));
        },
        None => {},
    }
    match env {
        Some(p) => {
            return Ok(String::from_str(p));
        },
        None => {},
    }
    match served {
        Some(s) => {
            if s.exists {
                return Ok(s.path.clone());
            }
        },
        None => {},
    }
    match home {
        Some(h) => Ok(socket_path(h)),
        None => Err(String::from_str("HOME not set")),
    }
}

/// A place where the interface may be, and whether it is there.
pub open spec fn first_found(candidates: Seq<Probe>) -> Option<Seq<char>>
    decreases candidates.len(),
{
    if candidates.len() == 0 {
        None
    } else if candidates[0].exists {
        Some(candidates[0].path@)
    } else {
        first_found(candidates.skip(1))
    }
}

/// The directory of the interface: the first candidate in which it is.
pub fn find_tui_dir(candidates: &Vec<Probe>) -> (r: Result<String, String>)
    ensures
        match first_found(candidates@) {
            Some(p) => r matches Ok(t) && t@ == p,
            None => r matches Err(e) && e@
                == "cannot find tui/ directory — run `deskd tui` from the deskd repo root, or ensure tui/src/index.tsx exists relative to the binary"@,
        },
{
    let mut i: usize = 0;
    assert(candidates@.skip(0) =~= candidates@);
    while i < candidates.len()
        invariant
            i <= candidates@.len(),
            first_found(candidates@) == first_found(candidates@.skip(i as int)),
        decreases candidates@.len() - i,
    {
        assert(candidates@.skip(i as int)[0] == candidates@[i as int]);
        if candidates[i].exists {
            return Ok(candidates[i].path.clone());
        }
        assert(candidates@.skip(i as int).skip(1) =~= candidates@.skip(i + 1));
        i += 1;
    }
    Err(
        String::from_str(
            "cannot find tui/ directory — run `deskd tui` from the deskd repo root, or ensure tui/src/index.tsx exists relative to the binary",
        ),
    )
}

/// The program that runs the interface, with its first argument.
pub fn choose_runner(has_bun: bool, has_npx: bool) -> (r: Result<
    (&'static str, &'static str),
    String,
>)
    ensures
        if has_bun {
            r matches Ok(p) && p.0@ == "bun"@ && p.1@ == "run"@
        } else if has_npx {
            r matches Ok(p) && p.0@ == "npx"@ && p.1@ == "tsx"@
        } else {
            r matches Err(e) && e@
                == "neither `bun` nor `npx` found in PATH — install bun or Node.js"@
        },
{
    if has_bun {
        Ok(("bun", "run"))
    } else if has_npx {
        Ok(("npx", "tsx"))
    } else {
        Err(
            String::from_str("neither `bun` nor `npx` found in PATH — install bun or Node.js"),
        )
    }
}

/// A socket that is named comes before that of the environment, that before the one that is
/// served where it exists, and the one under the home directory comes last.
pub proof fn sockets_are_tried_in_order(
    named: Option<&str>,
    env: Option<&str>,
    served: Option<&Probe>,
    home: Option<&str>,
    r: Result<String, String>,
)
    requires
        connects_to(named, env, served, home, r),
    ensures
        named is Some ==> r is Ok && r->Ok_0@ == named->0@,
        named is None && env is Some ==> r is Ok && r->Ok_0@ == env->0@,
        named is None && env is None && (served matches Some(s) && s.exists) ==> r is Ok
            && r->Ok_0@ == served->0.path@,
        r is Err <==> named is None && env is None && home is None && !(served matches Some(s)
            && s.exists),
{
}

/// The directory is the first of the candidates that exists.
pub proof fn first_candidate_that_exists_is_taken(candidates: Seq<Probe>)
    ensures
        match first_found(candidates) {
            Some(p) => exists|i: int|
                0 <= i < candidates.len() && (#[trigger] candidates[i]).exists && p
                    == candidates[i].path@ && forall|j: int|
                    0 <= j < i ==> !(#[trigger] candidates[j]).exists,
            None => forall|i: int| 0 <= i < candidates.len() ==> !(#[trigger] candidates[i]).exists,
        },
    decreases candidates.len(),
{
    if candidates.len() > 0 && !candidates[0].exists {
        let rest = candidates.skip(1);
        first_candidate_that_exists_is_taken(rest);
        match first_found(rest) {
            Some(p) => {
                let i = choose|i: int|
                    0 <= i < rest.len() && (#[trigger] rest[i]).exists && p == rest[i].path@
                        && forall|j: int| 0 <= j < i ==> !(#[trigger] rest[j]).exists;
                assert(candidates[i + 1] == rest[i]);
                assert forall|j: int| 0 <= j < i + 1 implies !(#[trigger] candidates[j]).exists by {
                    if j > 0 {
                        assert(rest[j - 1] == candidates[j]);
                    }
                }
            },
            None => {
                assert forall|i: int| 0 <= i < candidates.len() implies !(
                #[trigger] candidates[i]).exists by {
                    if i > 0 {
                        assert(rest[i - 1] == candidates[i]);
                    }
                }
            },
        }
    } else if candidates.len() > 0 {
        assert(candidates[0].exists);
    }
}

/// The socket lies under the directory.
pub proof fn socket_lies_under_its_directory(dir: Seq<char>)
    requires
        dir.len() > 0,
        dir.last() != '/',
    ensures
        socket_in(dir) == dir + "/"@ + ".deskd"@ + "/"@ + "bus.sock"@,
{
    reveal_strlit(".deskd");
    reveal_strlit("bus.sock");
    let inner = dir + "/"@ + ".deskd"@;
    assert(inner.last() == 'd');
}

} // verus!
