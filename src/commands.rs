//! The programs that the mirror runs, and the hook that it installs.
use vstd::prelude::*;

verus! {

/// A program to run and its arguments.
#[derive(Debug)]
pub struct Invocation {
    pub program: String,
    pub args: Vec<String>,
}

/// The texts of a list of strings.
pub open spec fn texts_view(v: Seq<String>) -> Seq<Seq<char>> {
    v.map_values(|s: String| s@)
}

impl View for Invocation {
    type V = (Seq<char>, Seq<Seq<char>>);

    open spec fn view(&self) -> (Seq<char>, Seq<Seq<char>>) {
        (self.program@, texts_view(self.args@))
    }
}

/// The API path that lists the repositories of `user`, or of the account
/// that the API client is logged in as.
pub open spec fn listing_endpoint(user: Option<Seq<char>>) -> Seq<char> {
    match user {
        Some(u) => "users/"@ + u + "/repos"@,
        None => "user/repos"@,
    }
}

/// The API client, asked for every page of the listing.
pub open spec fn listing_invocation(user: Option<Seq<char>>) -> (Seq<char>, Seq<Seq<char>>) {
    ("gh"@, seq!["api"@, "--paginate"@, listing_endpoint(user)])
}

/// A bare mirror clone of `url` at `path`, with the upstream named `github`.
pub open spec fn clone_invocation(path: Seq<char>, url: Seq<char>) -> (Seq<char>, Seq<Seq<char>>) {
    ("git"@, seq!["clone"@, "--mirror"@, "--origin"@, "github"@, url, path])
}

/// A refresh of the mirror at `path` from its upstream, pruning what is gone.
pub open spec fn update_invocation(path: Seq<char>) -> (Seq<char>, Seq<Seq<char>>) {
    ("git"@, seq!["-C"@, path, "remote"@, "update"@, "--prune"@])
}

/// The directory of the mirror of `name` under `root`.
pub open spec fn mirror_path_of(root: Seq<char>, name: Seq<char>) -> Seq<char> {
    root + "/"@ + name
}

/// Where the push-rejecting hook of the mirror at `path` lives.
pub open spec fn hook_path_of(path: Seq<char>) -> Seq<char> {
    path + "/hooks/pre-receive"@
}

/// The hook: a shell script that explains and exits with status 1, so that
/// every push to the mirror is refused.
pub open spec fn hook_script_text() -> Seq<char> {
    "#!/bin/sh\n\necho \"Pushing to this repository is forbidden.\"\necho \"This is a mirror of a GitHub repository. Push there instead.\"\nexit 1\n"@
}

/// The execute bits for owner, group and others.
pub const EXECUTE_BITS: u32 = 0o111;

fn push_text(v: &mut Vec<String>, s: &str)
    ensures
        texts_view(final(v)@) == texts_view(old(v)@).push(s@),
{
    v.push(s.to_string());
    assert(texts_view(v@) =~= texts_view(old(v)@).push(s@));
}

/// The API path of the listing, for `user` or for the logged-in account.
pub fn listing_endpoint_for(user: Option<&str>) -> (r: String)
    ensures
        r@ == listing_endpoint(
            match user {
                Some(u) => Some(u@),
                None => None,
            },
        ),
{
    match user {
        Some(u) => "users/".to_string().concat(u).concat("/repos"),
        None => "user/repos".to_string(),
    }
}

/// The invocation of the API client that lists the repositories.
pub fn listing_command(user: Option<&str>) -> (r: Invocation)
    ensures
        r@ == listing_invocation(
            match user {
                Some(u) => Some(u@),
                None => None,
            },
        ),
{
    let endpoint = listing_endpoint_for(user);
    let mut args: Vec<String> = Vec::new();
    push_text(&mut args, "api");
    push_text(&mut args, "--paginate");
    push_text(&mut args, endpoint.as_str());
    let r = Invocation { program: "gh".to_string(), args };
    assert(r@.1 =~= listing_invocation(
        match user {
            Some(u) => Some(u@),
            None => None,
        },
    ).1);
    r
}

/// The invocation that creates the mirror of `url` at `path`.
pub fn clone_command(path: &str, url: &str) -> (r: Invocation)
    ensures
        r@ == clone_invocation(path@, url@),
{
    let mut args: Vec<String> = Vec::new();
    push_text(&mut args, "clone");
    push_text(&mut args, "--mirror");
    push_text(&mut args, "--origin");
    push_text(&mut args, "github");
    push_text(&mut args, url);
    push_text(&mut args, path);
    let r = Invocation { program: "git".to_string(), args };
    assert(r@.1 =~= clone_invocation(path@, url@).1);
    r
}

/// The invocation that refreshes the mirror at `path`.
pub fn update_command(path: &str) -> (r: Invocation)
    ensures
        r@ == update_invocation(path@),
{
    let mut args: Vec<String> = Vec::new();
    push_text(&mut args, "-C");
    push_text(&mut args, path);
    push_text(&mut args, "remote");
    push_text(&mut args, "update");
    push_text(&mut args, "--prune");
    let r = Invocation { program: "git".to_string(), args };
    assert(r@.1 =~= update_invocation(path@).1);
    r
}

/// The directory of the mirror of `name` under `root`.
pub fn mirror_path(root: &str, name: &str) -> (r: String)
    ensures
        r@ == mirror_path_of(root@, name@),
{
    root.to_string().concat("/").concat(name)
}

/// Where the hook of the mirror at `path` is written.
pub fn hook_path(path: &str) -> (r: String)
    ensures
        r@ == hook_path_of(path@),
{
    path.to_string().concat("/hooks/pre-receive")
}

/// The text of the hook that refuses every push.
pub fn hook_script() -> (r: String)
    ensures
        r@ == hook_script_text(),
{
    "#!/bin/sh\n\necho \"Pushing to this repository is forbidden.\"\necho \"This is a mirror of a GitHub repository. Push there instead.\"\nexit 1\n".to_string()
}

/// The permission bits of the hook: `mode` with the three execute bits set
/// and every other bit kept.
pub fn executable_mode(mode: u32) -> (r: u32)
    ensures
        r & EXECUTE_BITS == EXECUTE_BITS,
        r & !EXECUTE_BITS == mode & !EXECUTE_BITS,
        mode & EXECUTE_BITS == EXECUTE_BITS ==> r == mode,
{
    let r = mode | EXECUTE_BITS;
    assert(r & 0o111u32 == 0o111u32 && r & !0o111u32 == mode & !0o111u32
        && (mode & 0o111u32 == 0o111u32 ==> r == mode)) by (bit_vector)
        requires
            r == mode | 0o111u32,
    ;
    r
}

} // verus!
