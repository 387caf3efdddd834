//! Validation applied at spawn time: the command token check and the
//! environment sanitizer that together decide what a worker process may be
//! started with.

use vstd::prelude::*;

use crate::errors::ErrorKind;
use crate::text::{alphanumeric_char, starts_with_spec, starts_with_str};

verus! {

/// A character a command token may contain: alphanumeric, `-`, `_` or `.`.
pub open spec fn command_char_ok(c: char) -> bool {
    alphanumeric_char(c) || c == '-' || c == '_' || c == '.'
}

/// A valid command is a non-empty simple token: no path separators, no shell
/// metacharacters.
pub open spec fn valid_command(s: Seq<char>) -> bool {
    s.len() > 0 && (forall|i: int| 0 <= i < s.len() ==> command_char_ok(s[i]))
}

/// Restrict the executable name that may be spawned to a simple token;
/// rejects the empty string, paths and shell metacharacters.
pub fn validate_command(command: &str) -> (r: Result<(), ErrorKind>)
    ensures
        r is Ok <==> valid_command(command@),
        r is Err ==> r == Err::<(), ErrorKind>(ErrorKind::InvalidCommand),
{
    let n = command.unicode_len();
    if n == 0 {
        return Err(ErrorKind::InvalidCommand);
    }
    let mut i: usize = 0;
    while i < n
        invariant
            i <= n,
            n == command@.len(),
            forall|k: int| 0 <= k < i ==> command_char_ok(command@[k]),
        decreases n - i,
    {
        let c = command.get_char(i);
        if !(c.is_alphanumeric() || c == '-' || c == '_' || c == '.') {
            return Err(ErrorKind::InvalidCommand);
        }
        i = i + 1;
    }
    Ok(())
}

/// Whether an environment variable name begins with one of the prefixes that
/// must not reach a child process: dynamic-linker injection variables and
/// package-manager internals.
pub open spec fn blocked_env_name(name: Seq<char>) -> bool {
    ||| starts_with_spec(name, "LD_PRELOAD"@)
    ||| starts_with_spec(name, "LD_LIBRARY_PATH"@)
    ||| starts_with_spec(name, "DYLD_INSERT_LIBRARIES"@)
    ||| starts_with_spec(name, "DYLD_LIBRARY_PATH"@)
    ||| starts_with_spec(name, "DYLD_FRAMEWORK_PATH"@)
    ||| starts_with_spec(name, "npm_config_"@)
    ||| starts_with_spec(name, "npm_lifecycle_"@)
    ||| starts_with_spec(name, "npm_package_"@)
    ||| starts_with_spec(name, "NPM_"@)
    ||| starts_with_spec(name, "PNPM_"@)
}

/// Check that an environment variable name is safe to pass to a child
/// process: it matches none of the blocked prefixes.
pub fn is_safe_env_var(key: &str) -> (r: bool)
    ensures
        r == !blocked_env_name(key@),
{
    !(starts_with_str(key, "LD_PRELOAD") || starts_with_str(key, "LD_LIBRARY_PATH")
        || starts_with_str(key, "DYLD_INSERT_LIBRARIES") || starts_with_str(
        key,
        "DYLD_LIBRARY_PATH",
    ) || starts_with_str(key, "DYLD_FRAMEWORK_PATH") || starts_with_str(key, "npm_config_")
        || starts_with_str(key, "npm_lifecycle_") || starts_with_str(key, "npm_package_")
        || starts_with_str(key, "NPM_") || starts_with_str(key, "PNPM_"))
}

/// The character views of a list of environment pairs.
pub open spec fn env_views(s: Seq<(String, String)>) -> Seq<(Seq<char>, Seq<char>)> {
    s.map_values(|p: (String, String)| (p.0@, p.1@))
}

/// The subsequence of environment pairs whose names pass the sanitizer, in
/// their original order.
pub open spec fn safe_env_seq(s: Seq<(Seq<char>, Seq<char>)>) -> Seq<(Seq<char>, Seq<char>)>
    decreases s.len(),
{
    if s.len() == 0 {
        Seq::empty()
    } else {
        let rest = safe_env_seq(s.drop_last());
        if blocked_env_name(s.last().0) {
            rest
        } else {
            rest.push(s.last())
        }
    }
}

/// Append the safe pairs of `src` to `out`.
fn push_safe_pairs(out: &mut Vec<(String, String)>, src: &Vec<(String, String)>)
    ensures
        env_views(final(out)@) == env_views(old(out)@) + safe_env_seq(env_views(src@)),
{
    let ghost views = env_views(src@);
    let mut i: usize = 0;
    proof {
        assert(views.take(0) =~= Seq::<(Seq<char>, Seq<char>)>::empty());
        assert(env_views(out@) + safe_env_seq(views.take(0)) =~= env_views(out@));
    }
    while i < src.len()
        invariant
            i <= src.len(),
            views == env_views(src@),
            env_views(out@) == env_views(old(out)@) + safe_env_seq(views.take(i as int)),
        decreases src.len() - i,
    {
        let ghost prev = env_views(out@);
        if is_safe_env_var(src[i].0.as_str()) {
            let k = src[i].0.clone();
            let v = src[i].1.clone();
            out.push((k, v));
            proof {
                assert(env_views(out@) =~= prev.push((src@[i as int].0@, src@[i as int].1@)));
            }
        }
        proof {
            assert(views.take(i + 1).drop_last() =~= views.take(i as int));
            assert(views.take(i + 1).last() == (src@[i as int].0@, src@[i as int].1@));
            assert(env_views(out@) =~= env_views(old(out)@) + safe_env_seq(views.take(i + 1)));
        }
        i = i + 1;
    }
    proof {
        assert(views.take(src@.len() as int) =~= views);
    }
}

/// Build the environment a worker is spawned with: the sanitized parent
/// environment, then the sanitized caller overrides (later pairs override
/// earlier ones when applied in order), and finally a user-level npm
/// configuration path pointing at a non-existent file, so that stale npm
/// auth tokens in the user's profile cannot break `npx`-launched workers.
pub fn build_child_env(parent: &Vec<(String, String)>, overrides: &Vec<(String, String)>) -> (r:
    Vec<(String, String)>)
    ensures
        env_views(r@) == safe_env_seq(env_views(parent@)) + safe_env_seq(env_views(overrides@))
            + seq![("npm_config_userconfig"@, "/dev/null"@)],
{
    let mut out: Vec<(String, String)> = Vec::new();
    proof {
        assert(env_views(out@) =~= Seq::<(Seq<char>, Seq<char>)>::empty());
    }
    push_safe_pairs(&mut out, parent);
    push_safe_pairs(&mut out, overrides);
    let ghost prev = env_views(out@);
    out.push(("npm_config_userconfig".to_owned(), "/dev/null".to_owned()));
    proof {
        assert(env_views(out@) =~= prev + seq![("npm_config_userconfig"@, "/dev/null"@)]);
        assert(env_views(out@) =~= safe_env_seq(env_views(parent@)) + safe_env_seq(
            env_views(overrides@),
        ) + seq![("npm_config_userconfig"@, "/dev/null"@)]);
    }
    out
}

} // verus!
