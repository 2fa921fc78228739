//! The run modes and the remote target named on the command line.

use vstd::prelude::*;

use crate::text::{chars_of, owned, push_str, string_from_chars};

verus! {

/// The mode in which pipeflow should run.
#[derive(Debug, Clone, Copy, PartialEq, Eq, Structural)]
pub enum RunMode {
    /// Normal GUI mode with local PipeWire connection
    Local,
    /// Headless server mode (gRPC server, no GUI)
    Headless,
    /// Remote client mode (GUI connecting to remote via SSH tunnel)
    Remote,
}

/// Chooses the run mode: headless when asked for, else remote when a remote
/// target is given, else local.
pub fn run_mode(headless: bool, remote: &Option<String>) -> (r: RunMode)
    ensures
        r == (if headless {
            RunMode::Headless
        } else if remote is Some {
            RunMode::Remote
        } else {
            RunMode::Local
        }),
{
    if headless {
        RunMode::Headless
    } else if remote.is_some() {
        RunMode::Remote
    } else {
        RunMode::Local
    }
}

/// Parsed remote connection target.
#[derive(Debug, Clone)]
pub struct RemoteTarget {
    /// SSH username
    pub user: String,
    /// Remote host (hostname or IP)
    pub host: String,
    /// SSH port
    pub port: u16,
}

impl RemoteTarget {
    /// Returns the SSH connection string (user@host).
    pub fn ssh_target(&self) -> (r: String)
        ensures
            r@ == self.user@ + "@"@ + self.host@,
    {
        let mut s = self.user.clone();
        push_str(&mut s, "@");
        push_str(&mut s, self.host.as_str());
        s
    }
}

/// `s` holds the character `c` at index `i` and nowhere before it.
pub open spec fn first_at(s: Seq<char>, c: char, i: int) -> bool {
    &&& 0 <= i < s.len()
    &&& s[i] == c
    &&& forall|j: int| 0 <= j < i ==> s[j] != c
}

/// The target a `USER@HOST` argument names: split at the first `@`; without one,
/// the whole argument is the host and the user is `default_user`.
pub open spec fn target_of(arg: Seq<char>, default_user: Seq<char>, user: Seq<char>, host: Seq<char>) -> bool {
    if exists|i: int| first_at(arg, '@', i) {
        exists|i: int| first_at(arg, '@', i) && user == arg.take(i) && host == arg.skip(i + 1)
    } else {
        user == default_user && host == arg
    }
}

/// Parses the remote argument into user, host and port; `default_user` is the
/// user taken when the argument names none.
pub fn parse_remote_target(remote: &Option<String>, ssh_port: u16, default_user: &str) -> (r: Option<RemoteTarget>)
    ensures
        remote is None ==> r is None,
        remote matches Some(arg) ==> r is Some && r->0.port == ssh_port
            && target_of(arg@, default_user@, r->0.user@, r->0.host@),
{
    match remote {
        None => None,
        Some(arg) => {
            let chars = chars_of(arg.as_str());
            let mut i: usize = 0;
            while i < chars.len()
                invariant
                    i <= chars@.len(),
                    chars@ == arg@,
                    *remote == Some(*arg),
                    forall|j: int| 0 <= j < i ==> chars@[j] != '@',
                decreases chars.len() - i,
            {
                if chars[i] == '@' {
                    let user = string_from_chars(&chars.as_slice()[0..i]);
                    let host = string_from_chars(&chars.as_slice()[i + 1..chars.len()]);
                    proof {
                        assert(first_at(arg@, '@', i as int));
                        assert forall|k: int| first_at(arg@, '@', k) implies k == i by {
                            if k < i {
                                assert(chars@[k] != '@');
                            } else if k > i {
                                assert(arg@[i as int] == '@');
                            }
                        }
                        assert(user@ =~= arg@.take(i as int));
                        assert(host@ =~= arg@.skip(i + 1));
                    }
                    return Some(RemoteTarget { user, host, port: ssh_port });
                }
                i += 1;
            }
            proof {
                assert forall|k: int| !first_at(arg@, '@', k) by {
                    if 0 <= k < arg@.len() {
                        assert(chars@[k] != '@');
                    }
                }
            }
            Some(RemoteTarget { user: owned(default_user), host: arg.clone(), port: ssh_port })
        },
    }
}

}
