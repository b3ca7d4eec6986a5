//! Health checks — validate app config before save and before start.

use vstd::prelude::*;

use crate::json::{json_read, read_json};
use crate::text::{
    is_blank, is_whitespace, is_ws, lead_ws, push_str, to_owned_string, trim, trim_bounds,
};

verus! {

/// Errors that can occur during health checks.
#[derive(Debug, Clone, PartialEq)]
pub enum HealthError {
    DirNotFound(String),
    DirNotDirectory(String),
    CommandNotFound(String),
    InvalidEnvVars(String),
    EmptyCommand,
}

/// A health error as plain values: its variant number and its text.
pub open spec fn health_error_view(e: HealthError) -> (int, Seq<char>) {
    match e {
        HealthError::DirNotFound(p) => (0, p@),
        HealthError::DirNotDirectory(p) => (1, p@),
        HealthError::CommandNotFound(c) => (2, c@),
        HealthError::InvalidEnvVars(r) => (3, r@),
        HealthError::EmptyCommand => (4, Seq::empty()),
    }
}

/// The message of a health error, as its `Display` renders it.
pub open spec fn health_message(e: (int, Seq<char>)) -> Seq<char> {
    if e.0 == 0 {
        "Working directory not found: "@ + e.1
    } else if e.0 == 1 {
        "Path exists but is not a directory: "@ + e.1
    } else if e.0 == 2 {
        "Command not found in PATH: "@ + e.1
    } else if e.0 == 3 {
        "Invalid environment variables: "@ + e.1
    } else {
        "Command is empty"@
    }
}

impl HealthError {
    /// The display message.
    pub fn message(&self) -> (m: String)
        ensures
            m@ == health_message(health_error_view(*self)),
    {
        match self {
            HealthError::DirNotFound(p) => {
                let mut m = to_owned_string("Working directory not found: ");
                push_str(&mut m, p.as_str());
                m
            },
            HealthError::DirNotDirectory(p) => {
                let mut m = to_owned_string("Path exists but is not a directory: ");
                push_str(&mut m, p.as_str());
                m
            },
            HealthError::CommandNotFound(c) => {
                let mut m = to_owned_string("Command not found in PATH: ");
                push_str(&mut m, c.as_str());
                m
            },
            HealthError::InvalidEnvVars(r) => {
                let mut m = to_owned_string("Invalid environment variables: ");
                push_str(&mut m, r.as_str());
                m
            },
            HealthError::EmptyCommand => to_owned_string("Command is empty"),
        }
    }
}

/// Result of running all health checks on an app configuration.
#[derive(Debug, Clone)]
pub struct HealthCheckResult {
    pub is_healthy: bool,
    pub errors: Vec<HealthError>,
}

/// What the file system says of the working directory.
#[derive(Debug, Clone, Copy, PartialEq, Eq)]
pub enum DirStatus {
    Missing,
    NotDirectory,
    Directory,
}

/// The first whitespace-separated word of `s` (`split_whitespace().next()`),
/// for `s` that has one.
pub open spec fn first_word(s: Seq<char>) -> Seq<char> {
    let a = s.skip(lead_ws(s) as int);
    a.take(word_len(a) as int)
}

/// Length of the leading run of non-whitespace characters of `s`.
pub open spec fn word_len(s: Seq<char>) -> nat
    decreases s.len(),
{
    if s.len() > 0 && !is_ws(s[0]) {
        1 + word_len(s.drop_first())
    } else {
        0
    }
}

/// The message reported for env vars that are JSON but not an object.
pub open spec fn not_object_message() -> Seq<char> {
    "env vars must be a JSON object"@
}

/// The health errors of a configuration, in check order (directory,
/// command, env vars), given what the file system says of the directory,
/// whether the command's binary was found in `PATH`, and what the JSON
/// parser made of the env vars.
pub open spec fn health_errors(
    working_dir: Seq<char>,
    dir: DirStatus,
    command: Seq<char>,
    binary_found: bool,
    env_vars: Seq<char>,
) -> Seq<(int, Seq<char>)> {
    let d: Seq<(int, Seq<char>)> = match dir {
        DirStatus::Missing => seq![(0int, working_dir)],
        DirStatus::NotDirectory => seq![(1int, working_dir)],
        DirStatus::Directory => Seq::empty(),
    };
    let c: Seq<(int, Seq<char>)> = if trim(command).len() == 0 {
        seq![(4int, Seq::<char>::empty())]
    } else if !binary_found {
        seq![(2int, first_word(trim(command)))]
    } else {
        Seq::empty()
    };
    let e: Seq<(int, Seq<char>)> = if trim(env_vars).len() == 0 {
        Seq::empty()
    } else {
        match json_read(env_vars) {
            Ok(Some(_)) => Seq::empty(),
            Ok(None) => seq![(3int, not_object_message())],
            Err(msg) => seq![(3int, msg)],
        }
    };
    d + c + e
}

pub open spec fn errors_view(v: Seq<HealthError>) -> Seq<(int, Seq<char>)> {
    v.map_values(|e: HealthError| health_error_view(e))
}

/// Whether a path exists on disk (`Path::exists`). Depends on the file
/// system, so nothing is stated of the answer.
#[verifier::external_body]
pub(crate) fn path_exists(p: &str) -> bool {
    std::path::Path::new(p).exists()
}

/// Whether a path is a directory on disk (`Path::is_dir`). Depends on the
/// file system, so nothing is stated of the answer.
#[verifier::external_body]
pub(crate) fn path_is_dir(p: &str) -> bool {
    std::path::Path::new(p).is_dir()
}

/// Whether `which::which` finds the named binary in `PATH`. Depends on the
/// environment and the file system, so nothing is stated of the answer.
#[verifier::external_body]
pub(crate) fn command_in_path(name: &str) -> bool {
    which::which(name).is_ok()
}

proof fn lemma_word_len(s: Seq<char>)
    ensures
        word_len(s) <= s.len(),
        forall|i: int| 0 <= i < word_len(s) ==> !is_ws(#[trigger] s[i]),
        word_len(s) < s.len() ==> is_ws(s[word_len(s) as int]),
    decreases s.len(),
{
    if s.len() > 0 && !is_ws(s[0]) {
        lemma_word_len(s.drop_first());
        assert forall|i: int| 0 <= i < word_len(s) implies !is_ws(#[trigger] s[i]) by {
            if i > 0 {
                assert(s[i] == s.drop_first()[i - 1]);
            }
        }
    }
}

proof fn lemma_word_len_unique(s: Seq<char>, k: nat)
    requires
        k <= s.len(),
        forall|i: int| 0 <= i < k ==> !is_ws(#[trigger] s[i]),
        k < s.len() ==> is_ws(s[k as int]),
    ensures
        word_len(s) == k,
    decreases s.len(),
{
    if k > 0 {
        assert(!is_ws(s[0]));
        assert forall|i: int| 0 <= i < k - 1 implies !is_ws(#[trigger] s.drop_first()[i]) by {
            assert(s.drop_first()[i] == s[i + 1]);
        }
        if k - 1 < s.drop_first().len() {
            assert(s.drop_first()[k - 1] == s[k as int]);
        }
        lemma_word_len_unique(s.drop_first(), (k - 1) as nat);
    }
}

/// The first whitespace-separated word of a command that is not blank.
pub fn command_binary(command: &str) -> (b: String)
    requires
        trim(command@).len() > 0,
    ensures
        b@ == first_word(trim(command@)),
{
    let (a, e) = trim_bounds(command);
    let mut k: usize = a;
    while k < e && !is_whitespace(command.get_char(k))
        invariant
            a <= k <= e,
            e <= command@.len(),
            forall|i: int| a <= i < k ==> !is_ws(#[trigger] command@[i]),
        decreases e - k,
    {
        k = k + 1;
    }
    proof {
        let t = trim(command@);
        assert(t == command@.subrange(a as int, e as int));
        crate::text::lemma_lead_ws_bound(command@);
        crate::text::lemma_lead_ws_bound(t);
        // The trimmed text starts with a non-whitespace character.
        assert(lead_ws(t) == 0) by {
            crate::text::lemma_lead_ws_unique(t, 0);
            assert(!is_ws(t[0])) by {
                assert(t[0] == command@[a as int]);
                assert(!is_ws(command@[lead_ws(command@) as int]));
            }
        }
        assert(t.skip(0) =~= t);
        assert forall|i: int| 0 <= i < k - a implies !is_ws(#[trigger] t[i]) by {
            assert(t[i] == command@[a + i]);
        }
        if k < e {
            assert(t[k - a] == command@[k as int]);
        }
        lemma_word_len_unique(t, (k - a) as nat);
    }
    let w = command.substring_char(a, k);
    assert(w@ =~= first_word(trim(command@)));
    String::from_str(w)
}

/// The health check result for the given observations; see
/// [`health_errors`].
pub fn health_from_checks(
    working_dir: &str,
    dir: DirStatus,
    command: &str,
    binary_found: bool,
    env_vars: &str,
) -> (r: HealthCheckResult)
    ensures
        errors_view(r.errors@) == health_errors(
            working_dir@,
            dir,
            command@,
            binary_found,
            env_vars@,
        ),
        r.is_healthy == (r.errors.len() == 0),
{
    let mut errors: Vec<HealthError> = Vec::new();
    match dir {
        DirStatus::Missing => errors.push(HealthError::DirNotFound(String::from_str(working_dir))),
        DirStatus::NotDirectory => errors.push(
            HealthError::DirNotDirectory(String::from_str(working_dir)),
        ),
        DirStatus::Directory => {},
    }
    let ghost e1 = errors@;
    if is_blank(command) {
        errors.push(HealthError::EmptyCommand);
    } else if !binary_found {
        errors.push(HealthError::CommandNotFound(command_binary(command)));
    }
    let ghost e2 = errors@;
    if !is_blank(env_vars) {
        match read_json(env_vars) {
            Ok(Some(_)) => {},
            Ok(None) => errors.push(
                HealthError::InvalidEnvVars(to_owned_string("env vars must be a JSON object")),
            ),
            Err(msg) => errors.push(HealthError::InvalidEnvVars(msg)),
        }
    }
    assert(errors_view(errors@) =~= health_errors(
        working_dir@,
        dir,
        command@,
        binary_found,
        env_vars@,
    ));
    let healthy = errors.len() == 0;
    HealthCheckResult { is_healthy: healthy, errors }
}

/// A law of the health check: for a command that is not blank, a
/// "command not found" error (code 2) is reported exactly when the binary
/// was not found, and it names the command's first word; no other check
/// reports one, and a blank command reports the empty-command error (code
/// 4) instead.
pub proof fn lemma_command_not_found(
    working_dir: Seq<char>,
    dir: DirStatus,
    command: Seq<char>,
    found: bool,
    env_vars: Seq<char>,
)
    ensures
        ({
            let e = health_errors(working_dir, dir, command, found, env_vars);
            &&& trim(command).len() > 0 ==> (e.contains((2int, first_word(trim(command)))) <==> !found)
            &&& forall|i: int| 0 <= i < e.len() && (#[trigger] e[i]).0 == 2 ==> trim(command).len() > 0
                && !found && e[i].1 == first_word(trim(command))
            &&& trim(command).len() == 0 ==> e.contains((4int, Seq::<char>::empty()))
        }),
{
    let e = health_errors(working_dir, dir, command, found, env_vars);
    let d: Seq<(int, Seq<char>)> = match dir {
        DirStatus::Missing => seq![(0int, working_dir)],
        DirStatus::NotDirectory => seq![(1int, working_dir)],
        DirStatus::Directory => Seq::empty(),
    };
    let c: Seq<(int, Seq<char>)> = if trim(command).len() == 0 {
        seq![(4int, Seq::<char>::empty())]
    } else if !found {
        seq![(2int, first_word(trim(command)))]
    } else {
        Seq::empty()
    };
    let x: Seq<(int, Seq<char>)> = if trim(env_vars).len() == 0 {
        Seq::empty()
    } else {
        match json_read(env_vars) {
            Ok(Some(_)) => Seq::empty(),
            Ok(None) => seq![(3int, not_object_message())],
            Err(msg) => seq![(3int, msg)],
        }
    };
    assert(e == d + c + x);
    assert forall|i: int| 0 <= i < e.len() && (#[trigger] e[i]).0 == 2 implies trim(command).len() > 0
        && !found && e[i].1 == first_word(trim(command)) by {
        if i < d.len() {
            assert(e[i] == d[i]);
        } else if i < d.len() + c.len() {
            assert(e[i] == c[i - d.len()]);
        } else {
            assert(e[i] == x[i - d.len() - c.len()]);
        }
    }
    if trim(command).len() > 0 && !found {
        assert(e[d.len() as int] == c[0]);
    }
    if trim(command).len() == 0 {
        assert(e[d.len() as int] == c[0]);
    }
}

/// Whether `found` is an answer the `PATH` lookup gave for `name`.
pub closed spec fn path_lookup_gave(name: &str, found: bool) -> bool {
    call_ensures(command_in_path, (name,), found)
}

/// Looks `name` up in `PATH`; the answer is the lookup's.
pub(crate) fn lookup_in_path(name: &str) -> (found: bool)
    ensures
        path_lookup_gave(name, found),
{
    command_in_path(name)
}

/// Whether `exists` is an answer `Path::exists` gave for `path`.
pub closed spec fn exists_check_gave(path: &str, exists: bool) -> bool {
    call_ensures(path_exists, (path,), exists)
}

/// Whether `is_dir` is an answer `Path::is_dir` gave for `path`.
pub closed spec fn dir_check_gave(path: &str, is_dir: bool) -> bool {
    call_ensures(path_is_dir, (path,), is_dir)
}

/// How the directory checks' answers make the directory's status: missing
/// where it does not exist, else not a directory where it is none, else a
/// directory.
pub open spec fn dir_status_of(exists: bool, is_dir: bool) -> DirStatus {
    if !exists {
        DirStatus::Missing
    } else if !is_dir {
        DirStatus::NotDirectory
    } else {
        DirStatus::Directory
    }
}

/// Run all health checks for an app configuration.
///
/// Checks working directory, command binary, and env vars JSON.
/// All checks run regardless of earlier failures (no short-circuit).
/// The file system and `PATH` give the answers, so the result is stated for
/// the answers they gave: the directory's status is what `Path::exists`
/// and `Path::is_dir` answered for `working_dir`, and for a command that is
/// not blank, whether the binary was found is what the `PATH` lookup
/// answered for the command's first word, whatever arguments follow.
pub fn check_app_health(working_dir: &str, command: &str, env_vars: &str) -> (r: HealthCheckResult)
    ensures
        exists|dir: DirStatus, found: bool|
            errors_view(r.errors@) == #[trigger] health_errors(
                working_dir@,
                dir,
                command@,
                found,
                env_vars@,
            ) && (exists|ex: bool, isd: bool|
                exists_check_gave(working_dir, ex) && (ex ==> dir_check_gave(working_dir, isd)) && dir
                    == dir_status_of(ex, isd)) && (trim(command@).len() > 0 ==> exists|q: &str|
                q@ == first_word(trim(command@)) && path_lookup_gave(q, found)),
        r.is_healthy == (r.errors.len() == 0),
{
    let ex = path_exists(working_dir);
    let isd = if ex {
        path_is_dir(working_dir)
    } else {
        true
    };
    let dir = if !ex {
        DirStatus::Missing
    } else if !isd {
        DirStatus::NotDirectory
    } else {
        DirStatus::Directory
    };
    let found = if is_blank(command) {
        true
    } else {
        command_in_path(command_binary(command).as_str())
    };
    let r = health_from_checks(working_dir, dir, command, found, env_vars);
    assert(exists_check_gave(working_dir, ex) && (ex ==> dir_check_gave(working_dir, isd)) && dir
        == dir_status_of(ex, isd));
    r
}

} // verus!
