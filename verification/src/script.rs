//! Scripts: the unit of work the monitor hands to the launcher.  A
//! script carries the executable path, an optional execution timeout
//! in seconds, and its environment mapping.  This module also holds
//! the guard that decides whether a candidate executable is safe to
//! run unattended, and the judgment of an execution attempt's outcome.

use vstd::prelude::*;

use crate::fields::StrMap;

verus! {

/// Mode bits for owner read and owner execute.
pub const OWNER_READ_EXECUTE: u32 = 0o500;

/// The metadata of a candidate executable that validation reads.
#[derive(Clone, Copy, Debug, PartialEq, Eq, Structural)]
pub struct FileMeta {
    pub is_dir: bool,
    /// Owning user id.
    pub uid: u32,
    /// Owning group id.
    pub gid: u32,
    /// Permission bits.
    pub mode: u32,
}

/// Why a candidate executable was rejected.
#[derive(Clone, Copy, Debug, PartialEq, Eq, Structural)]
pub enum ValidationError {
    /// No metadata could be resolved for the path.
    NotFound,
    IsDirectory,
    /// Owning user or group is not the trusted principal (id 0).
    NotOwnedByTrustedPrincipal,
    /// Owner-read and owner-execute bits are not both set.
    NotExecutable,
}

/// The validation verdict for a file's metadata, checked in order:
/// resolvable, not a directory, owned by the trusted principal (user
/// and group id 0), and with at least owner-read and owner-execute
/// permission.  The first violation decides.
pub open spec fn spec_validate(meta: Option<FileMeta>) -> Result<(), ValidationError> {
    match meta {
        Option::None => Result::Err(ValidationError::NotFound),
        Option::Some(m) => if m.is_dir {
            Result::Err(ValidationError::IsDirectory)
        } else if m.uid != 0 || m.gid != 0 {
            Result::Err(ValidationError::NotOwnedByTrustedPrincipal)
        } else if m.mode & OWNER_READ_EXECUTE != OWNER_READ_EXECUTE {
            Result::Err(ValidationError::NotExecutable)
        } else {
            Result::Ok(())
        },
    }
}

/// An exit state of a child process: a normal exit code, or the
/// signal that terminated it.
#[derive(Clone, Copy, Debug, PartialEq, Eq, Structural)]
pub enum ExitInfo {
    Code(i32),
    Signal(i32),
}

/// What the worker observed for one execution attempt.
pub enum ExecEvent {
    /// The child could not be spawned; the operating system's error
    /// text.
    SpawnError(String),
    /// The child exited on its own (within the window, if one was
    /// configured).
    Exited(ExitInfo),
    /// The configured window elapsed; the child was killed and reaped
    /// with this exit state.
    KilledAfterTimeout(ExitInfo),
}

/// The judged outcome of one execution attempt.
pub enum RunOutcome {
    /// The child ran and exited on its own; any exit status, even a
    /// failing one, is reported as information, not as an error.
    Completed(ExitInfo),
    /// The child could not be spawned: an execution error.
    SpawnFailed(String),
    /// The child outlived its configured window and was killed: an
    /// execution error naming the bound and the forced exit state.
    TimedOut { bound: u64, exit: ExitInfo },
}

impl RunOutcome {
    /// Only spawn failure and timeout are execution errors.
    pub open spec fn spec_is_error(self) -> bool {
        match self {
            RunOutcome::Completed(_) => false,
            RunOutcome::SpawnFailed(_) => true,
            RunOutcome::TimedOut { .. } => true,
        }
    }

    pub fn is_error(&self) -> (r: bool)
        ensures
            r == self.spec_is_error(),
    {
        match self {
            RunOutcome::Completed(_) => false,
            RunOutcome::SpawnFailed(_) => true,
            RunOutcome::TimedOut { .. } => true,
        }
    }
}

/// An environment variable handed to a dispatched script.  Each kind
/// names itself under the broker's namespace prefix.
#[derive(Debug, Clone)]
pub enum EnvVar {
    /// The raw matched message text, as `JNB_MESSAGE`.
    Message(String),
    /// The full record serialized as JSON, as `JNB_JSON`.
    Json(String),
    /// An extension entry, prefixed as `JNB_<key>`.
    Custom { key: String, value: String },
}

impl EnvVar {
    /// The variable's name in the child's environment.
    pub open spec fn spec_name(self) -> Seq<char> {
        match self {
            EnvVar::Message(_) => "JNB_MESSAGE"@,
            EnvVar::Json(_) => "JNB_JSON"@,
            EnvVar::Custom { key, .. } => "JNB_"@ + key@,
        }
    }

    /// The variable's value.
    pub open spec fn spec_value(self) -> Seq<char> {
        match self {
            EnvVar::Message(value) => value@,
            EnvVar::Json(value) => value@,
            EnvVar::Custom { value, .. } => value@,
        }
    }

    pub fn name(&self) -> (r: String)
        ensures
            r@ == self.spec_name(),
    {
        match self {
            EnvVar::Message(_) => String::from_str("JNB_MESSAGE"),
            EnvVar::Json(_) => String::from_str("JNB_JSON"),
            EnvVar::Custom { key, .. } => String::from_str("JNB_").concat(key.as_str()),
        }
    }
}

/// A resolved unit of work: path, optional timeout in seconds, and
/// environment mapping.
#[derive(Debug)]
pub struct Script {
    path: String,
    envs: StrMap,
    timeout: Option<u64>,
}

impl Script {
    pub closed spec fn spec_path(self) -> Seq<char> {
        self.path@
    }

    pub closed spec fn spec_timeout(self) -> Option<u64> {
        self.timeout
    }

    pub closed spec fn spec_envs(self) -> StrMap {
        self.envs
    }

    pub open spec fn envs_map(self) -> Map<Seq<char>, Seq<char>> {
        self.spec_envs().as_map()
    }

    pub open spec fn wf(self) -> bool {
        self.spec_envs().wf()
    }

    /// Build a script with an empty environment, without validation.
    pub fn prepare(path: &str, timeout: Option<u64>) -> (r: Script)
        ensures
            r.wf(),
            r.spec_path() == path@,
            r.spec_timeout() == timeout,
            r.envs_map() == Map::<Seq<char>, Seq<char>>::empty(),
    {
        Script { path: String::from_str(path), envs: StrMap::new(), timeout }
    }

    /// Build a script, first validating the executable's metadata when
    /// asked to.  Validation is decided entirely by `spec_validate`
    /// over the metadata the caller resolved for the path.
    pub fn new(path: &str, timeout: Option<u64>, validate: bool, meta: Option<FileMeta>) -> (r:
        Result<Script, ValidationError>)
        ensures
            validate ==> (r is Ok <==> spec_validate(meta) is Ok),
            r matches Err(e) ==> validate && spec_validate(meta) == Result::<(),
                ValidationError,
            >::Err(e),
            r matches Ok(s) ==> s.wf() && s.spec_path() == path@ && s.spec_timeout() == timeout
                && s.envs_map() == Map::<Seq<char>, Seq<char>>::empty(),
    {
        if validate {
            match Script::validate_script(meta) {
                Ok(()) => (),
                Err(e) => {
                    return Err(e);
                },
            }
        }
        Ok(Script::prepare(path, timeout))
    }

    /// Decide whether a candidate executable is safe to run
    /// unattended, from the metadata the caller resolved for it
    /// (`None` when the path resolved to no metadata).  Validation is
    /// a pure judgment of this metadata: it is performed anew on every
    /// dispatch attempt and leaves no state behind.
    pub fn validate_script(meta: Option<FileMeta>) -> (r: Result<(), ValidationError>)
        ensures
            r == spec_validate(meta),
    {
        let m = match meta {
            None => {
                return Err(ValidationError::NotFound);
            },
            Some(m) => m,
        };
        if m.is_dir {
            return Err(ValidationError::IsDirectory);
        }
        if m.uid != 0 || m.gid != 0 {
            return Err(ValidationError::NotOwnedByTrustedPrincipal);
        }
        if m.mode & OWNER_READ_EXECUTE != OWNER_READ_EXECUTE {
            return Err(ValidationError::NotExecutable);
        }
        Ok(())
    }

    /// Add an environment variable, replacing an equally named one.
    pub fn add_env(&mut self, env_var: EnvVar)
        requires
            old(self).wf(),
        ensures
            final(self).wf(),
            final(self).spec_path() == old(self).spec_path(),
            final(self).spec_timeout() == old(self).spec_timeout(),
            final(self).envs_map() == old(self).envs_map().insert(
                env_var.spec_name(),
                env_var.spec_value(),
            ),
    {
        let name = env_var.name();
        let value = match env_var {
            EnvVar::Message(value) => value,
            EnvVar::Json(value) => value,
            EnvVar::Custom { value, .. } => value,
        };
        self.envs.insert(name, value);
    }

    pub fn path(&self) -> (r: &String)
        ensures
            r@ == self.spec_path(),
    {
        &self.path
    }

    pub fn timeout(&self) -> (r: Option<u64>)
        ensures
            r == self.spec_timeout(),
    {
        self.timeout
    }

    /// Look an environment variable up.
    pub fn env<'a>(&'a self, name: &str) -> (r: Option<&'a String>)
        requires
            self.wf(),
        ensures
            match r {
                Some(v) => self.envs_map().contains_key(name@) && v@ == self.envs_map()[name@],
                None => !self.envs_map().contains_key(name@),
            },
    {
        self.envs.get(name)
    }

    /// How many environment variables are set.
    pub fn env_len(&self) -> (r: usize)
        ensures
            r == self.spec_envs().entries().len(),
    {
        self.envs.len()
    }

    /// The environment entry at a position, for walking all of them.
    pub fn env_at(&self, i: usize) -> (r: &(String, String))
        requires
            i < self.spec_envs().entries().len(),
        ensures
            *r == self.spec_envs().entries()[i as int],
    {
        self.envs.entry_at(i)
    }

    /// Judge what one execution attempt amounts to.  A child that
    /// exited on its own completed, whatever its status; a spawn
    /// failure is an error; a kill after the configured window is a
    /// timeout error carrying that bound.
    pub fn conclude(&self, event: ExecEvent) -> (r: RunOutcome)
        requires
            event is KilledAfterTimeout ==> self.spec_timeout() is Some,
        ensures
            match event {
                ExecEvent::SpawnError(e) => r == RunOutcome::SpawnFailed(e) && r.spec_is_error(),
                ExecEvent::Exited(x) => r == RunOutcome::Completed(x) && !r.spec_is_error(),
                ExecEvent::KilledAfterTimeout(x) => r == (RunOutcome::TimedOut {
                    bound: self.spec_timeout().unwrap(),
                    exit: x,
                }) && r.spec_is_error(),
            },
    {
        match event {
            ExecEvent::SpawnError(e) => RunOutcome::SpawnFailed(e),
            ExecEvent::Exited(x) => RunOutcome::Completed(x),
            ExecEvent::KilledAfterTimeout(x) => {
                let bound = match self.timeout {
                    Some(b) => b,
                    None => 0,  // excluded by the precondition
                };
                RunOutcome::TimedOut { bound, exit: x }
            },
        }
    }
}

/// Validation is a pure function of the metadata: validating the same
/// unchanged metadata again yields the same verdict, and two differing
/// verdicts can only come from differing metadata.
pub proof fn lemma_validate_deterministic(m1: Option<FileMeta>, m2: Option<FileMeta>)
    ensures
        m1 == m2 ==> spec_validate(m1) == spec_validate(m2),
        spec_validate(m1) != spec_validate(m2) ==> m1 != m2,
{
}

} // verus!
