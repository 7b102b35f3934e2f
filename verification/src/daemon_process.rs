//! Identity of the background daemon and where it keeps its lock and
//! metadata files.
use vstd::prelude::*;
use crate::paths::{
    dir_or_current, dir_or_current_exec, is_join_base, is_plain_file_name, joined, lemma_portable_base, path_join,
    joined_path, parent_of, path_parent, portable_split,
};
use crate::text::{append_str, append_vec, ends_with, from_chars, to_chars, trim, trim_str};
use crate::tool_names::{decimal, decimal_exec};

verus! {

pub const DAEMON_INSTANCE_ENV: &'static str = "CODEXHUB_DAEMON_INSTANCE_ID";

pub const DAEMON_SERVICE_NAME: &'static str = "codexhub";

#[derive(Debug)]
pub struct DaemonIdentity {
    pub service: String,
    pub pid: u32,
    pub instance_id: String,
    pub started_at_ms: u64,
}

impl Clone for DaemonIdentity {
    fn clone(&self) -> (r: Self)
        ensures
            r.service@ == self.service@,
            r.pid == self.pid,
            r.instance_id@ == self.instance_id@,
            r.started_at_ms == self.started_at_ms,
    {
        DaemonIdentity {
            service: self.service.clone(),
            pid: self.pid,
            instance_id: self.instance_id.clone(),
            started_at_ms: self.started_at_ms,
        }
    }
}

/// A fresh random (version 4) UUID in its hyphenated form.
#[verifier::external_body]
pub(crate) fn new_instance_uuid() -> (r: String)
    ensures
        r@.len() == 36,
        forall|i: int| 0 <= i < r@.len() ==> crate::tool_names::is_hex_char(#[trigger] r@[i]) || r@[i] == '-',
{
    uuid::Uuid::new_v4().to_string()
}

/// The identity is that of a CodexHub daemon: the right service, a real
/// process id and a non-blank instance id.
pub open spec fn identity_is_codexhub(service: Seq<char>, pid: u32, instance_id: Seq<char>) -> bool {
    service == DAEMON_SERVICE_NAME@ && pid > 0 && trim(instance_id).len() > 0
}

impl DaemonIdentity {
    /// The identity of this process: the instance id comes from the
    /// environment value when it is not blank, otherwise a fresh UUID; the
    /// start time is clamped to `u64`.
    pub fn from_process(instance_env: Option<&str>, pid: u32, now_ms: u128) -> (r: Self)
        ensures
            r.service@ == DAEMON_SERVICE_NAME@,
            r.pid == pid,
            r.started_at_ms == if now_ms > u64::MAX as u128 { u64::MAX } else { now_ms as u64 },
            match instance_env {
                Some(v) => trim(v@).len() > 0 ==> r.instance_id@ == trim(v@),
                None => true,
            },
            trim(r.instance_id@).len() > 0,
    {
        let from_env = match instance_env {
            Some(v) => {
                let t = trim_str(v);
                if t.as_str().is_empty() {
                    None
                } else {
                    Some(t)
                }
            },
            None => None,
        };
        let instance_id = match from_env {
            Some(t) => {
                proof {
                    crate::text::lemma_trim_idempotent(instance_env.unwrap()@);
                }
                t
            },
            None => {
                let u = new_instance_uuid();
                proof {
                    assert(crate::tool_names::is_hex_char(u@[0]) || u@[0] == '-');
                    assert(crate::tool_names::is_hex_char(u@[35]) || u@[35] == '-');
                    crate::text::lemma_trim_solid_ends(u@);
                }
                u
            },
        };
        let started_at_ms: u64 = if now_ms > u64::MAX as u128 {
            u64::MAX
        } else {
            now_ms as u64
        };
        DaemonIdentity { service: String::from_str(DAEMON_SERVICE_NAME), pid, instance_id, started_at_ms }
    }

    pub fn is_codexhub(&self) -> (r: bool)
        ensures
            r == identity_is_codexhub(self.service@, self.pid, self.instance_id@),
    {
        let s = to_chars(self.service.as_str());
        crate::text::eq_str(&s, DAEMON_SERVICE_NAME) && self.pid > 0 && !trim_str(
            self.instance_id.as_str(),
        ).as_str().is_empty()
    }
}

/// What the daemon writes next to its lock: identity and origin.
#[derive(Debug)]
pub struct DaemonMetadata {
    pub identity: DaemonIdentity,
    pub executable: String,
    pub config_path: String,
}

/// The directory of the configuration file, or `.` when it has none: the
/// portable directory of a file in one, `.` for a bare file name.
pub fn daemon_dir(config_path: &str) -> (r: String)
    ensures
        r@ == dir_or_current(parent_of(config_path@)),
        forall|d: Seq<char>, f: Seq<char>| #![trigger portable_split(config_path@, d, f)]
            portable_split(config_path@, d, f) ==> r@ == d,
        is_plain_file_name(config_path@) ==> r@ == seq!['.'],
{
    let parent = path_parent(config_path);
    let r = dir_or_current_exec(parent);
    assert forall|d: Seq<char>, f: Seq<char>| #![trigger portable_split(config_path@, d, f)]
        portable_split(config_path@, d, f) implies r@ == d by {
        lemma_portable_base(d);
    }
    r
}

/// The directory of the configuration file: its parent, or `.`.
pub open spec fn daemon_dir_of(config_path: Seq<char>) -> Seq<char> {
    dir_or_current(parent_of(config_path))
}

/// `name` in the directory of the configuration file: after the portable
/// directory of a file in one, after `.` for a bare file name.
pub open spec fn in_config_dir(r: Seq<char>, config_path: Seq<char>, name: Seq<char>) -> bool {
    &&& forall|d: Seq<char>, f: Seq<char>|
        #![trigger portable_split(config_path, d, f)]
        portable_split(config_path, d, f) ==> joined(r, d, name)
    &&& is_plain_file_name(config_path) ==> joined(r, seq!['.'], name)
}

/// `name` joined onto the configuration file's directory.
fn in_daemon_dir(config_path: &str, name: &str) -> (r: String)
    requires
        is_plain_file_name(name@),
    ensures
        r@ == joined_path(daemon_dir_of(config_path@), name@),
        ends_with(r@, name@),
        in_config_dir(r@, config_path@, name@),
{
    let dir = daemon_dir(config_path);
    let r = path_join(dir.as_str(), name);
    assert forall|d: Seq<char>, f: Seq<char>| #![trigger portable_split(config_path@, d, f)]
        portable_split(config_path@, d, f) implies joined(r@, d, name@) by {
        lemma_portable_base(d);
    }
    assert(is_join_base(seq!['.']));
    r
}

pub open spec fn lock_file_name() -> Seq<char> {
    seq!['c', 'o', 'd', 'e', 'x', 'h', 'u', 'b', '-', 'd', 'a', 'e', 'm', 'o', 'n', '.', 'l', 'o', 'c', 'k']
}

pub open spec fn metadata_file_name() -> Seq<char> {
    seq!['c', 'o', 'd', 'e', 'x', 'h', 'u', 'b', '-', 'd', 'a', 'e', 'm', 'o', 'n', '.', 'j', 's', 'o', 'n']
}

/// `codexhub-daemon.lock` in the directory of the configuration file.
pub fn daemon_lock_path(config_path: &str) -> (r: String)
    ensures
        r@ == joined_path(daemon_dir_of(config_path@), lock_file_name()),
        ends_with(r@, lock_file_name()),
        in_config_dir(r@, config_path@, lock_file_name()),
{
    let chars = vec!['c', 'o', 'd', 'e', 'x', 'h', 'u', 'b', '-', 'd', 'a', 'e', 'm', 'o', 'n', '.', 'l', 'o', 'c', 'k'];
    let name = from_chars(&chars);
    assert(name@ =~= lock_file_name());
    assert(is_plain_file_name(name@));
    in_daemon_dir(config_path, name.as_str())
}

/// `codexhub-daemon.json` in the directory of the configuration file.
pub fn daemon_metadata_path(config_path: &str) -> (r: String)
    ensures
        r@ == joined_path(daemon_dir_of(config_path@), metadata_file_name()),
        ends_with(r@, metadata_file_name()),
        in_config_dir(r@, config_path@, metadata_file_name()),
{
    let chars = vec!['c', 'o', 'd', 'e', 'x', 'h', 'u', 'b', '-', 'd', 'a', 'e', 'm', 'o', 'n', '.', 'j', 's', 'o', 'n'];
    let name = from_chars(&chars);
    assert(name@ =~= metadata_file_name());
    assert(is_plain_file_name(name@));
    in_daemon_dir(config_path, name.as_str())
}

// ─── a lock held by another daemon ─────────────────────────────────────

/// Who holds the lock, as far as its metadata tells.
pub open spec fn lock_owner(metadata: Option<(u32, Seq<char>)>) -> Seq<char> {
    match metadata {
        Some((pid, instance_id)) => "pid="@ + decimal(pid as nat) + " instance_id="@ + instance_id,
        None => "owner=unknown"@,
    }
}

/// The error `DaemonInstanceLock::acquire` gives when another daemon holds
/// the lock at `lock_path`; `error` is what the lock attempt reported.
pub open spec fn lock_held_text(lock_path: Seq<char>, metadata: Option<(u32, Seq<char>)>, error: Seq<char>) -> Seq<char> {
    "another CodexHub daemon holds `"@ + lock_path + "` ("@ + lock_owner(metadata) + "): "@ + error
}

pub open spec fn metadata_owner(metadata: Option<&DaemonMetadata>) -> Option<(u32, Seq<char>)> {
    match metadata {
        Some(m) => Some((m.identity.pid, m.identity.instance_id@)),
        None => None,
    }
}

/// The message for a lock that another daemon holds, naming it by the
/// metadata it left (pid and instance id) when that could be read.
pub fn lock_held_message(lock_path: &str, metadata: Option<&DaemonMetadata>, error: &str) -> (r: String)
    ensures
        r@ == lock_held_text(lock_path@, metadata_owner(metadata), error@),
{
    let mut m = to_chars("another CodexHub daemon holds `");
    append_str(&mut m, lock_path);
    append_str(&mut m, "` (");
    match metadata {
        Some(md) => {
            append_str(&mut m, "pid=");
            append_vec(&mut m, &decimal_exec(md.identity.pid as usize));
            append_str(&mut m, " instance_id=");
            append_str(&mut m, md.identity.instance_id.as_str());
        },
        None => append_str(&mut m, "owner=unknown"),
    }
    append_str(&mut m, "): ");
    append_str(&mut m, error);
    from_chars(&m)
}

} // verus!
