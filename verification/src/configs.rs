//! Bookkeeping over the configuration snapshot: upsert, delete, and
//! the enable/disable switch.
//!
//! The caller loads the snapshot, hands the record lists to these
//! functions, and persists what comes back; on an enable/disable
//! switch it then connects or disconnects the returned record.  The
//! `id` field is the key throughout; an upsert replaces the first
//! record with the same id and appends otherwise.

use vstd::prelude::*;
use crate::types::{CloudflareConfig, CloudflareConfigV, SshConfig, SshConfigV};

verus! {

/// Why a configuration command failed.
#[derive(Clone, Copy, Debug, PartialEq, Eq, Structural)]
pub enum ConfigError {
    /// No record carries the requested id.
    NotFound,
}

impl ConfigError {
    /// The error's text, as reported to the caller.
    pub fn message(&self) -> (s: String)
        ensures
            s@ == "Config not found"@,
    {
        "Config not found".to_owned()
    }
}

/// The values of a list of SSH records.
pub open spec fn ssh_view(cfgs: Seq<SshConfig>) -> Seq<SshConfigV> {
    cfgs.map_values(|c: SshConfig| c@)
}

/// The values of a list of tunnel-daemon records.
pub open spec fn cloudflare_view(cfgs: Seq<CloudflareConfig>) -> Seq<CloudflareConfigV> {
    cfgs.map_values(|c: CloudflareConfig| c@)
}

/// Some record of `cfgs` carries `id`.
pub open spec fn ssh_has_id(cfgs: Seq<SshConfigV>, id: Seq<char>) -> bool {
    exists|i: int| 0 <= i < cfgs.len() && cfgs[i].id == id
}

/// `i` is the first position of `id` in `cfgs`.
pub open spec fn ssh_first_at(cfgs: Seq<SshConfigV>, id: Seq<char>, i: int) -> bool {
    &&& 0 <= i < cfgs.len()
    &&& cfgs[i].id == id
    &&& forall|k: int| 0 <= k < i ==> cfgs[k].id != id
}

/// Some record of `cfgs` carries `id`.
pub open spec fn cloudflare_has_id(cfgs: Seq<CloudflareConfigV>, id: Seq<char>) -> bool {
    exists|i: int| 0 <= i < cfgs.len() && cfgs[i].id == id
}

/// `i` is the first position of `id` in `cfgs`.
pub open spec fn cloudflare_first_at(cfgs: Seq<CloudflareConfigV>, id: Seq<char>, i: int) -> bool {
    &&& 0 <= i < cfgs.len()
    &&& cfgs[i].id == id
    &&& forall|k: int| 0 <= k < i ==> cfgs[k].id != id
}

/// `c` with its desired-state flag set to `enabled`.
pub open spec fn ssh_with_enabled(c: SshConfigV, enabled: bool) -> SshConfigV {
    SshConfigV { enabled, ..c }
}

/// `c` with its desired-state flag set to `enabled`.
pub open spec fn cloudflare_with_enabled(c: CloudflareConfigV, enabled: bool) -> CloudflareConfigV {
    CloudflareConfigV { enabled, ..c }
}

/// The first position of an SSH record carrying `id`, if any.
fn ssh_index_of(cfgs: &Vec<SshConfig>, id: &String) -> (r: Option<usize>)
    ensures
        match r {
            Some(i) => ssh_first_at(ssh_view(cfgs@), id@, i as int),
            None => !ssh_has_id(ssh_view(cfgs@), id@),
        },
{
    let mut i: usize = 0;
    while i < cfgs.len()
        invariant
            i <= cfgs@.len(),
            forall|k: int| 0 <= k < i ==> ssh_view(cfgs@)[k].id != id@,
        decreases cfgs@.len() - i,
    {
        if cfgs[i].id.eq(id) {
            return Some(i);
        }
        i = i + 1;
    }
    None
}

/// Upserts `entry` into the SSH records: the first record with the
/// same id is replaced, and if there is none the entry is appended.
pub fn save_ssh_config(cfgs: &mut Vec<SshConfig>, entry: SshConfig)
    ensures
        ssh_has_id(ssh_view(old(cfgs)@), entry@.id) ==> exists|i: int|
            ssh_first_at(ssh_view(old(cfgs)@), entry@.id, i) && ssh_view(final(cfgs)@) == ssh_view(
                old(cfgs)@,
            ).update(i, entry@),
        !ssh_has_id(ssh_view(old(cfgs)@), entry@.id) ==> ssh_view(final(cfgs)@) == ssh_view(
            old(cfgs)@,
        ).push(entry@),
{
    let ghost pre = ssh_view(cfgs@);
    match ssh_index_of(cfgs, &entry.id) {
        Some(i) => {
            cfgs.remove(i);
            cfgs.insert(i, entry);
            proof {
                assert(ssh_view(cfgs@) =~= pre.update(i as int, entry@));
            }
        },
        None => {
            cfgs.push(entry);
            proof {
                assert(ssh_view(cfgs@) =~= pre.push(entry@));
            }
        },
    }
}

/// Deletes every SSH record carrying `id` (at most one, when ids are
/// unique); all other records stay, in order.
pub fn delete_ssh_config(cfgs: &mut Vec<SshConfig>, id: &String)
    ensures
        ssh_view(final(cfgs)@) == ssh_view(old(cfgs)@).filter(
            |c: SshConfigV| c.id != id@,
        ),
{
    let ghost pre = ssh_view(cfgs@);
    let mut kept: Vec<SshConfig> = Vec::new();
    let mut i: usize = 0;
    while i < cfgs.len()
        invariant
            i <= cfgs@.len(),
            pre == ssh_view(cfgs@),
            ssh_view(kept@) == pre.subrange(0, i as int).filter(|c: SshConfigV| c.id != id@),
        decreases cfgs@.len() - i,
    {
        let ghost prefix = pre.subrange(0, i as int);
        if !cfgs[i].id.eq(id) {
            let copy = cfgs[i].duplicate();
            kept.push(copy);
        }
        i = i + 1;
        proof {
            reveal(Seq::filter);
            let keep = |c: SshConfigV| c.id != id@;
            let s = pre.subrange(0, i as int);
            assert(s.drop_last() =~= prefix);
            assert(s.last() == pre[i - 1]);
            assert(s.len() == i);
            assert(s.filter(keep) == if keep(pre[i - 1]) {
                prefix.filter(keep).push(pre[i - 1])
            } else {
                prefix.filter(keep)
            });
            assert(ssh_view(kept@) =~= s.filter(keep));
        }
    }
    proof {
        reveal(Seq::filter);
        assert(pre.subrange(0, pre.len() as int) =~= pre);
    }
    *cfgs = kept;
}

/// Sets the desired-state flag of the record carrying `id` and hands
/// back the updated record for the caller to act on; fails, changing
/// nothing, exactly when no record carries `id`.
pub fn set_ssh_connection(cfgs: &mut Vec<SshConfig>, id: &String, enable: bool) -> (r: Result<
    SshConfig,
    ConfigError,
>)
    ensures
        r is Ok <==> ssh_has_id(ssh_view(old(cfgs)@), id@),
        r matches Ok(c) ==> exists|i: int|
            ssh_first_at(ssh_view(old(cfgs)@), id@, i) && c@ == ssh_with_enabled(
                ssh_view(old(cfgs)@)[i],
                enable,
            ) && ssh_view(final(cfgs)@) == ssh_view(old(cfgs)@).update(i, c@),
        r is Err ==> final(cfgs)@ == old(cfgs)@ && r == Err::<SshConfig, ConfigError>(
            ConfigError::NotFound,
        ),
{
    let ghost pre = ssh_view(cfgs@);
    match ssh_index_of(cfgs, id) {
        None => Err(ConfigError::NotFound),
        Some(i) => {
            let mut updated = cfgs[i].duplicate();
            updated.enabled = enable;
            let result = updated.duplicate();
            cfgs.remove(i);
            cfgs.insert(i, updated);
            proof {
                assert(ssh_view(cfgs@) =~= pre.update(i as int, result@));
            }
            Ok(result)
        },
    }
}

/// The first position of a tunnel-daemon record carrying `id`, if
/// any.
fn cloudflare_index_of(cfgs: &Vec<CloudflareConfig>, id: &String) -> (r: Option<usize>)
    ensures
        match r {
            Some(i) => cloudflare_first_at(cloudflare_view(cfgs@), id@, i as int),
            None => !cloudflare_has_id(cloudflare_view(cfgs@), id@),
        },
{
    let mut i: usize = 0;
    while i < cfgs.len()
        invariant
            i <= cfgs@.len(),
            forall|k: int| 0 <= k < i ==> cloudflare_view(cfgs@)[k].id != id@,
        decreases cfgs@.len() - i,
    {
        if cfgs[i].id.eq(id) {
            return Some(i);
        }
        i = i + 1;
    }
    None
}

/// Upserts `entry` into the tunnel-daemon records: the first record
/// with the same id is replaced, and if there is none the entry is
/// appended.
pub fn save_cloudflare_config(cfgs: &mut Vec<CloudflareConfig>, entry: CloudflareConfig)
    ensures
        cloudflare_has_id(cloudflare_view(old(cfgs)@), entry@.id) ==> exists|i: int|
            cloudflare_first_at(cloudflare_view(old(cfgs)@), entry@.id, i) && cloudflare_view(
                final(cfgs)@,
            ) == cloudflare_view(old(cfgs)@).update(i, entry@),
        !cloudflare_has_id(cloudflare_view(old(cfgs)@), entry@.id) ==> cloudflare_view(
            final(cfgs)@,
        ) == cloudflare_view(old(cfgs)@).push(entry@),
{
    let ghost pre = cloudflare_view(cfgs@);
    match cloudflare_index_of(cfgs, &entry.id) {
        Some(i) => {
            cfgs.remove(i);
            cfgs.insert(i, entry);
            proof {
                assert(cloudflare_view(cfgs@) =~= pre.update(i as int, entry@));
            }
        },
        None => {
            cfgs.push(entry);
            proof {
                assert(cloudflare_view(cfgs@) =~= pre.push(entry@));
            }
        },
    }
}

/// Deletes every tunnel-daemon record carrying `id`; all other
/// records stay, in order.
pub fn delete_cloudflare_config(cfgs: &mut Vec<CloudflareConfig>, id: &String)
    ensures
        cloudflare_view(final(cfgs)@) == cloudflare_view(old(cfgs)@).filter(
            |c: CloudflareConfigV| c.id != id@,
        ),
{
    let ghost pre = cloudflare_view(cfgs@);
    let mut kept: Vec<CloudflareConfig> = Vec::new();
    let mut i: usize = 0;
    while i < cfgs.len()
        invariant
            i <= cfgs@.len(),
            pre == cloudflare_view(cfgs@),
            cloudflare_view(kept@) == pre.subrange(0, i as int).filter(
                |c: CloudflareConfigV| c.id != id@,
            ),
        decreases cfgs@.len() - i,
    {
        let ghost prefix = pre.subrange(0, i as int);
        if !cfgs[i].id.eq(id) {
            let copy = cfgs[i].duplicate();
            kept.push(copy);
        }
        i = i + 1;
        proof {
            reveal(Seq::filter);
            let keep = |c: CloudflareConfigV| c.id != id@;
            let s = pre.subrange(0, i as int);
            assert(s.drop_last() =~= prefix);
            assert(s.last() == pre[i - 1]);
            assert(s.len() == i);
            assert(s.filter(keep) == if keep(pre[i - 1]) {
                prefix.filter(keep).push(pre[i - 1])
            } else {
                prefix.filter(keep)
            });
            assert(cloudflare_view(kept@) =~= s.filter(keep));
        }
    }
    proof {
        reveal(Seq::filter);
        assert(pre.subrange(0, pre.len() as int) =~= pre);
    }
    *cfgs = kept;
}

/// Sets the desired-state flag of the record carrying `id` and hands
/// back the updated record for the caller to act on; fails, changing
/// nothing, exactly when no record carries `id`.
pub fn set_cloudflare_connection(cfgs: &mut Vec<CloudflareConfig>, id: &String, enable: bool) -> (r:
    Result<CloudflareConfig, ConfigError>)
    ensures
        r is Ok <==> cloudflare_has_id(cloudflare_view(old(cfgs)@), id@),
        r matches Ok(c) ==> exists|i: int|
            cloudflare_first_at(cloudflare_view(old(cfgs)@), id@, i) && c@
                == cloudflare_with_enabled(cloudflare_view(old(cfgs)@)[i], enable)
                && cloudflare_view(final(cfgs)@) == cloudflare_view(old(cfgs)@).update(i, c@),
        r is Err ==> final(cfgs)@ == old(cfgs)@ && r == Err::<CloudflareConfig, ConfigError>(
            ConfigError::NotFound,
        ),
{
    let ghost pre = cloudflare_view(cfgs@);
    match cloudflare_index_of(cfgs, id) {
        None => Err(ConfigError::NotFound),
        Some(i) => {
            let mut updated = cfgs[i].duplicate();
            updated.enabled = enable;
            let result = updated.duplicate();
            cfgs.remove(i);
            cfgs.insert(i, updated);
            proof {
                assert(cloudflare_view(cfgs@) =~= pre.update(i as int, result@));
            }
            Ok(result)
        },
    }
}

} // verus!
