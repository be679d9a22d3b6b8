//! The start-up privilege check: none of the binaries may run as root,
//! so a misconfigured install fails loudly instead of writing into system
//! directories.

use vstd::prelude::*;

verus! {

/// Relies on nix's `Uid::current`: the real user id of this process.
#[verifier::external_body]
fn current_uid() -> u32 {
    nix::unistd::Uid::current().as_raw()
}

/// Rejects exactly the root user id, naming the process in the message.
pub fn ensure_not_root_for(uid: u32, process: &str) -> (r: Result<(), String>)
    ensures
        r is Ok <==> uid != 0,
        r matches Err(m) ==> m@ == process@
            + " must not be run as root; use a regular user or a dedicated service account"@,
{
    if uid == 0 {
        let mut m = String::from_str(process);
        m.append(" must not be run as root; use a regular user or a dedicated service account");
        Err(m)
    } else {
        Ok(())
    }
}

/// Fails fast when the process runs as root. Which branch is taken
/// depends on the ambient user id; the message is fixed either way.
pub fn ensure_not_root(process: &str) -> (r: Result<(), String>)
    ensures
        r matches Err(m) ==> m@ == process@
            + " must not be run as root; use a regular user or a dedicated service account"@,
{
    ensure_not_root_for(current_uid(), process)
}

} // verus!
