//! Building the exact argument list of the tunnel process.
//!
//! The ssh invocation is non-interactive throughout: batch mode fails
//! instead of prompting, standard input is closed by the caller, and
//! keep-alive probing detects dead peers.  Host keys are trusted on
//! first use but rejected when they change.  The remote port is
//! forwarded to the local loopback port; an identity file is passed
//! only when one is configured.

use vstd::prelude::*;
use crate::text::{dec_seq, dec_u16};
use crate::types::{CloudflareConfig, CloudflareConfigV, SshConfig, SshConfigV};
use vstd::string::StrSliceExecFns;

verus! {

/// The reverse-forwarding argument: the remote port, bound back to
/// the local loopback port.
pub open spec fn forward_arg(c: SshConfigV) -> Seq<char> {
    dec_seq(c.remote_port as nat) + ":127.0.0.1:"@ + dec_seq(c.local_port as nat)
}

/// The destination argument: `user@host`.
pub open spec fn destination_arg(c: SshConfigV) -> Seq<char> {
    c.username + "@"@ + c.host
}

/// The identity-file arguments: present exactly when a non-empty key
/// file is configured.
pub open spec fn key_args(c: SshConfigV) -> Seq<Seq<char>> {
    match c.key_file {
        Some(k) => if k.len() > 0 {
            seq!["-i"@, k]
        } else {
            seq![]
        },
        None => seq![],
    }
}

/// The full ssh argument list built from one configuration.
pub open spec fn spec_ssh_args(c: SshConfigV) -> Seq<Seq<char>> {
    seq![
        "-N"@,
        "-v"@,
        "-o"@,
        "BatchMode=yes"@,
        "-o"@,
        "ServerAliveInterval=15"@,
        "-o"@,
        "ServerAliveCountMax=3"@,
        "-o"@,
        "ExitOnForwardFailure=yes"@,
        "-o"@,
        "StrictHostKeyChecking=accept-new"@,
        "-o"@,
        "UserKnownHostsFile=/dev/null"@,
        "-R"@,
        forward_arg(c),
    ] + key_args(c) + seq!["-p"@, dec_seq(c.port as nat), destination_arg(c)]
}

/// The tunnel-daemon argument list: the opaque token alone.
pub open spec fn spec_cloudflare_args(c: CloudflareConfigV) -> Seq<Seq<char>> {
    seq![c.tunnel_token]
}

/// Builds the ssh argument list for `c`.
pub fn build_ssh_args(c: &SshConfig) -> (args: Vec<String>)
    ensures
        args.deep_view() == spec_ssh_args(c@),
{
    let mut args: Vec<String> = Vec::new();
    args.push("-N".to_owned());
    args.push("-v".to_owned());
    args.push("-o".to_owned());
    args.push("BatchMode=yes".to_owned());
    args.push("-o".to_owned());
    args.push("ServerAliveInterval=15".to_owned());
    args.push("-o".to_owned());
    args.push("ServerAliveCountMax=3".to_owned());
    args.push("-o".to_owned());
    args.push("ExitOnForwardFailure=yes".to_owned());
    args.push("-o".to_owned());
    args.push("StrictHostKeyChecking=accept-new".to_owned());
    args.push("-o".to_owned());
    args.push("UserKnownHostsFile=/dev/null".to_owned());
    args.push("-R".to_owned());

    let mut forward = dec_u16(c.remote_port);
    forward.push_str(":127.0.0.1:");
    let local = dec_u16(c.local_port);
    forward.push_str(local.as_str());
    args.push(forward);

    match &c.key_file {
        Some(k) => {
            if k.as_str().unicode_len() > 0 {
                args.push("-i".to_owned());
                args.push(k.clone());
            }
        },
        None => {},
    }

    args.push("-p".to_owned());
    args.push(dec_u16(c.port));

    let mut dest = c.username.clone();
    dest.push_str("@");
    dest.push_str(c.host.as_str());
    args.push(dest);

    proof {
        assert(args.deep_view() =~~= spec_ssh_args(c@));
    }
    args
}

/// Builds the tunnel-daemon argument list for `c`.
pub fn build_cloudflare_args(c: &CloudflareConfig) -> (args: Vec<String>)
    ensures
        args.deep_view() == spec_cloudflare_args(c@),
{
    let mut args: Vec<String> = Vec::new();
    args.push(c.tunnel_token.clone());
    proof {
        assert(args.deep_view() =~~= spec_cloudflare_args(c@));
    }
    args
}

} // verus!
