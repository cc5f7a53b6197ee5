//! Logging in to machines.

use vstd::prelude::*;
use vstd::string::*;

use crate::command::{given, Invocation, InvocationView};
use crate::iptables::with_texts;
use crate::text::texts;
use crate::vm::{load_running_with_network, reachable, VmMetadata};

verus! {

/// Where to log in, and what to run there.
#[derive(Debug)]
pub struct SshArgs {
    pub name: String,
    pub command: Vec<String>,
}

/// The call that logs in to a machine on its network, as the user and with the key
/// that its record names. The keys of machines come and go with them, so they are
/// neither checked nor kept.
pub open spec fn login(m: VmMetadata, command: Seq<Seq<char>>) -> InvocationView {
    InvocationView {
        program: "ssh"@,
        args: seq![
            "-o"@,
            "StrictHostKeyChecking=no"@,
            "-o"@,
            "UserKnownHostsFile=/dev/null"@,
            "-o"@,
            "LogLevel=ERROR"@,
            "-i"@,
            m.ssh.key@,
            m.ssh.user@ + "@"@ + m.network->0.guest_ip@,
        ] + command,
        label: "ssh"@,
        start_label: "ssh"@,
    }
}

/// The call that logs in to a machine, or why it cannot be reached.
pub fn run(args: &SshArgs, m: &VmMetadata) -> (r: Result<Invocation, String>)
    ensures
        match r {
            Ok(call) => reachable(args.name@, *m) is Ok && call@ == login(*m, texts(args.command@)),
            Err(e) => reachable(args.name@, *m) == Err::<(), Seq<char>>(e@),
        },
{
    let network = load_running_with_network(args.name.as_str(), m)?;
    let target = m.ssh.user.clone().concat("@").concat(network.guest_ip.as_str());
    let call = Invocation::new("ssh", "ssh").arg("-o").arg("StrictHostKeyChecking=no").arg(
        "-o",
    ).arg("UserKnownHostsFile=/dev/null").arg("-o").arg("LogLevel=ERROR").arg("-i").arg(
        m.ssh.key.as_str(),
    ).arg(target.as_str());
    let Invocation { program, args: head, label, start_label } = call;
    Ok(Invocation { program, args: with_texts(head, &args.command), label, start_label })
}

/// What the program ends with, where it does not end well: the code of the call, or 1
/// for a call that was ended from outside.
pub fn exit_code(code: Option<i32>) -> (r: Option<i32>)
    ensures
        r == (match code {
            Some(n) => if n == 0 {
                None
            } else {
                Some(n)
            },
            None => Some(1i32),
        }),
{
    match code {
        Some(n) => if n == 0 {
            None
        } else {
            Some(n)
        },
        None => Some(1),
    }
}

/// The error for a call that could not be made.
pub fn ssh_error(why: &str) -> (r: String)
    ensures
        r@ == "failed to execute ssh: "@ + why@
            + "\nHint: is the 'ssh' client installed and in PATH?"@,
{
    "failed to execute ssh: ".to_owned().concat(why).concat(
        "\nHint: is the 'ssh' client installed and in PATH?",
    )
}

/// Whoever logs in to a machine does so with the key and as the user that its record
/// names, at the address that it has, and runs there what was asked for. Whose machine
/// answers is not checked, and is not kept.
pub proof fn law_logging_in(m: VmMetadata, command: Seq<Seq<char>>)
    ensures
        ({
            let c = login(m, command);
            let n = c.args.len() - command.len();
            &&& c.program == "ssh"@
            &&& n > 0 && c.args.skip(n) == command
            &&& c.args[n - 1] == m.ssh.user@ + "@"@ + m.network->0.guest_ip@
            &&& given(c.args.take(n), "-i"@, m.ssh.key@)
            &&& given(c.args.take(n), "-o"@, "StrictHostKeyChecking=no"@)
            &&& given(c.args.take(n), "-o"@, "UserKnownHostsFile=/dev/null"@)
        }),
{
    let c = login(m, command);
    let n = c.args.len() - command.len();
    let a = c.args.take(n);
    assert(n == 9);
    assert(a[0] == "-o"@ && a[1] == "StrictHostKeyChecking=no"@);
    assert(a[2] == "-o"@ && a[3] == "UserKnownHostsFile=/dev/null"@);
    assert(a[6] == "-i"@ && a[7] == m.ssh.key@);
    assert(c.args.skip(n) =~= command);
}

} // verus!
