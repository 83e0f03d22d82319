//! How the daemon is registered as a system service.

use vstd::prelude::*;

verus! {

/// The systemd unit that runs the program at `exe`.
pub open spec fn unit_text(exe: Seq<char>) -> Seq<char> {
    "[Unit]\nDescription=DaemonAppd USB/CAN service\nAfter=network.target\n\n[Service]\nExecStart="@
        + exe
        + " run\nRestart=on-failure\nUser=root\n\n[Install]\nWantedBy=multi-user.target\n"@
}

/// The systemd unit that runs the program at `exe` in the foreground and restarts it when it
/// fails.
pub fn unit_file(exe: &str) -> (s: String)
    ensures
        s@ == unit_text(exe@),
{
    let mut s =
        "[Unit]\nDescription=DaemonAppd USB/CAN service\nAfter=network.target\n\n[Service]\nExecStart=".to_owned();
    s.append(exe);
    s.append(" run\nRestart=on-failure\nUser=root\n\n[Install]\nWantedBy=multi-user.target\n");
    s
}

/// The command line, quoted for the Windows service manager, that runs the program at `exe`
/// in the foreground.
pub fn bin_path(exe: &str) -> (s: String)
    ensures
        s@ == "\""@ + exe@ + "\" run"@,
{
    let mut s = "\"".to_owned();
    s.append(exe);
    s.append("\" run");
    s
}

/// The unit runs the program that it is made for, and is otherwise the same for every program.
pub proof fn law_unit_runs_program(exe: Seq<char>, other: Seq<char>)
    ensures
        exists|before: Seq<char>, after: Seq<char>|
            unit_text(exe) == #[trigger] (before + exe + after) && unit_text(other) == before + other
                + after && "ExecStart="@.is_suffix_of(before) && " run\n"@.is_prefix_of(after),
{
    reveal_strlit("ExecStart=");
    reveal_strlit(" run\n");
    let before =
        "[Unit]\nDescription=DaemonAppd USB/CAN service\nAfter=network.target\n\n[Service]\nExecStart="@;
    let after = " run\nRestart=on-failure\nUser=root\n\n[Install]\nWantedBy=multi-user.target\n"@;
    reveal_strlit(
        "[Unit]\nDescription=DaemonAppd USB/CAN service\nAfter=network.target\n\n[Service]\nExecStart=",
    );
    reveal_strlit(
        " run\nRestart=on-failure\nUser=root\n\n[Install]\nWantedBy=multi-user.target\n",
    );
    assert(unit_text(exe) == before + exe + after);
}

} // verus!
