//! The status file: where it lies, and what is written to it.

use vstd::prelude::*;
use vstd::string::*;

use crate::service::services_view;
use crate::service::Service;
use crate::service::ServiceState;
use crate::service::ServiceView;
use crate::service::StopReason;
use crate::text::decimal;
use crate::text::push_decimal;
use crate::text::push_signed;
use crate::text::signed_decimal;

verus! {

/// Holds the paths used to maintain the status file.
///
/// The status file is written atomically by first writing to a temporary
/// file and then renaming it over the final path. Both paths are
/// precomputed to avoid repeated allocations.
#[derive(Debug, PartialEq, Eq)]
pub struct StatusFilePath {
    /// The status file path
    path: String,
    /// The temporary file path
    tmp_path: String,
}

impl StatusFilePath {
    /// The path of the status file.
    pub closed spec fn target(&self) -> Seq<char> {
        self.path@
    }

    /// The path of the file that is written first.
    pub closed spec fn temporary(&self) -> Seq<char> {
        self.tmp_path@
    }

    /// The temporary file lies beside the status file and has its name with
    /// `.tmp` after it.
    #[inline(always)]
    pub fn new(path: String) -> (paths: Self)
        ensures
            paths.target() == path@,
            paths.temporary() == path@ + seq!['.', 't', 'm', 'p'],
    {
        proof {
            reveal_strlit(".tmp");
        }
        let mut tmp_path = path.clone();
        tmp_path.append(".tmp");
        assert(tmp_path@ =~= path@ + seq!['.', 't', 'm', 'p']);
        Self { tmp_path, path }
    }

    /// The paths of the status file of a run directory: the file `status`
    /// in it.
    pub fn in_run_dir(run_dir: &str) -> (paths: Self)
        ensures
            paths.target() == run_dir@ + "/status"@,
            paths.temporary() == run_dir@ + "/status"@ + seq!['.', 't', 'm', 'p'],
    {
        let mut path = String::from_str(run_dir);
        path.append("/status");
        Self::new(path)
    }

    #[inline(always)]
    pub fn path(&self) -> (path: &str)
        ensures
            path@ == self.target(),
    {
        self.path.as_str()
    }

    #[inline(always)]
    pub fn tmp_path(&self) -> (path: &str)
        ensures
            path@ == self.temporary(),
    {
        self.tmp_path.as_str()
    }
}

impl Clone for StatusFilePath {
    fn clone(&self) -> (copy: Self)
        ensures
            copy.target() == self.target(),
            copy.temporary() == self.temporary(),
    {
        StatusFilePath { path: self.path.clone(), tmp_path: self.tmp_path.clone() }
    }
}

/// The text that stands for a stop reason.
pub open spec fn reason_text(reason: StopReason) -> Seq<char> {
    match reason {
        StopReason::NeverStarted => "never-started"@,
        StopReason::SupervisorTerminated => "supervisor-terminated"@,
        StopReason::ExitedSuccess => "exited-success"@,
        StopReason::ExitedError(code) => "exited-error:"@ + signed_decimal(code as int),
        StopReason::Crashed(signo) => "crashed:"@ + signed_decimal(signo as int),
        StopReason::Killed(signo) => "killed:"@ + signed_decimal(signo as int),
    }
}

/// The text that stands for the process of a service: its id, or a dash
/// where there is none.
pub open spec fn pid_text(pid: Option<i32>) -> Seq<char> {
    match pid {
        Some(p) => signed_decimal(p as int),
        None => "-"@,
    }
}

/// The text that stands for the state of a service: the tag, and with it
/// the reason of a stopped service, the process of a running one, the
/// process and the deadline of a stopping one.
pub open spec fn state_text(svc: ServiceView) -> Seq<char> {
    match svc.state {
        ServiceState::Stopped(reason) => "stopped reason="@ + reason_text(reason),
        ServiceState::Running => "running pid="@ + pid_text(svc.pid),
        ServiceState::Stopping(deadline) => "stopping pid="@ + pid_text(svc.pid) + " deadline="@
            + decimal(deadline as nat),
    }
}

/// The line of the status file that stands for one service.
pub open spec fn status_line(svc: ServiceView) -> Seq<char> {
    "id="@ + decimal(svc.id as nat) + " state="@ + state_text(svc) + " name="@ + svc.name + "\n"@
}

/// The content of the status file for these services: their lines, one
/// after the other.
pub open spec fn status_text(records: Seq<ServiceView>) -> Seq<char>
    decreases records.len(),
{
    if records.len() == 0 {
        Seq::empty()
    } else {
        status_text(records.drop_last()) + status_line(records.last())
    }
}

fn push_reason(out: &mut String, reason: StopReason)
    ensures
        final(out)@ == old(out)@ + reason_text(reason),
{
    match reason {
        StopReason::NeverStarted => {
            out.append("never-started");
        },
        StopReason::SupervisorTerminated => {
            out.append("supervisor-terminated");
        },
        StopReason::ExitedSuccess => {
            out.append("exited-success");
        },
        StopReason::ExitedError(code) => {
            out.append("exited-error:");
            push_signed(out, code);
        },
        StopReason::Crashed(signo) => {
            out.append("crashed:");
            push_signed(out, signo);
        },
        StopReason::Killed(signo) => {
            out.append("killed:");
            push_signed(out, signo);
        },
    }
    assert(out@ =~= old(out)@ + reason_text(reason));
}

fn push_pid(out: &mut String, pid: Option<i32>)
    ensures
        final(out)@ == old(out)@ + pid_text(pid),
{
    match pid {
        Some(p) => {
            push_signed(out, p);
        },
        None => {
            out.append("-");
        },
    }
}

fn push_state(out: &mut String, svc: &Service)
    ensures
        final(out)@ == old(out)@ + state_text(svc@),
{
    match svc.state {
        ServiceState::Stopped(reason) => {
            out.append("stopped reason=");
            push_reason(out, reason);
        },
        ServiceState::Running => {
            out.append("running pid=");
            push_pid(out, svc.pid);
        },
        ServiceState::Stopping(deadline) => {
            out.append("stopping pid=");
            push_pid(out, svc.pid);
            out.append(" deadline=");
            push_decimal(out, deadline);
        },
    }
    assert(out@ =~= old(out)@ + state_text(svc@));
}

/// Appends the line that stands for `svc` to `out`.
pub fn push_status_line(out: &mut String, svc: &Service)
    ensures
        final(out)@ == old(out)@ + status_line(svc@),
{
    out.append("id=");
    push_decimal(out, svc.id);
    out.append(" state=");
    push_state(out, svc);
    out.append(" name=");
    out.append(svc.name.as_str());
    out.append("\n");
    assert(out@ =~= old(out)@ + status_line(svc@));
}

/// The content of the status file for these services: one line for each,
/// with its id, its state and what belongs to the state, and its name.
pub fn render_status(records: &Vec<Service>) -> (text: String)
    ensures
        text@ == status_text(services_view(records@)),
{
    let ghost views = services_view(records@);
    let mut text = String::new();
    let mut i: usize = 0;
    assert(views.subrange(0, 0) =~= Seq::<ServiceView>::empty());
    while i < records.len()
        invariant
            i <= records.len(),
            views == services_view(records@),
            text@ == status_text(views.subrange(0, i as int)),
        decreases records.len() - i,
    {
        push_status_line(&mut text, &records[i]);
        proof {
            let next = views.subrange(0, i + 1);
            assert(next.drop_last() =~= views.subrange(0, i as int));
            assert(next.last() == records[i as int]@);
        }
        i = i + 1;
    }
    assert(views.subrange(0, views.len() as int) =~= views);
    text
}

} // verus!
