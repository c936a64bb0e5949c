//! What runs in the foreground of a pane.

use crate::text::Text;
use vstd::prelude::*;

verus! {

/// A process of a pane's foreground process group.
#[derive(Debug, PartialEq, Eq)]
pub struct ForegroundProcess {
    pub pid: u64,
    /// The process's arguments; empty where they are not known.
    pub argv: Vec<String>,
}

/// What herdr reports on the processes of a pane.
#[derive(Debug, PartialEq, Eq)]
pub struct ProcessInfo {
    pub shell_pid: u64,
    pub foreground_process_group_id: u64,
    pub foreground_processes: Vec<ForegroundProcess>,
}

/// What a pane has in the foreground.
#[derive(Debug, PartialEq, Eq)]
pub enum Foreground {
    /// The pane's own shell, or `pen` itself: nothing to run again.
    Idle,
    /// A program, with its arguments.
    Command(Vec<String>),
    /// A program of which the arguments are not known.
    Unknown,
}

/// The model of a `ForegroundProcess`.
pub struct ProcessView {
    pub pid: u64,
    pub argv: Seq<Text>,
}

/// The model of a `ProcessInfo`.
pub struct ProcessInfoView {
    pub shell_pid: u64,
    pub foreground_process_group_id: u64,
    pub foreground_processes: Seq<ProcessView>,
}

/// The model of a `Foreground`.
pub enum ForegroundView {
    Idle,
    Command(Seq<Text>),
    Unknown,
}

impl DeepView for ForegroundProcess {
    type V = ProcessView;

    open spec fn deep_view(&self) -> ProcessView {
        ProcessView { pid: self.pid, argv: self.argv.deep_view() }
    }
}

impl DeepView for ProcessInfo {
    type V = ProcessInfoView;

    open spec fn deep_view(&self) -> ProcessInfoView {
        ProcessInfoView {
            shell_pid: self.shell_pid,
            foreground_process_group_id: self.foreground_process_group_id,
            foreground_processes: self.foreground_processes.deep_view(),
        }
    }
}

impl DeepView for Foreground {
    type V = ForegroundView;

    open spec fn deep_view(&self) -> ForegroundView {
        match *self {
            Foreground::Idle => ForegroundView::Idle,
            Foreground::Command(argv) => ForegroundView::Command(argv.deep_view()),
            Foreground::Unknown => ForegroundView::Unknown,
        }
    }
}

/// The arguments of the first process with the given id; none where no such
/// process is listed.
pub open spec fn argv_of(processes: Seq<ProcessView>, pid: u64) -> Seq<Text>
    decreases processes.len(),
{
    if processes.len() == 0 {
        Seq::empty()
    } else if processes[0].pid == pid {
        processes[0].argv
    } else {
        argv_of(processes.drop_first(), pid)
    }
}

impl ProcessInfoView {
    /// What the pane has in the foreground, seen by the process `self_pid`. Only the
    /// leader of the foreground process group counts.
    pub open spec fn foreground(self, self_pid: u64) -> ForegroundView {
        let leader = self.foreground_process_group_id;
        let argv = argv_of(self.foreground_processes, leader);
        if leader == self.shell_pid || leader == self_pid {
            ForegroundView::Idle
        } else if argv.len() == 0 {
            ForegroundView::Unknown
        } else {
            ForegroundView::Command(argv)
        }
    }
}

impl ForegroundView {
    /// The command to save of the pane.
    pub open spec fn command(self) -> Option<Seq<Text>> {
        match self {
            ForegroundView::Command(argv) => Some(argv),
            _ => None,
        }
    }
}

/// The arguments of a process, as far as they were reported.
pub open spec fn known_arguments(reported: Option<Seq<Text>>) -> Seq<Text> {
    match reported {
        Some(argv) => argv,
        None => Seq::empty(),
    }
}

impl ForegroundProcess {
    /// A process as herdr reports it. Arguments that are not known are reported as
    /// missing, and count as none.
    pub fn reported(pid: u64, argv: Option<Vec<String>>) -> (result: ForegroundProcess)
        ensures
            result.deep_view() == (ProcessView { pid, argv: known_arguments(argv.deep_view()) }),
    {
        let argv = match argv {
            Some(argv) => argv,
            None => Vec::new(),
        };
        let result = ForegroundProcess { pid, argv };
        assert(result.argv@.len() == 0 ==> result.deep_view().argv =~= Seq::<Text>::empty());
        result
    }
}

/// A copy of a list of texts.
pub fn copy_texts(texts: &Vec<String>) -> (result: Vec<String>)
    ensures
        result.deep_view() == texts.deep_view(),
{
    let mut result: Vec<String> = Vec::new();
    for i in 0..texts.len()
        invariant
            result.deep_view() == texts.deep_view().take(i as int),
    {
        let ghost copied = result.deep_view();
        result.push(texts[i].clone());
        assert(result.deep_view() =~= copied.push(texts@[i as int]@));
        assert(result.deep_view() =~= texts.deep_view().take(i + 1));
    }
    assert(texts.deep_view().take(texts@.len() as int) =~= texts.deep_view());
    result
}

/// What a pane has in the foreground, seen by the process `self_pid`. Only the
/// leader of the foreground process group counts.
pub fn foreground(info: &ProcessInfo, self_pid: u64) -> (result: Foreground)
    ensures
        result.deep_view() == info.deep_view().foreground(self_pid),
{
    let leader: u64 = info.foreground_process_group_id;
    if leader == info.shell_pid || leader == self_pid {
        return Foreground::Idle;
    }
    let processes = &info.foreground_processes;
    let ghost all = processes.deep_view();
    let mut i: usize = 0;
    assert(all.skip(0) =~= all);
    while i < processes.len() && processes[i].pid != leader
        invariant
            all == processes.deep_view(),
            i <= processes@.len(),
            argv_of(all, leader) == argv_of(all.skip(i as int), leader),
        decreases processes@.len() - i,
    {
        assert(all.skip(i as int).drop_first() =~= all.skip(i + 1));
        i = i + 1;
    }
    if i < processes.len() && processes[i].argv.len() > 0 {
        Foreground::Command(copy_texts(&processes[i].argv))
    } else {
        Foreground::Unknown
    }
}

/// The command to save of a pane: the arguments of the leader of its foreground
/// process group. None is saved of the pane's shell, of `pen` itself (the process
/// `self_pid`), or where the leader's arguments are not known.
pub fn command_from_process_info(info: &ProcessInfo, self_pid: u64) -> (result: Option<Vec<String>>)
    ensures
        result.deep_view() == info.deep_view().foreground(self_pid).command(),
{
    match foreground(info, self_pid) {
        Foreground::Command(argv) => Some(argv),
        _ => None,
    }
}

/// A command that is saved is that of the leader of the foreground process group,
/// which is neither the shell nor `pen`; it is never empty.
pub proof fn saved_command_is_the_leaders(info: ProcessInfoView, self_pid: u64)
    requires
        info.foreground(self_pid).command() is Some,
    ensures
        info.foreground_process_group_id != info.shell_pid,
        info.foreground_process_group_id != self_pid,
        info.foreground(self_pid).command()->0.len() > 0,
        exists|i: int|
            0 <= i < info.foreground_processes.len() && (#[trigger] info.foreground_processes[i]).pid
                == info.foreground_process_group_id && info.foreground_processes[i].argv
                == info.foreground(self_pid).command()->0,
{
    argv_is_listed(info.foreground_processes, info.foreground_process_group_id);
}

proof fn argv_is_listed(processes: Seq<ProcessView>, pid: u64)
    requires
        argv_of(processes, pid).len() > 0,
    ensures
        exists|i: int|
            0 <= i < processes.len() && (#[trigger] processes[i]).pid == pid && processes[i].argv
                == argv_of(processes, pid),
    decreases processes.len(),
{
    if processes[0].pid != pid {
        let rest = processes.drop_first();
        argv_is_listed(rest, pid);
        let i = choose|i: int|
            0 <= i < rest.len() && (#[trigger] rest[i]).pid == pid && rest[i].argv == argv_of(
                rest,
                pid,
            );
        assert(processes[i + 1] == rest[i]);
    }
}

/// What a pane has in the foreground goes by the first of the listed processes that
/// leads the foreground group, at place `i`, where there is one: a pane whose shell or
/// whose `pen` leads the group is idle; any other pane runs the leader's arguments, all
/// of them, and it is unknown what it runs where these are missing.
pub proof fn leader_decides(info: ProcessInfoView, self_pid: u64, i: int)
    requires
        0 <= i <= info.foreground_processes.len(),
        i < info.foreground_processes.len() ==> info.foreground_processes[i].pid
            == info.foreground_process_group_id,
        forall|j: int|
            0 <= j < i ==> (#[trigger] info.foreground_processes[j]).pid
                != info.foreground_process_group_id,
    ensures
        ({
            let leader = info.foreground_process_group_id;
            let listed = i < info.foreground_processes.len();
            let idle = leader == info.shell_pid || leader == self_pid;
            let known = listed && info.foreground_processes[i].argv.len() > 0;
            &&& info.foreground(self_pid) is Idle <==> idle
            &&& info.foreground(self_pid) is Unknown <==> !idle && !known
            &&& info.foreground(self_pid).command() == (if !idle && known {
                Some(info.foreground_processes[i].argv)
            } else {
                None
            })
        }),
{
    first_listed_counts(info.foreground_processes, info.foreground_process_group_id, i);
}

proof fn first_listed_counts(processes: Seq<ProcessView>, pid: u64, i: int)
    requires
        0 <= i <= processes.len(),
        i < processes.len() ==> processes[i].pid == pid,
        forall|j: int| 0 <= j < i ==> (#[trigger] processes[j]).pid != pid,
    ensures
        i < processes.len() ==> argv_of(processes, pid) == processes[i].argv,
        i == processes.len() ==> argv_of(processes, pid).len() == 0,
    decreases i,
{
    if i > 0 {
        let rest = processes.drop_first();
        assert(processes[0].pid != pid);
        assert forall|j: int| 0 <= j < i - 1 implies (#[trigger] rest[j]).pid != pid by {
            assert(rest[j] == processes[j + 1]);
        }
        first_listed_counts(rest, pid, i - 1);
    }
}

/// Arguments that are reported are kept, all of them in their order, and none are made
/// up.
pub proof fn reported_arguments_are_kept(reported: Option<Seq<Text>>)
    ensures
        reported matches Some(argv) ==> known_arguments(reported) == argv,
        reported is None ==> known_arguments(reported).len() == 0,
{
}

} // verus!
