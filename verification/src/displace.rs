//! The displace operation as a state machine: the caller performs one
//! blocking filesystem operation at a time and feeds its outcome back
//! in, while every decision — what to do next, what to output, which
//! error to report — is made here.
//!
//! A successful write runs the four-step commit protocol strictly in
//! order: rename the target aside to a uniquely named backup, write
//! the new content at the target path, restore the captured permission
//! bits, remove the backup. On any failure the machine stops and the
//! backup, if one was made, stays on disk as the recovery artifact; no
//! rollback is ever attempted.

use vstd::prelude::*;
use crate::engine::{Engine, engine_replace_spec};
use crate::text::{base_name_index, base_name_start, split_lines, split_lines_spec};
use crate::udiff::{diff_lines, diff_spec, render_patch, render_spec};

verus! {

/// What the caller asked for: a dry-run diff or an in-place write.
#[derive(Clone, Copy, Debug)]
pub enum Action {
    Diff,
    Write,
}

/// The per-run options: the compiled engine, the action kind, and the
/// diff context width.
#[derive(Debug)]
pub struct Options {
    pub engine: Engine,
    pub action: Action,
    pub unified: usize,
}

/// The filesystem operation a failure arose from.
#[derive(Clone, Copy, Debug, PartialEq, Eq)]
pub enum FsOp {
    Read,
    Rename,
    WriteFile,
    SetPermissions,
    Remove,
}

/// Why a displace run stopped early.
#[derive(Clone, Debug, PartialEq, Eq)]
pub enum Failure {
    /// The path does not exist or cannot be canonicalized or statted.
    PathResolution { path: String },
    /// The resolved entry is not a regular file.
    NotAFile { path: String },
    /// The file's bytes are not valid text.
    Decode { path: String },
    /// The canonical path has no file-name component, so no backup
    /// name can be formed.
    BadFileName { path: String },
    /// Any other filesystem failure, annotated with the operation and
    /// the path it was applied to.
    Io { op: FsOp, path: String },
}

/// A blocking filesystem operation the caller must perform next.
#[derive(Clone, Debug, PartialEq, Eq)]
pub enum FsAction {
    Canonicalize { path: String },
    Stat { path: String },
    Read { path: String },
    Rename { from: String, to: String },
    WriteFile { path: String, text: String },
    SetPermissions { path: String, mode: u32 },
    Remove { path: String },
}

/// The outcome of the pending filesystem operation, reported back by
/// the caller.
#[derive(Clone, Debug)]
pub enum FsEvent {
    /// Canonicalization succeeded, with the resolved absolute path.
    Canonicalized { canonical: String },
    /// The stat succeeded: whether the entry is a regular file, and
    /// its permission bits.
    Statted { is_regular: bool, mode: u32 },
    /// The read succeeded and the bytes decoded as text.
    ReadDone { text: String },
    /// The read succeeded but the bytes are not valid text.
    NotText,
    /// The pending rename, write, chmod or remove succeeded.
    Succeeded,
    /// The pending operation failed.
    FailedOp,
}

/// Where a displace run stands: which operation is in flight, and
/// everything already learned about the target.
#[derive(Clone, Debug)]
pub enum State {
    AwaitCanonical { display: String },
    AwaitStat { display: String, canonical: String },
    AwaitRead { display: String, canonical: String, mode: u32 },
    AwaitRename { display: String, canonical: String, mode: u32, after: String, backup: String },
    AwaitWrite { display: String, canonical: String, mode: u32, after: String, backup: String },
    AwaitChmod { display: String, canonical: String, mode: u32, backup: String },
    AwaitRemove { display: String, backup: String },
}

/// What the machine decided: another operation, a finished run with
/// its output, or a failure.
#[derive(Clone, Debug)]
pub enum Step {
    Next { action: FsAction, state: State },
    Done { output: String },
    Fail { failure: Failure },
}

/// A lowercase hexadecimal digit.
pub open spec fn is_hex_char(c: char) -> bool {
    ('0' <= c && c <= '9') || ('a' <= c && c <= 'f')
}

/// The shape of a backup path: the canonical path itself, then three
/// underscores, then 32 hex digits of a fresh random identifier.
pub open spec fn is_backup_name(backup: Seq<char>, canonical: Seq<char>) -> bool {
    &&& backup.len() == canonical.len() + 35
    &&& backup.take(canonical.len() as int) == canonical
    &&& backup.subrange(canonical.len() as int, canonical.len() as int + 3) == seq!['_', '_', '_']
    &&& forall|i: int| canonical.len() + 3 <= i < backup.len() ==> is_hex_char(#[trigger] backup[i])
}

/// A backup path is never the canonical path itself: it is strictly
/// longer.
pub proof fn lemma_backup_name_differs(backup: Seq<char>, canonical: Seq<char>)
    requires
        is_backup_name(backup, canonical),
    ensures
        backup != canonical,
        backup.len() > canonical.len(),
{
    if backup == canonical {
        assert(backup.len() == canonical.len());
    }
}

/// Relies on `uuid::Uuid::new_v4` and its `simple` formatting: a
/// fresh random 128-bit identifier rendered as exactly 32 lowercase
/// hexadecimal digits. Nothing is assumed about which digits come
/// back, only their number and alphabet.
#[verifier::external_body]
fn fresh_suffix() -> (s: String)
    ensures
        s@.len() == 32,
        forall|i: int| 0 <= i < 32 ==> is_hex_char(#[trigger] s@[i]),
{
    uuid::Uuid::new_v4().simple().to_string()
}

/// Forms the backup path: the canonical path with `"___"` and a fresh
/// random suffix appended, a sibling in the same directory.
fn backup_path(canonical: &String) -> (r: String)
    ensures
        is_backup_name(r@, canonical@),
{
    let suffix = fresh_suffix();
    let mut r = canonical.clone();
    r.append("___");
    r.append(suffix.as_str());
    proof {
        reveal_strlit("___");
        let cl = canonical@.len() as int;
        assert(r@.take(cl) =~= canonical@);
        assert("___"@.len() == 3);
        assert(r@.subrange(cl, cl + 3) =~= seq!['_', '_', '_']);
        assert forall|i: int| cl + 3 <= i < r@.len() implies is_hex_char(#[trigger] r@[i]) by {
            assert(r@[i] == suffix@[i - cl - 3]);
        }
    }
    r
}

impl State {
    /// The machine's own invariant: once the commit protocol has
    /// begun, the backup path really is a backup name of the
    /// canonical path.
    pub open spec fn wf(self) -> bool {
        match self {
            State::AwaitRename { canonical, backup, .. } => is_backup_name(backup@, canonical@),
            State::AwaitWrite { canonical, backup, .. } => is_backup_name(backup@, canonical@),
            State::AwaitChmod { canonical, backup, .. } => is_backup_name(backup@, canonical@),
            _ => true,
        }
    }

    /// Which outcomes can answer the operation this state awaits.
    pub open spec fn accepts(self, ev: FsEvent) -> bool {
        match self {
            State::AwaitCanonical { .. } => ev is Canonicalized || ev is FailedOp,
            State::AwaitStat { .. } => ev is Statted || ev is FailedOp,
            State::AwaitRead { .. } => ev is ReadDone || ev is NotText || ev is FailedOp,
            _ => ev is Succeeded || ev is FailedOp,
        }
    }
}

/// The decision after a successful read: nothing to do when the
/// transformation changes nothing; otherwise a rendered diff, or the
/// first commit step — renaming the target aside to a fresh backup.
pub open spec fn step_read_rel(
    display: String,
    canonical: String,
    mode: u32,
    text: String,
    opts: Options,
    r: Step,
) -> bool {
    let after = engine_replace_spec(opts.engine, text@);
    if after == text@ {
        r matches Step::Done { output } && output@ == Seq::<char>::empty()
    } else {
        match opts.action {
            Action::Diff => r matches Step::Done { output } && output@ == render_spec(
                diff_spec(split_lines_spec(text@), split_lines_spec(after), opts.unified as int),
                display@,
            ),
            Action::Write => if base_name_start(canonical@) < canonical@.len() {
                &&& r matches Step::Next { action, state: s2 }
                &&& action matches FsAction::Rename { from, to }
                &&& from == canonical
                &&& is_backup_name(to@, canonical@)
                &&& s2 matches State::AwaitRename {
                    display: d2,
                    canonical: c2,
                    mode: m2,
                    after: a2,
                    backup: b2,
                }
                &&& d2 == display
                &&& c2 == canonical
                &&& m2 == mode
                &&& a2@ == after
                &&& b2 == to
            } else {
                r == (Step::Fail { failure: Failure::BadFileName { path: canonical } })
            },
        }
    }
}

/// The whole transition relation of the machine: for every state and
/// every outcome it can receive, exactly which step comes out.
pub open spec fn step_rel(state: State, ev: FsEvent, opts: Options, r: Step) -> bool {
    match state {
        State::AwaitCanonical { display } => match ev {
            FsEvent::Canonicalized { canonical } => r == (Step::Next {
                action: FsAction::Stat { path: canonical },
                state: State::AwaitStat { display, canonical },
            }),
            FsEvent::FailedOp => r == (Step::Fail {
                failure: Failure::PathResolution { path: display },
            }),
            _ => true,
        },
        State::AwaitStat { display, canonical } => match ev {
            FsEvent::Statted { is_regular, mode } => if is_regular {
                r == (Step::Next {
                    action: FsAction::Read { path: canonical },
                    state: State::AwaitRead { display, canonical, mode },
                })
            } else {
                r == (Step::Fail { failure: Failure::NotAFile { path: canonical } })
            },
            FsEvent::FailedOp => r == (Step::Fail {
                failure: Failure::PathResolution { path: canonical },
            }),
            _ => true,
        },
        State::AwaitRead { display, canonical, mode } => match ev {
            FsEvent::ReadDone { text } => step_read_rel(display, canonical, mode, text, opts, r),
            FsEvent::NotText => r == (Step::Fail { failure: Failure::Decode { path: canonical } }),
            FsEvent::FailedOp => r == (Step::Fail {
                failure: Failure::Io { op: FsOp::Read, path: canonical },
            }),
            _ => true,
        },
        State::AwaitRename { display, canonical, mode, after, backup } => match ev {
            FsEvent::Succeeded => r == (Step::Next {
                action: FsAction::WriteFile { path: canonical, text: after },
                state: State::AwaitWrite { display, canonical, mode, after, backup },
            }),
            FsEvent::FailedOp => r == (Step::Fail {
                failure: Failure::Io { op: FsOp::Rename, path: canonical },
            }),
            _ => true,
        },
        State::AwaitWrite { display, canonical, mode, after, backup } => match ev {
            FsEvent::Succeeded => r == (Step::Next {
                action: FsAction::SetPermissions { path: canonical, mode },
                state: State::AwaitChmod { display, canonical, mode, backup },
            }),
            FsEvent::FailedOp => r == (Step::Fail {
                failure: Failure::Io { op: FsOp::WriteFile, path: canonical },
            }),
            _ => true,
        },
        State::AwaitChmod { display, canonical, mode, backup } => match ev {
            FsEvent::Succeeded => r == (Step::Next {
                action: FsAction::Remove { path: backup },
                state: State::AwaitRemove { display, backup },
            }),
            FsEvent::FailedOp => r == (Step::Fail {
                failure: Failure::Io { op: FsOp::SetPermissions, path: canonical },
            }),
            _ => true,
        },
        State::AwaitRemove { display, backup } => match ev {
            FsEvent::Succeeded => r matches Step::Done { output } && output@ == display@ + "\n"@,
            FsEvent::FailedOp => r == (Step::Fail {
                failure: Failure::Io { op: FsOp::Remove, path: backup },
            }),
            _ => true,
        },
    }
}

/// Begins a displace run on the given path, as the caller wrote it.
/// The display name is kept for output only; every filesystem
/// operation acts on the canonical path learned from the first
/// action.
pub fn start(display: String) -> (r: (FsAction, State))
    ensures
        r.0 == (FsAction::Canonicalize { path: display }),
        r.1 == (State::AwaitCanonical { display: display }),
        r.1.wf(),
{
    let action = FsAction::Canonicalize { path: display.clone() };
    (action, State::AwaitCanonical { display })
}

/// Feeds the outcome of the pending operation into the machine and
/// gets the next decision, as `step_rel` states it.
pub fn step(state: State, ev: FsEvent, opts: &Options) -> (r: Step)
    requires
        state.wf(),
        state.accepts(ev),
    ensures
        step_rel(state, ev, *opts, r),
        r matches Step::Next { state: s2, .. } ==> s2.wf(),
{
    match state {
        State::AwaitCanonical { display } => match ev {
            FsEvent::Canonicalized { canonical } => Step::Next {
                action: FsAction::Stat { path: canonical.clone() },
                state: State::AwaitStat { display, canonical },
            },
            _ => Step::Fail { failure: Failure::PathResolution { path: display } },
        },
        State::AwaitStat { display, canonical } => match ev {
            FsEvent::Statted { is_regular, mode } => if is_regular {
                Step::Next {
                    action: FsAction::Read { path: canonical.clone() },
                    state: State::AwaitRead { display, canonical, mode },
                }
            } else {
                Step::Fail { failure: Failure::NotAFile { path: canonical } }
            },
            _ => Step::Fail { failure: Failure::PathResolution { path: canonical } },
        },
        State::AwaitRead { display, canonical, mode } => match ev {
            FsEvent::ReadDone { text } => {
                let after = opts.engine.replace(text.as_str());
                if after == text {
                    Step::Done { output: String::new() }
                } else {
                    match opts.action {
                        Action::Diff => {
                            let lines_b = split_lines(text.as_str());
                            let lines_a = split_lines(after.as_str());
                            let patch = diff_lines(&lines_b, &lines_a, opts.unified);
                            let output = render_patch(&patch, display.as_str());
                            Step::Done { output }
                        },
                        Action::Write => {
                            let n = canonical.as_str().unicode_len();
                            let idx = base_name_index(canonical.as_str());
                            if idx >= n {
                                Step::Fail {
                                    failure: Failure::BadFileName { path: canonical },
                                }
                            } else {
                                let backup = backup_path(&canonical);
                                Step::Next {
                                    action: FsAction::Rename {
                                        from: canonical.clone(),
                                        to: backup.clone(),
                                    },
                                    state: State::AwaitRename {
                                        display,
                                        canonical,
                                        mode,
                                        after,
                                        backup,
                                    },
                                }
                            }
                        },
                    }
                }
            },
            FsEvent::NotText => Step::Fail { failure: Failure::Decode { path: canonical } },
            _ => Step::Fail { failure: Failure::Io { op: FsOp::Read, path: canonical } },
        },
        State::AwaitRename { display, canonical, mode, after, backup } => match ev {
            FsEvent::Succeeded => Step::Next {
                action: FsAction::WriteFile { path: canonical.clone(), text: after.clone() },
                state: State::AwaitWrite { display, canonical, mode, after, backup },
            },
            _ => Step::Fail { failure: Failure::Io { op: FsOp::Rename, path: canonical } },
        },
        State::AwaitWrite { display, canonical, mode, after, backup } => match ev {
            FsEvent::Succeeded => Step::Next {
                action: FsAction::SetPermissions { path: canonical.clone(), mode },
                state: State::AwaitChmod { display, canonical, mode, backup },
            },
            _ => Step::Fail { failure: Failure::Io { op: FsOp::WriteFile, path: canonical } },
        },
        State::AwaitChmod { display, canonical, mode, backup } => match ev {
            FsEvent::Succeeded => Step::Next {
                action: FsAction::Remove { path: backup.clone() },
                state: State::AwaitRemove { display, backup },
            },
            _ => Step::Fail {
                failure: Failure::Io { op: FsOp::SetPermissions, path: canonical },
            },
        },
        State::AwaitRemove { display, backup } => match ev {
            FsEvent::Succeeded => {
                let mut output = display.clone();
                output.append("\n");
                Step::Done { output }
            },
            _ => Step::Fail { failure: Failure::Io { op: FsOp::Remove, path: backup } },
        },
    }
}

/// No-op idempotence: when the transformation leaves the content
/// unchanged, the run finishes at once with the empty output — the
/// machine asks for no further filesystem operation, so nothing on
/// disk is touched, and a second run over the same file decides the
/// same way.
pub proof fn law_noop_idempotence(
    display: String,
    canonical: String,
    mode: u32,
    text: String,
    opts: Options,
    r: Step,
)
    requires
        engine_replace_spec(opts.engine, text@) == text@,
        step_rel(
            State::AwaitRead { display, canonical, mode },
            FsEvent::ReadDone { text },
            opts,
            r,
        ),
    ensures
        r matches Step::Done { output } && output@ == Seq::<char>::empty(),
{
}

/// Non-regular-file rejection: when the stat reports anything but a
/// regular file, the run fails with `NotAFile` naming the canonical
/// path, before any read or mutation is asked for.
pub proof fn law_not_a_file(
    display: String,
    canonical: String,
    mode: u32,
    opts: Options,
    r: Step,
)
    requires
        step_rel(
            State::AwaitStat { display, canonical },
            FsEvent::Statted { is_regular: false, mode },
            opts,
            r,
        ),
    ensures
        r == (Step::Fail { failure: Failure::NotAFile { path: canonical } }),
{
}

/// Whether a filesystem action mutates the disk.
pub open spec fn mutates(a: FsAction) -> bool {
    match a {
        FsAction::Canonicalize { .. } => false,
        FsAction::Stat { .. } => false,
        FsAction::Read { .. } => false,
        _ => true,
    }
}

/// Before the commit protocol begins, the machine asks for a mutating
/// action only when the content actually changed and a write was
/// requested — a dry-run diff, a no-op, or any earlier stage never
/// mutates.
pub proof fn law_no_mutation_before_commit(state: State, ev: FsEvent, opts: Options, r: Step)
    requires
        state is AwaitCanonical || state is AwaitStat || state is AwaitRead,
        state.accepts(ev),
        step_rel(state, ev, opts, r),
        r matches Step::Next { action, state: s2 } && mutates(action),
    ensures
        state is AwaitRead,
        ev matches FsEvent::ReadDone { text } && engine_replace_spec(opts.engine, text@) != text@,
        opts.action is Write,
{
}

} // verus!
