//! A model of the directory the commit protocol acts in, and the
//! guarantees the four-step protocol gives over it: what the
//! directory holds after a full success, and what it holds if the
//! process dies right after the rename.

use vstd::prelude::*;
use crate::displace::{
    is_backup_name, lemma_backup_name_differs, step_rel, FsAction, FsEvent, Options, State, Step,
};
use crate::engine::engine_replace_spec;

verus! {

/// One file: its text and its permission bits.
pub struct FileModel {
    pub content: Seq<char>,
    pub mode: u32,
}

/// A directory as a map from paths to files.
pub type DirModel = Map<Seq<char>, FileModel>;

/// Step 1, rename aside: the target's entry moves to the backup path.
/// A same-directory rename, atomic at the filesystem level.
pub open spec fn rename_op(d: DirModel, from: Seq<char>, to: Seq<char>) -> DirModel {
    d.remove(from).insert(to, d[from])
}

/// Step 2, write: a file appears at the path with the new content and
/// whatever permission bits the creating write happened to give it
/// (umask-derived, so unconstrained here).
pub open spec fn write_op(
    d: DirModel,
    path: Seq<char>,
    content: Seq<char>,
    created_mode: u32,
) -> DirModel {
    d.insert(path, FileModel { content, mode: created_mode })
}

/// Step 3, restore permissions: the entry keeps its content and takes
/// the given permission bits.
pub open spec fn chmod_op(d: DirModel, path: Seq<char>, mode: u32) -> DirModel {
    if d.contains_key(path) {
        d.insert(path, FileModel { content: d[path].content, mode })
    } else {
        d
    }
}

/// Step 4, remove the backup.
pub open spec fn remove_op(d: DirModel, path: Seq<char>) -> DirModel {
    d.remove(path)
}

/// The effect of the whole protocol, the four steps in their strict
/// order: rename aside, write, restore permissions, remove backup.
pub open spec fn commit_effect(
    d: DirModel,
    canonical: Seq<char>,
    backup: Seq<char>,
    after: Seq<char>,
    created_mode: u32,
    mode: u32,
) -> DirModel {
    remove_op(
        chmod_op(write_op(rename_op(d, canonical, backup), canonical, after, created_mode), canonical, mode),
        backup,
    )
}

/// Write correctness and backup cleanup: when all four steps succeed
/// in order, exactly the new content sits at the canonical path with
/// the original permission bits — whatever bits the bare write gave
/// the file — the backup is gone, and no other path in the directory
/// changed, so no suffixed sibling remains.
pub proof fn law_commit_success(
    d: DirModel,
    canonical: Seq<char>,
    backup: Seq<char>,
    after: Seq<char>,
    created_mode: u32,
    mode: u32,
)
    requires
        is_backup_name(backup, canonical),
        d.contains_key(canonical),
        d[canonical].mode == mode,
        !d.contains_key(backup),
    ensures
        ({
            let d4 = commit_effect(d, canonical, backup, after, created_mode, mode);
            &&& d4.contains_key(canonical)
            &&& d4[canonical].content == after
            &&& d4[canonical].mode == mode
            &&& !d4.contains_key(backup)
            &&& forall|p: Seq<char>|
                p != canonical && p != backup ==> #[trigger] d4.contains_key(p)
                    == d.contains_key(p)
            &&& forall|p: Seq<char>|
                p != canonical && p != backup && d.contains_key(p) ==> #[trigger] d4[p] == d[p]
        }),
{
    lemma_backup_name_differs(backup, canonical);
}

/// Crash-window recovery: if the process dies after step 1 (rename)
/// and before step 2 (write), the original file — content and
/// permission bits — sits intact under the backup name; the canonical
/// path is briefly absent, never corrupted; and nothing else in the
/// directory changed.
pub proof fn law_crash_after_rename(d: DirModel, canonical: Seq<char>, backup: Seq<char>)
    requires
        is_backup_name(backup, canonical),
        d.contains_key(canonical),
    ensures
        ({
            let d1 = rename_op(d, canonical, backup);
            &&& d1.contains_key(backup)
            &&& d1[backup] == d[canonical]
            &&& !d1.contains_key(canonical)
            &&& forall|p: Seq<char>|
                p != canonical && p != backup ==> #[trigger] d1.contains_key(p)
                    == d.contains_key(p)
            &&& forall|p: Seq<char>|
                p != canonical && p != backup && d.contains_key(p) ==> #[trigger] d1[p] == d[p]
        }),
{
    lemma_backup_name_differs(backup, canonical);
}

/// Step-2-failure recovery: a failed or interrupted write after the
/// rename leaves the backup untouched; the protocol never renames it
/// back, so the pre-transform content stays recoverable whatever the
/// write did to the canonical path.
pub proof fn law_backup_survives_write(
    d: DirModel,
    canonical: Seq<char>,
    backup: Seq<char>,
    content: Seq<char>,
    created_mode: u32,
)
    requires
        is_backup_name(backup, canonical),
        d.contains_key(canonical),
    ensures
        ({
            let d1 = rename_op(d, canonical, backup);
            let d2 = write_op(d1, canonical, content, created_mode);
            d2.contains_key(backup) && d2[backup] == d[canonical]
        }),
{
    lemma_backup_name_differs(backup, canonical);
}

/// The write run end to end, through the machine's own transition
/// relation: after a read whose transformation changed the content,
/// four successful steps drive rename, write, chmod and remove in
/// order; the run ends with the display name plus newline as output;
/// and the directory afterwards holds exactly the transformed content
/// at the canonical path with the original permission bits, the
/// backup gone and every other path untouched by these four steps.
pub proof fn law_write_run(
    d: DirModel,
    display: String,
    canonical: String,
    mode: u32,
    text: String,
    opts: Options,
    r0: Step,
    r1: Step,
    r2: Step,
    r3: Step,
    r4: Step,
    created_mode: u32,
)
    requires
        opts.action is Write,
        engine_replace_spec(opts.engine, text@) != text@,
        d.contains_key(canonical@),
        d[canonical@].mode == mode,
        step_rel(
            State::AwaitRead { display, canonical, mode },
            FsEvent::ReadDone { text },
            opts,
            r0,
        ),
        ({
            &&& r0 matches Step::Next { action: a0, state: s0 }
            &&& a0 matches FsAction::Rename { from, to }
            &&& !d.contains_key(to@)
            &&& step_rel(s0, FsEvent::Succeeded, opts, r1)
            &&& r1 matches Step::Next { action: a1, state: s1 }
            &&& step_rel(s1, FsEvent::Succeeded, opts, r2)
            &&& r2 matches Step::Next { action: a2, state: s2 }
            &&& step_rel(s2, FsEvent::Succeeded, opts, r3)
            &&& r3 matches Step::Next { action: a3, state: s3 }
            &&& step_rel(s3, FsEvent::Succeeded, opts, r4)
        }),
    ensures
        r4 matches Step::Done { output } && output@ == display@ + "\n"@,
        ({
            &&& r0 matches Step::Next { action: a0, state: s0 }
            &&& a0 matches FsAction::Rename { from, to }
            &&& from == canonical
            &&& is_backup_name(to@, canonical@)
            &&& ({
                let after = engine_replace_spec(opts.engine, text@);
                let d4 = commit_effect(d, canonical@, to@, after, created_mode, mode);
                &&& d4.contains_key(canonical@)
                &&& d4[canonical@].content == after
                &&& d4[canonical@].mode == mode
                &&& !d4.contains_key(to@)
                &&& forall|p: Seq<char>|
                    p != canonical@ && p != to@ ==> #[trigger] d4.contains_key(p)
                        == d.contains_key(p)
                &&& forall|p: Seq<char>|
                    p != canonical@ && p != to@ && d.contains_key(p) ==> #[trigger] d4[p] == d[p]
            })
        }),
{
    match r0 {
        Step::Next { action: a0, state: s0 } => match a0 {
            FsAction::Rename { from, to } => {
                law_commit_success(
                    d,
                    canonical@,
                    to@,
                    engine_replace_spec(opts.engine, text@),
                    created_mode,
                    mode,
                );
            },
            _ => {},
        },
        _ => {},
    }
}

} // verus!
