//! The two-phase synchronisation plan for one directory level.
//!
//! Phase one pushes local changes: each local file whose size differs from
//! the remote file of that name (size 0 where there is none) is uploaded,
//! and each local directory missing remotely is created there. Phase two
//! pulls remote changes: each remote file missing locally or of another
//! size is downloaded, and each remote directory missing locally is created
//! locally. Change detection is by size alone. The caller walks the tree,
//! carries the actions out, and recurses into every directory.
use vstd::prelude::*;

use crate::listing::{entries_of, entry_of, Entry, EntrySpec};
use crate::path::{child_text, join_child};

verus! {

/// What to do with one entry.
#[derive(Clone, Copy, Debug, PartialEq, Eq, Structural)]
pub enum SyncAction {
    Upload,
    Download,
    MkdirLocal,
    MkdirRemote,
    Skip,
}

/// One item of a plan: the entry's name, whether it is a directory, and
/// what to do with it.
#[derive(Clone, Debug)]
pub struct SyncItem {
    pub name: String,
    pub is_dir: bool,
    pub action: SyncAction,
}

pub open spec fn item_of(i: SyncItem) -> (Seq<char>, bool, SyncAction) {
    (i.name@, i.is_dir, i.action)
}

/// The size of the first file named `name` in `es`.
pub open spec fn file_size(es: Seq<EntrySpec>, name: Seq<char>) -> Option<u64>
    decreases es.len(),
{
    if es.len() == 0 {
        None
    } else if !es[0].1 && es[0].0 == name {
        Some(es[0].2)
    } else {
        file_size(es.drop_first(), name)
    }
}

/// Whether `es` holds a directory named `name`.
pub open spec fn has_dir(es: Seq<EntrySpec>, name: Seq<char>) -> bool {
    exists|i: int| 0 <= i < es.len() && (#[trigger] es[i]).1 && es[i].0 == name
}

/// Phase one's action for the local entry `e`.
pub open spec fn upload_action(e: EntrySpec, remote: Seq<EntrySpec>) -> SyncAction {
    if e.1 {
        if has_dir(remote, e.0) {
            SyncAction::Skip
        } else {
            SyncAction::MkdirRemote
        }
    } else {
        let remote_size = match file_size(remote, e.0) {
            Some(s) => s,
            None => 0,
        };
        if remote_size == e.2 {
            SyncAction::Skip
        } else {
            SyncAction::Upload
        }
    }
}

/// Phase two's action for the remote entry `e`.
pub open spec fn download_action(e: EntrySpec, local: Seq<EntrySpec>) -> SyncAction {
    if e.1 {
        if has_dir(local, e.0) {
            SyncAction::Skip
        } else {
            SyncAction::MkdirLocal
        }
    } else if file_size(local, e.0) == Some(e.2) {
        SyncAction::Skip
    } else {
        SyncAction::Download
    }
}

/// A local and a remote directory level agree: every file on one side has
/// a file of that name and size on the other, and every directory on one
/// side has a directory of that name on the other.
pub open spec fn converged(local: Seq<EntrySpec>, remote: Seq<EntrySpec>) -> bool {
    &&& forall|i: int|
        0 <= i < local.len() ==> if (#[trigger] local[i]).1 {
            has_dir(remote, local[i].0)
        } else {
            file_size(remote, local[i].0) == Some(local[i].2)
        }
    &&& forall|i: int|
        0 <= i < remote.len() ==> if (#[trigger] remote[i]).1 {
            has_dir(local, remote[i].0)
        } else {
            file_size(local, remote[i].0) == Some(remote[i].2)
        }
}

fn find_file_size(es: &Vec<Entry>, name: &String) -> (r: Option<u64>)
    ensures
        r == file_size(entries_of(es@), name@),
{
    let mut i: usize = 0;
    assert(entries_of(es@).skip(0) =~= entries_of(es@));
    while i < es.len()
        invariant
            0 <= i <= es.len(),
            file_size(entries_of(es@).skip(i as int), name@) == file_size(entries_of(es@), name@),
        decreases es.len() - i,
    {
        let ghost rest = entries_of(es@).skip(i as int);
        assert(rest.drop_first() =~= entries_of(es@).skip(i + 1));
        assert(rest[0] == entry_of(es@[i as int]));
        if !es[i].is_dir && es[i].name == *name {
            return Some(es[i].size);
        }
        i = i + 1;
    }
    assert(entries_of(es@).skip(i as int) =~= Seq::<EntrySpec>::empty());
    None
}

fn find_dir(es: &Vec<Entry>, name: &String) -> (r: bool)
    ensures
        r == has_dir(entries_of(es@), name@),
{
    let mut i: usize = 0;
    while i < es.len()
        invariant
            0 <= i <= es.len(),
            forall|j: int| 0 <= j < i ==> !((#[trigger] entries_of(es@)[j]).1 && entries_of(es@)[j].0 == name@),
        decreases es.len() - i,
    {
        assert(entries_of(es@)[i as int] == entry_of(es@[i as int]));
        if es[i].is_dir && es[i].name == *name {
            return true;
        }
        i = i + 1;
    }
    false
}

/// Phase one's plan: one item per local entry, in order.
pub fn plan_upload(local: &Vec<Entry>, remote: &Vec<Entry>) -> (r: Vec<SyncItem>)
    ensures
        r@.len() == local@.len(),
        forall|i: int|
            0 <= i < r@.len() ==> item_of(#[trigger] r@[i]) == (
                local@[i].name@,
                local@[i].is_dir,
                upload_action(entry_of(local@[i]), entries_of(remote@)),
            ),
{
    let mut out: Vec<SyncItem> = Vec::new();
    let mut i: usize = 0;
    while i < local.len()
        invariant
            0 <= i <= local.len(),
            out@.len() == i,
            forall|j: int|
                0 <= j < i ==> item_of(#[trigger] out@[j]) == (
                    local@[j].name@,
                    local@[j].is_dir,
                    upload_action(entry_of(local@[j]), entries_of(remote@)),
                ),
        decreases local.len() - i,
    {
        let e = &local[i];
        let action = if e.is_dir {
            if find_dir(remote, &e.name) {
                SyncAction::Skip
            } else {
                SyncAction::MkdirRemote
            }
        } else {
            let remote_size = match find_file_size(remote, &e.name) {
                Some(s) => s,
                None => 0,
            };
            if remote_size == e.size {
                SyncAction::Skip
            } else {
                SyncAction::Upload
            }
        };
        out.push(SyncItem { name: e.name.clone(), is_dir: e.is_dir, action });
        i = i + 1;
    }
    out
}

/// Phase two's plan: one item per remote entry, in order.
pub fn plan_download(local: &Vec<Entry>, remote: &Vec<Entry>) -> (r: Vec<SyncItem>)
    ensures
        r@.len() == remote@.len(),
        forall|i: int|
            0 <= i < r@.len() ==> item_of(#[trigger] r@[i]) == (
                remote@[i].name@,
                remote@[i].is_dir,
                download_action(entry_of(remote@[i]), entries_of(local@)),
            ),
{
    let mut out: Vec<SyncItem> = Vec::new();
    let mut i: usize = 0;
    while i < remote.len()
        invariant
            0 <= i <= remote.len(),
            out@.len() == i,
            forall|j: int|
                0 <= j < i ==> item_of(#[trigger] out@[j]) == (
                    remote@[j].name@,
                    remote@[j].is_dir,
                    download_action(entry_of(remote@[j]), entries_of(local@)),
                ),
        decreases remote.len() - i,
    {
        let e = &remote[i];
        let action = if e.is_dir {
            if find_dir(local, &e.name) {
                SyncAction::Skip
            } else {
                SyncAction::MkdirLocal
            }
        } else {
            match find_file_size(local, &e.name) {
                Some(s) => {
                    if s == e.size {
                        SyncAction::Skip
                    } else {
                        SyncAction::Download
                    }
                },
                None => SyncAction::Download,
            }
        };
        out.push(SyncItem { name: e.name.clone(), is_dir: e.is_dir, action });
        i = i + 1;
    }
    out
}

/// On a pair of directory levels that already agree, neither phase plans
/// anything: no upload, no download, no directory to create. A second
/// sync pass right after a converging one therefore transfers nothing.
pub proof fn lemma_converged_plans_nothing(local: Seq<EntrySpec>, remote: Seq<EntrySpec>)
    requires
        converged(local, remote),
    ensures
        forall|i: int| 0 <= i < local.len() ==> #[trigger] upload_action(local[i], remote) == SyncAction::Skip,
        forall|i: int| 0 <= i < remote.len() ==> #[trigger] download_action(remote[i], local) == SyncAction::Skip,
{
}

/// Which phase a sync pass is in.
#[derive(Clone, Copy, Debug, PartialEq, Eq, Structural)]
pub enum Phase {
    /// Local changes go up.
    Push,
    /// Remote changes come down.
    Pull,
    /// The pass is over.
    Done,
}

pub open spec fn pair_of(p: (String, String)) -> (Seq<char>, Seq<char>) {
    (p.0@, p.1@)
}

pub open spec fn pairs_of(v: Seq<(String, String)>) -> Seq<(Seq<char>, Seq<char>)> {
    v.map_values(|p: (String, String)| pair_of(p))
}

/// The local and remote paths of the directories among `es`, entries of
/// the local directory `l` and the remote directory `r`, in order.
pub open spec fn subdirs(l: Seq<char>, r: Seq<char>, es: Seq<EntrySpec>) -> Seq<(Seq<char>, Seq<char>)>
    decreases es.len(),
{
    if es.len() == 0 {
        Seq::empty()
    } else {
        let rest = subdirs(l, r, es.drop_last());
        if es.last().1 {
            rest.push((child_text(l, es.last().0), child_text(r, es.last().0)))
        } else {
            rest
        }
    }
}

/// One sync pass over two trees: the push phase visits every local
/// directory, then the pull phase visits every remote one. The caller
/// lists each directory it is handed, carries out the plan that `visit`
/// returns, and goes on with the next directory whatever failed.
#[derive(Debug)]
pub struct SyncWalk {
    pub local_root: String,
    pub remote_root: String,
    pub phase: Phase,
    /// Directories still to visit in this phase, the next one last.
    pub pending: Vec<(String, String)>,
}

impl SyncWalk {
    /// A pass that starts with the push phase at the two roots.
    pub fn new(local_root: String, remote_root: String) -> (r: SyncWalk)
        ensures
            r.local_root@ == local_root@,
            r.remote_root@ == remote_root@,
            r.phase == Phase::Push,
            pairs_of(r.pending@) == seq![(local_root@, remote_root@)],
    {
        let mut pending: Vec<(String, String)> = Vec::new();
        pending.push((local_root.clone(), remote_root.clone()));
        assert(pairs_of(pending@) =~= seq![(local_root@, remote_root@)]);
        SyncWalk { local_root, remote_root, phase: Phase::Push, pending }
    }

    /// The next local and remote directory to visit. When the push phase
    /// has visited everything, the pull phase starts again at the roots;
    /// `None` once the pull phase has visited everything too.
    pub fn next_dir(&mut self) -> (r: Option<(String, String)>)
        ensures
            final(self).local_root@ == old(self).local_root@,
            final(self).remote_root@ == old(self).remote_root@,
            old(self).phase == Phase::Done ==> r.is_none() && final(self).phase == Phase::Done,
            old(self).phase != Phase::Done && old(self).pending@.len() > 0 ==> ({
                &&& final(self).phase == old(self).phase
                &&& r matches Some(p) && pair_of(p) == pairs_of(old(self).pending@).last()
                &&& pairs_of(final(self).pending@) == pairs_of(old(self).pending@).drop_last()
            }),
            old(self).phase == Phase::Push && old(self).pending@.len() == 0 ==> ({
                &&& final(self).phase == Phase::Pull
                &&& r matches Some(p) && pair_of(p) == (old(self).local_root@, old(self).remote_root@)
                &&& final(self).pending@.len() == 0
            }),
            old(self).phase == Phase::Pull && old(self).pending@.len() == 0 ==> r.is_none()
                && final(self).phase == Phase::Done,
    {
        if self.phase == Phase::Done {
            return None;
        }
        let ghost before = pairs_of(self.pending@);
        match self.pending.pop() {
            Some(p) => {
                assert(pairs_of(self.pending@) =~= before.drop_last());
                Some(p)
            },
            None => {
                if self.phase == Phase::Push {
                    self.phase = Phase::Pull;
                    Some((self.local_root.clone(), self.remote_root.clone()))
                } else {
                    self.phase = Phase::Done;
                    None
                }
            },
        }
    }

    /// Plans the visited directories `local_dir` and `remote_dir`, given
    /// their listings, and queues their subdirectories: the local ones in
    /// the push phase, the remote ones in the pull phase.
    pub fn visit(
        &mut self,
        local_dir: &str,
        remote_dir: &str,
        local: &Vec<Entry>,
        remote: &Vec<Entry>,
    ) -> (r: Vec<SyncItem>)
        requires
            old(self).phase != Phase::Done,
        ensures
            final(self).local_root@ == old(self).local_root@,
            final(self).remote_root@ == old(self).remote_root@,
            final(self).phase == old(self).phase,
            old(self).phase == Phase::Push ==> ({
                &&& r@.len() == local@.len()
                &&& forall|i: int|
                    0 <= i < r@.len() ==> item_of(#[trigger] r@[i]) == (
                        local@[i].name@,
                        local@[i].is_dir,
                        upload_action(entry_of(local@[i]), entries_of(remote@)),
                    )
                &&& pairs_of(final(self).pending@) == pairs_of(old(self).pending@) + subdirs(
                    local_dir@,
                    remote_dir@,
                    entries_of(local@),
                )
            }),
            old(self).phase == Phase::Pull ==> ({
                &&& r@.len() == remote@.len()
                &&& forall|i: int|
                    0 <= i < r@.len() ==> item_of(#[trigger] r@[i]) == (
                        remote@[i].name@,
                        remote@[i].is_dir,
                        download_action(entry_of(remote@[i]), entries_of(local@)),
                    )
                &&& pairs_of(final(self).pending@) == pairs_of(old(self).pending@) + subdirs(
                    local_dir@,
                    remote_dir@,
                    entries_of(remote@),
                )
            }),
    {
        let plan = if self.phase == Phase::Push {
            plan_upload(local, remote)
        } else {
            plan_download(local, remote)
        };
        let source = if self.phase == Phase::Push {
            local
        } else {
            remote
        };
        let ghost start = pairs_of(self.pending@);
        let mut i: usize = 0;
        while i < source.len()
            invariant
                0 <= i <= source.len(),
                pairs_of(self.pending@) == start + subdirs(
                    local_dir@,
                    remote_dir@,
                    entries_of(source@).take(i as int),
                ),
                self.local_root@ == old(self).local_root@,
                self.remote_root@ == old(self).remote_root@,
                self.phase == old(self).phase,
            decreases source.len() - i,
        {
            let ghost es = entries_of(source@).take(i + 1);
            assert(es.drop_last() =~= entries_of(source@).take(i as int));
            assert(es.last() == entry_of(source@[i as int]));
            if source[i].is_dir {
                let l = join_child(local_dir, source[i].name.as_str());
                let r = join_child(remote_dir, source[i].name.as_str());
                let ghost before = pairs_of(self.pending@);
                self.pending.push((l, r));
                assert(pairs_of(self.pending@) =~= before.push((l@, r@)));
            }
            i = i + 1;
        }
        assert(entries_of(source@).take(i as int) =~= entries_of(source@));
        plan
    }
}

} // verus!
