//! Depth-first, pre-order traversal of a Location, as a state machine: the
//! walker says which directory to read next, the caller reads it and hands
//! back its entries. Entries named like the system directory are never
//! recorded nor entered; Ignored entries are recorded only on request and
//! never entered otherwise; directories deeper than the limit are not read.

use vstd::prelude::*;
use crate::location::{is_system_dir_name, system_dir_name, walk_records, Entry, EntryKind, WalkOptions};

verus! {

/// What the caller does next.
#[derive(Debug)]
pub enum WalkStep {
    /// Read the directory at `path` and hand its entries to `push_listing` with `depth`.
    Descend { path: String, depth: usize },
    /// The traversal is complete.
    Done,
}

/// The not yet visited entries of a directory, the next one last.
#[derive(Debug)]
pub struct WalkFrame {
    depth: usize,
    pending: Vec<Entry>,
}

/// A traversal in progress.
#[derive(Debug)]
pub struct Walker {
    options: WalkOptions,
    frames: Vec<WalkFrame>,
    results: Vec<Entry>,
}

/// Whether a traversal with `include_ignored` may record `e`.
pub open spec fn recordable(e: Entry, include_ignored: bool) -> bool {
    walk_records(e.scope, include_ignored) && e.name@ != system_dir_name()
}

/// `s` in reverse order.
pub open spec fn rev(s: Seq<Entry>) -> Seq<Entry>
    decreases s.len(),
{
    if s.len() == 0 {
        seq![]
    } else {
        seq![s.last()] + rev(s.drop_last())
    }
}

/// The entries still to be visited, each with the depth of its directory,
/// in visiting order: the innermost directory's rest first.
pub closed spec fn visit_order(frames: Seq<WalkFrame>) -> Seq<(Entry, usize)>
    decreases frames.len(),
{
    if frames.len() == 0 {
        seq![]
    } else {
        rev(frames.last().pending@).map_values(|e: Entry| (e, frames.last().depth)) + visit_order(frames.drop_last())
    }
}

/// Whether directories at `depth` are read under `opts`.
pub open spec fn depth_ok(opts: WalkOptions, depth: int) -> bool {
    match opts.max_depth {
        Some(m) => depth < m,
        None => true,
    }
}

/// Whether visiting `e`, found at `depth`, records it and then enters it.
pub open spec fn enters(e: Entry, depth: usize, opts: WalkOptions) -> bool {
    recordable(e, opts.include_ignored) && e.kind == EntryKind::Folder && depth < usize::MAX && depth_ok(opts, depth + 1)
}

/// The entries of a visit sequence that are recorded, in order.
pub open spec fn recorded_of(s: Seq<(Entry, usize)>, opts: WalkOptions) -> Seq<Entry>
    decreases s.len(),
{
    if s.len() == 0 {
        seq![]
    } else if recordable(s.last().0, opts.include_ignored) {
        recorded_of(s.drop_last(), opts).push(s.last().0)
    } else {
        recorded_of(s.drop_last(), opts)
    }
}

/// The number of steps left: one per pending entry and one per frame.
pub closed spec fn work_left(frames: Seq<WalkFrame>) -> nat
    decreases frames.len(),
{
    if frames.len() == 0 {
        0
    } else {
        work_left(frames.drop_last()) + frames.last().pending@.len() + 1
    }
}

impl Walker {
    /// The traversal's options.
    pub closed spec fn opts(&self) -> WalkOptions {
        self.options
    }

    /// The recorded entries, in traversal order.
    pub closed spec fn recorded(&self) -> Seq<Entry> {
        self.results@
    }

    /// The entries still to be visited, with their depths, in visiting order.
    pub closed spec fn queue(&self) -> Seq<(Entry, usize)> {
        visit_order(self.frames@)
    }

    /// Every recorded entry passes the traversal's filters.
    pub closed spec fn wf(&self) -> bool {
        forall|i: int| 0 <= i < self.results@.len() ==> recordable(#[trigger] self.results@[i], self.options.include_ignored)
    }

    /// A traversal with nothing read yet.
    pub fn new(options: WalkOptions) -> (r: Self)
        ensures
            r.wf(),
            r.opts() == options,
            r.recorded() == Seq::<Entry>::empty(),
            r.queue() == Seq::<(Entry, usize)>::empty(),
    {
        Walker { options, frames: Vec::new(), results: Vec::new() }
    }

    /// Whether the starting directory is read at all.
    pub fn reads_root(&self) -> (r: bool)
        ensures
            r == match self.opts().max_depth {
                Some(m) => 0 < m,
                None => true,
            },
    {
        self.options.depth_allowed(0)
    }

    /// Hands over the entries of the directory read at `depth`, in the order read.
    pub fn push_listing(&mut self, depth: usize, entries: Vec<Entry>)
        requires
            old(self).wf(),
        ensures
            final(self).wf(),
            final(self).opts() == old(self).opts(),
            final(self).recorded() == old(self).recorded(),
            final(self).queue() == entries@.map_values(|e: Entry| (e, depth)) + old(self).queue(),
    {
        let ghost listing = entries@;
        let mut entries = entries;
        let mut pending: Vec<Entry> = Vec::new();
        assert(entries@ + rev(pending@) =~= listing);
        while entries.len() > 0
            invariant
                entries@ + rev(pending@) == listing,
            decreases entries.len(),
        {
            let ghost before = entries@;
            let ghost pbefore = pending@;
            match entries.pop() {
                Some(e) => {
                    pending.push(e);
                    assert(pending@.drop_last() =~= pbefore);
                    assert(rev(pending@) == seq![e] + rev(pbefore));
                    assert(before =~= entries@.push(e));
                    assert(entries@ + rev(pending@) =~= before + rev(pbefore));
                },
                None => {},
            }
        }
        assert(rev(pending@) =~= listing);
        let ghost old_frames = self.frames@;
        self.frames.push(WalkFrame { depth, pending });
        assert(self.frames@.drop_last() =~= old_frames);
    }

    /// Advances to the next directory to read, recording entries on the way.
    pub fn step(&mut self) -> (r: WalkStep)
        requires
            old(self).wf(),
        ensures
            final(self).wf(),
            final(self).opts() == old(self).opts(),
            ({
                let q = old(self).queue();
                let k = q.len() - final(self).queue().len();
                &&& 0 <= k <= q.len()
                &&& final(self).queue() == q.skip(k)
                &&& final(self).recorded() == old(self).recorded() + recorded_of(q.take(k), old(self).opts())
                &&& forall|j: int| 0 <= j < k - 1 ==> !enters(#[trigger] q[j].0, q[j].1, old(self).opts())
                &&& match r {
                    WalkStep::Done => k == q.len() && (k == 0 || !enters(q[k - 1].0, q[k - 1].1, old(self).opts())),
                    WalkStep::Descend { path, depth } => k > 0 && enters(q[k - 1].0, q[k - 1].1, old(self).opts())
                        && path@ == q[k - 1].0.path@ && depth == q[k - 1].1 + 1,
                }
            }),
    {
        let ghost q = visit_order(self.frames@);
        let ghost opts = self.options;
        let ghost rec0 = self.results@;
        let ghost mut k: int = 0;
        assert(q.take(0) =~= Seq::<(Entry, usize)>::empty());
        assert(q.skip(0) =~= q);
        assert(rec0 + recorded_of(q.take(0), opts) =~= rec0);
        loop
            invariant
                self.wf(),
                self.options == opts,
                opts == old(self).options,
                q == visit_order(old(self).frames@),
                rec0 == old(self).results@,
                0 <= k <= q.len(),
                visit_order(self.frames@) == q.skip(k),
                self.results@ == rec0 + recorded_of(q.take(k), opts),
                forall|j: int| 0 <= j < k ==> !enters(#[trigger] q[j].0, q[j].1, opts),
            decreases work_left(self.frames@),
        {
            if self.frames.len() == 0 {
                assert(visit_order(self.frames@) =~= Seq::<(Entry, usize)>::empty());
                assert(q.len() == k) by {
                    assert(q.skip(k).len() == 0);
                }
                return WalkStep::Done;
            }
            let ghost before = self.frames@;
            let mut frame = self.frames.pop().unwrap();
            assert(self.frames@ =~= before.drop_last());
            let ghost fp = frame.pending@;
            match frame.pending.pop() {
                None => {
                    assert(fp.len() == 0);
                    assert(rev(fp).map_values(|e: Entry| (e, frame.depth)) =~= Seq::<(Entry, usize)>::empty());
                    assert(visit_order(before) =~= visit_order(self.frames@));
                },
                Some(e) => {
                    let depth = frame.depth;
                    assert(frame.pending@ =~= fp.drop_last());
                    self.frames.push(frame);
                    assert(self.frames@.drop_last() =~= before.drop_last());
                    let ghost head = rev(fp).map_values(|x: Entry| (x, depth));
                    assert(rev(fp) =~= seq![e] + rev(fp.drop_last()));
                    assert(head[0] == (e, depth));
                    assert(rev(fp.drop_last()).map_values(|x: Entry| (x, depth)) =~= head.drop_first());
                    assert(visit_order(before) =~= head + visit_order(before.drop_last()));
                    assert(visit_order(self.frames@) =~= head.drop_first() + visit_order(before.drop_last()));
                    assert(q[k] == (e, depth)) by {
                        assert(q.skip(k)[0] == q[k]);
                    }
                    assert(visit_order(self.frames@) =~= q.skip(k + 1)) by {
                        assert(q.skip(k).drop_first() =~= q.skip(k + 1));
                    }
                    assert(q.take(k + 1).drop_last() =~= q.take(k));
                    assert(q.take(k + 1).last() == (e, depth));
                    proof {
                        k = k + 1;
                    }
                    if is_system_dir_name(e.name.as_str()) || !self.options.records(e.scope) {
                        assert(!recordable(e, opts.include_ignored));
                        assert(self.results@ == rec0 + recorded_of(q.take(k), opts));
                    } else {
                        let descend = e.kind == EntryKind::Folder && depth < usize::MAX
                            && self.options.depth_allowed(depth + 1);
                        let path = e.path.clone();
                        let ghost old_results = self.results@;
                        self.results.push(e);
                        assert(self.results@ =~= rec0 + recorded_of(q.take(k), opts));
                        assert(self.wf()) by {
                            assert forall|i: int| 0 <= i < self.results@.len() implies recordable(
                                #[trigger] self.results@[i],
                                self.options.include_ignored,
                            ) by {
                                if i < old_results.len() {
                                    assert(self.results@[i] == old_results[i]);
                                }
                            }
                        }
                        if descend {
                            assert(path@ == e.path@);
                            return WalkStep::Descend { path, depth: depth + 1 };
                        }
                    }
                },
            }
        }
    }

    /// The recorded entries, in traversal order.
    pub fn finish(self) -> (r: Vec<Entry>)
        requires
            self.wf(),
        ensures
            r@ == self.recorded(),
            forall|i: int| 0 <= i < r@.len() ==> recordable(#[trigger] r@[i], self.opts().include_ignored),
    {
        self.results
    }
}

} // verus!
