//! A template tree as a mathematical value, and what a replicator makes of
//! it when it is handed the tree's directories one by one.

use vstd::prelude::*;
use crate::replicate::{
    file_ops, lemma_file_ops_members, op_for, subdirectories, EntryView, FileOpView,
};
use crate::rules::on_denylist;

verus! {

/// A file or a directory of a template, with all that lies below it.
pub enum Tree {
    File { name: Seq<char> },
    Dir { name: Seq<char>, children: Seq<Tree> },
}

impl Tree {
    /// The entry's own name.
    pub open spec fn name(self) -> Seq<char> {
        match self {
            Tree::File { name } => name,
            Tree::Dir { name, .. } => name,
        }
    }

    /// What a listing of the parent directory says of this entry.
    pub open spec fn entry(self) -> EntryView {
        EntryView { name: self.name(), is_dir: self is Dir }
    }

    /// The number of files and directories in the tree.
    pub open spec fn size(self) -> nat
        decreases self,
    {
        match self {
            Tree::File { .. } => 1,
            Tree::Dir { children, .. } => 1 + total_size(children),
        }
    }
}

/// The number of files and directories in a list of trees.
pub open spec fn total_size(children: Seq<Tree>) -> nat
    decreases children,
{
    if children.len() == 0 {
        0
    } else {
        total_size(children.drop_last()) + children.last().size()
    }
}

/// The listing of a directory that holds these children.
pub open spec fn listing(children: Seq<Tree>) -> Seq<EntryView> {
    Seq::new(children.len(), |i: int| children[i].entry())
}

/// Whether the trees hold an entry at the given path, of the given kind.
/// The path is relative to the directory that holds the trees.
pub open spec fn holds(children: Seq<Tree>, path: Seq<Seq<char>>, is_dir: bool) -> bool
    decreases path.len(),
{
    path.len() > 0 && exists|i: int|
        0 <= i < children.len() && (#[trigger] children[i]).name() == path[0] && if path.len()
            == 1 {
            (children[i] is Dir) == is_dir
        } else {
            children[i] is Dir && holds(children[i]->children, path.skip(1), is_dir)
        }
}

/// No part of the path is denylisted.
pub open spec fn clean(path: Seq<Seq<char>>) -> bool {
    forall|k: int| 0 <= k < path.len() ==> !on_denylist(#[trigger] path[k])
}

/// A directory that is still to be visited, with what it holds.
pub struct Frame {
    pub dir: Seq<Seq<char>>,
    pub children: Seq<Tree>,
}

/// The paths of the frames, in order.
pub open spec fn frame_dirs(frames: Seq<Frame>) -> Seq<Seq<Seq<char>>> {
    Seq::new(frames.len(), |i: int| frames[i].dir)
}

/// The subdirectories of `dir` that are to be visited, each with what it
/// holds: the children that are directories and not denylisted.
pub open spec fn frames_below(dir: Seq<Seq<char>>, children: Seq<Tree>) -> Seq<Frame>
    decreases children.len(),
{
    if children.len() == 0 {
        Seq::empty()
    } else {
        let rest = frames_below(dir, children.drop_last());
        let child = children.last();
        if child is Dir && !on_denylist(child.name()) {
            rest.push(Frame { dir: dir.push(child.name()), children: child->children })
        } else {
            rest
        }
    }
}

/// The size of what is still to be visited: it shrinks with every visit.
pub open spec fn weight(frames: Seq<Frame>) -> nat
    decreases frames.len(),
{
    if frames.len() == 0 {
        0
    } else {
        weight(frames.drop_last()) + 1 + total_size(frames.last().children)
    }
}

/// What a run has done: the directories it visited and the file operations
/// it was answered with, in order.
pub struct Trace {
    pub visited: Seq<Seq<Seq<char>>>,
    pub ops: Seq<FileOpView>,
}

/// The run of a replicator from the given pending directories to the end:
/// it takes the last one, is handed its listing, and goes on with the rest
/// and the subdirectories that the visit added.
pub open spec fn run(pending: Seq<Frame>) -> Trace
    decreases weight(pending),
    via run_decreases
{
    if pending.len() == 0 {
        Trace { visited: Seq::empty(), ops: Seq::empty() }
    } else {
        let frame = pending.last();
        let rest = run(pending.drop_last() + frames_below(frame.dir, frame.children));
        Trace {
            visited: seq![frame.dir] + rest.visited,
            ops: file_ops(frame.dir, listing(frame.children)) + rest.ops,
        }
    }
}

#[via_fn]
proof fn run_decreases(pending: Seq<Frame>) {
    if pending.len() > 0 {
        let frame = pending.last();
        lemma_weight_below(frame.dir, frame.children);
        lemma_weight_concat(pending.drop_last(), frames_below(frame.dir, frame.children));
    }
}

/// The weight of two lists of frames, one after the other, is the sum of
/// their weights.
pub proof fn lemma_weight_concat(a: Seq<Frame>, b: Seq<Frame>)
    ensures
        weight(a + b) == weight(a) + weight(b),
    decreases b.len(),
{
    if b.len() == 0 {
        assert(a + b =~= a);
    } else {
        lemma_weight_concat(a, b.drop_last());
        assert((a + b).drop_last() =~= a + b.drop_last());
        assert((a + b).last() == b.last());
    }
}

/// The subdirectories of a directory weigh no more than what it holds.
pub proof fn lemma_weight_below(dir: Seq<Seq<char>>, children: Seq<Tree>)
    ensures
        weight(frames_below(dir, children)) <= total_size(children),
    decreases children.len(),
{
    if children.len() > 0 {
        lemma_weight_below(dir, children.drop_last());
        let rest = frames_below(dir, children.drop_last());
        let child = children.last();
        if child is Dir && !on_denylist(child.name()) {
            let frame = Frame { dir: dir.push(child.name()), children: child->children };
            assert(rest.push(frame).drop_last() =~= rest);
            assert(rest.push(frame).last() == frame);
            assert(weight(rest.push(frame)) == weight(rest) + 1 + total_size(frame.children));
            assert(child.size() == 1 + total_size(child->children));
        }
    }
}

/// The frame of a child that is a directory.
pub open spec fn frame_of(dir: Seq<Seq<char>>, child: Tree) -> Frame {
    Frame { dir: dir.push(child.name()), children: child->children }
}

/// The frames of a visit stand for the directories that the replicator
/// adds when it is handed the directory's listing.
pub proof fn lemma_frames_are_subdirectories(dir: Seq<Seq<char>>, children: Seq<Tree>)
    ensures
        frame_dirs(frames_below(dir, children)) == subdirectories(dir, listing(children)),
    decreases children.len(),
{
    if children.len() == 0 {
        assert(frame_dirs(frames_below(dir, children)) =~= Seq::<Seq<Seq<char>>>::empty());
    } else {
        lemma_frames_are_subdirectories(dir, children.drop_last());
        assert(listing(children).drop_last() =~= listing(children.drop_last()));
        assert(listing(children).last() == children.last().entry());
        let rest = frames_below(dir, children.drop_last());
        let child = children.last();
        if child is Dir && !on_denylist(child.name()) {
            assert(frame_dirs(rest.push(frame_of(dir, child))) =~= frame_dirs(rest).push(
                dir.push(child.name()),
            ));
        }
    }
}

/// The paths of two lists of frames, one after the other.
proof fn lemma_frame_dirs_concat(a: Seq<Frame>, b: Seq<Frame>)
    ensures
        frame_dirs(a + b) == frame_dirs(a) + frame_dirs(b),
{
    assert(frame_dirs(a + b) =~= frame_dirs(a) + frame_dirs(b));
}

/// A run goes as a replicator does: it takes the directory that was added
/// last, and is left with the others and with the subdirectories that the
/// replicator adds when it is handed that directory's listing.
pub proof fn lemma_run_step(pending: Seq<Frame>)
    requires
        pending.len() > 0,
    ensures
        ({
            let frame = pending.last();
            let next = pending.drop_last() + frames_below(frame.dir, frame.children);
            &&& frame.dir == frame_dirs(pending).last()
            &&& frame_dirs(next) == frame_dirs(pending).drop_last() + subdirectories(
                frame.dir,
                listing(frame.children),
            )
            &&& run(pending).visited == seq![frame.dir] + run(next).visited
            &&& run(pending).ops == file_ops(frame.dir, listing(frame.children)) + run(next).ops
        }),
{
    let frame = pending.last();
    let below = frames_below(frame.dir, frame.children);
    lemma_frames_are_subdirectories(frame.dir, frame.children);
    lemma_frame_dirs_concat(pending.drop_last(), below);
    assert(frame_dirs(pending.drop_last()) =~= frame_dirs(pending).drop_last());
}

/// The frames of a visit are those of the children that are directories and
/// not denylisted, and no others.
pub proof fn lemma_frames_below_members(dir: Seq<Seq<char>>, children: Seq<Tree>, frame: Frame)
    ensures
        frames_below(dir, children).contains(frame) <==> exists|i: int|
            0 <= i < children.len() && (#[trigger] children[i]) is Dir && !on_denylist(
                children[i].name(),
            ) && frame == frame_of(dir, children[i]),
    decreases children.len(),
{
    if children.len() > 0 {
        let front = children.drop_last();
        let child = children.last();
        let rest = frames_below(dir, front);
        lemma_frames_below_members(dir, front, frame);
        let kept = child is Dir && !on_denylist(child.name());
        if kept {
            assert(frames_below(dir, children) == rest.push(frame_of(dir, child)));
        } else {
            assert(frames_below(dir, children) == rest);
        }
        if frames_below(dir, children).contains(frame) {
            if rest.contains(frame) {
                let i = choose|i: int|
                    0 <= i < front.len() && (#[trigger] front[i]) is Dir && !on_denylist(
                        front[i].name(),
                    ) && frame == frame_of(dir, front[i]);
                assert(children[i] == front[i]);
            } else {
                let k = choose|k: int|
                    0 <= k < frames_below(dir, children).len() && frames_below(dir, children)[k]
                        == frame;
                assert(k == rest.len());
                assert(children[children.len() - 1] == child);
            }
        }
        if exists|i: int|
            0 <= i < children.len() && (#[trigger] children[i]) is Dir && !on_denylist(
                children[i].name(),
            ) && frame == frame_of(dir, children[i]) {
            let i = choose|i: int|
                0 <= i < children.len() && (#[trigger] children[i]) is Dir && !on_denylist(
                    children[i].name(),
                ) && frame == frame_of(dir, children[i]);
            if i < front.len() {
                assert(front[i] == children[i]);
                assert(rest.contains(frame));
                let k = choose|k: int| 0 <= k < rest.len() && rest[k] == frame;
                assert(frames_below(dir, children)[k] == frame);
            } else {
                assert(frames_below(dir, children)[rest.len() as int] == frame);
            }
        }
    }
}

/// Whether a path leads to the frame's directory itself or to an entry
/// below it that is kept: one that the tree holds, with no denylisted part
/// on the way from the frame to it.
pub open spec fn under(frame: Frame, path: Seq<Seq<char>>, is_dir: bool) -> bool {
    let depth = frame.dir.len() as int;
    &&& depth <= path.len()
    &&& path.take(depth) == frame.dir
    &&& if path.len() == depth {
        is_dir
    } else {
        holds(frame.children, path.skip(depth), is_dir) && clean(path.skip(depth))
    }
}

/// Whether a path is under one of the frames.
pub open spec fn reach(frames: Seq<Frame>, path: Seq<Seq<char>>, is_dir: bool) -> bool {
    exists|j: int| 0 <= j < frames.len() && under(#[trigger] frames[j], path, is_dir)
}

/// Whether a path leads to a file among the children that is kept.
pub open spec fn is_kept_file_of(frame: Frame, path: Seq<Seq<char>>) -> bool {
    exists|i: int|
        0 <= i < frame.children.len() && (#[trigger] frame.children[i]) is File && !on_denylist(
            frame.children[i].name(),
        ) && path == frame.dir.push(frame.children[i].name())
}

/// What is under a frame, one level down: the frame's directory, the kept
/// files in it, and what is under the frames of its subdirectories.
pub proof fn lemma_under_unfolds(frame: Frame, path: Seq<Seq<char>>, is_dir: bool)
    ensures
        under(frame, path, is_dir) <==> (is_dir && path == frame.dir) || (!is_dir
            && is_kept_file_of(frame, path)) || reach(
            frames_below(frame.dir, frame.children),
            path,
            is_dir,
        ),
{
    let depth = frame.dir.len() as int;
    let below = frames_below(frame.dir, frame.children);
    if under(frame, path, is_dir) {
        if path.len() == depth {
            assert(path =~= frame.dir);
        } else {
            let rel = path.skip(depth);
            let i = choose|i: int|
                0 <= i < frame.children.len() && (#[trigger] frame.children[i]).name() == rel[0]
                    && if rel.len() == 1 {
                    (frame.children[i] is Dir) == is_dir
                } else {
                    frame.children[i] is Dir && holds(
                        frame.children[i]->children,
                        rel.skip(1),
                        is_dir,
                    )
                };
            let child = frame.children[i];
            assert(!on_denylist(rel[0]));
            assert(path.take(depth + 1) =~= frame.dir.push(child.name()));
            if child is Dir {
                let sub = frame_of(frame.dir, child);
                lemma_frames_below_members(frame.dir, frame.children, sub);
                assert(below.contains(sub));
                let j = choose|j: int| 0 <= j < below.len() && below[j] == sub;
                assert(path.skip(depth + 1) =~= rel.skip(1));
                assert forall|k: int| 0 <= k < rel.skip(1).len() implies !on_denylist(
                    #[trigger] rel.skip(1)[k],
                ) by {
                    assert(rel.skip(1)[k] == rel[k + 1]);
                }
                assert(under(below[j], path, is_dir));
            } else {
                assert(path =~= frame.dir.push(child.name()));
                assert(is_kept_file_of(frame, path));
            }
        }
    }
    if is_dir && path == frame.dir {
        assert(path.take(depth) =~= frame.dir);
    }
    if !is_dir && is_kept_file_of(frame, path) {
        let i = choose|i: int|
            0 <= i < frame.children.len() && (#[trigger] frame.children[i]) is File
                && !on_denylist(frame.children[i].name()) && path == frame.dir.push(
                frame.children[i].name(),
            );
        assert(path.take(depth) =~= frame.dir);
        assert(path.skip(depth) =~= seq![frame.children[i].name()]);
        assert(holds(frame.children, path.skip(depth), is_dir));
    }
    if reach(below, path, is_dir) {
        let j = choose|j: int| 0 <= j < below.len() && under(#[trigger] below[j], path, is_dir);
        let sub = below[j];
        lemma_frames_below_members(frame.dir, frame.children, sub);
        let i = choose|i: int|
            0 <= i < frame.children.len() && (#[trigger] frame.children[i]) is Dir
                && !on_denylist(frame.children[i].name()) && sub == frame_of(
                frame.dir,
                frame.children[i],
            );
        let child = frame.children[i];
        let rel = path.skip(depth);
        assert(path.take(depth + 1).take(depth) =~= path.take(depth));
        assert(frame.dir.push(child.name()).take(depth) =~= frame.dir);
        assert(rel[0] == path.take(depth + 1)[depth]);
        assert(rel.skip(1) =~= path.skip(depth + 1));
        assert forall|k: int| 0 <= k < rel.len() implies !on_denylist(#[trigger] rel[k]) by {
            if k > 0 {
                assert(rel[k] == rel.skip(1)[k - 1]);
            }
        }
        assert(holds(frame.children, rel, is_dir));
    }
}

/// The path that a file operation acts on.
pub open spec fn op_path(op: FileOpView) -> Seq<Seq<char>> {
    match op {
        FileOpView::Copy { path } => path,
        FileOpView::Rewrite { path, .. } => path,
    }
}

/// The operation that a file at the given path gets: by its name, it is
/// rewritten or copied.
pub open spec fn op_at(path: Seq<Seq<char>>) -> FileOpView {
    op_for(path.drop_last(), path.last())
}

/// A path is under two lists of frames, one after the other, if it is under
/// one of them.
proof fn lemma_reach_concat(a: Seq<Frame>, b: Seq<Frame>, path: Seq<Seq<char>>, is_dir: bool)
    ensures
        reach(a + b, path, is_dir) <==> reach(a, path, is_dir) || reach(b, path, is_dir),
{
    if reach(a + b, path, is_dir) {
        let j = choose|j: int| 0 <= j < (a + b).len() && under(#[trigger] (a + b)[j], path, is_dir);
        if j < a.len() {
            assert(under(a[j], path, is_dir));
        } else {
            assert(under(b[j - a.len()], path, is_dir));
        }
    }
    if reach(a, path, is_dir) {
        let j = choose|j: int| 0 <= j < a.len() && under(#[trigger] a[j], path, is_dir);
        assert((a + b)[j] == a[j]);
    }
    if reach(b, path, is_dir) {
        let j = choose|j: int| 0 <= j < b.len() && under(#[trigger] b[j], path, is_dir);
        assert((a + b)[j + a.len()] == b[j]);
    }
}

/// A path is under a list of frames if it is under the last of them or
/// under one of those before it.
proof fn lemma_reach_last(frames: Seq<Frame>, path: Seq<Seq<char>>, is_dir: bool)
    requires
        frames.len() > 0,
    ensures
        reach(frames, path, is_dir) <==> reach(frames.drop_last(), path, is_dir) || under(
            frames.last(),
            path,
            is_dir,
        ),
{
    let front = frames.drop_last();
    if reach(frames, path, is_dir) {
        let j = choose|j: int| 0 <= j < frames.len() && under(#[trigger] frames[j], path, is_dir);
        if j < front.len() {
            assert(under(front[j], path, is_dir));
        }
    }
    if reach(front, path, is_dir) {
        let j = choose|j: int| 0 <= j < front.len() && under(#[trigger] front[j], path, is_dir);
        assert(frames[j] == front[j]);
    }
    if under(frames.last(), path, is_dir) {
        assert(under(frames[frames.len() - 1], path, is_dir));
    }
}

/// The directories that a run visits are those that are under its pending
/// frames, and no others.
pub proof fn lemma_run_visits(pending: Seq<Frame>, path: Seq<Seq<char>>)
    ensures
        run(pending).visited.contains(path) <==> reach(pending, path, true),
    decreases weight(pending),
{
    if pending.len() > 0 {
        let frame = pending.last();
        let below = frames_below(frame.dir, frame.children);
        let next = pending.drop_last() + below;
        lemma_weight_below(frame.dir, frame.children);
        lemma_weight_concat(pending.drop_last(), below);
        lemma_run_visits(next, path);
        lemma_reach_concat(pending.drop_last(), below, path, true);
        lemma_reach_last(pending, path, true);
        lemma_under_unfolds(frame, path, true);
        let head = seq![frame.dir];
        let tail = run(next).visited;
        assert(run(pending).visited == head + tail);
        if (head + tail).contains(path) {
            let k = choose|k: int| 0 <= k < (head + tail).len() && (head + tail)[k] == path;
            if k > 0 {
                assert(tail[k - 1] == path);
            }
        }
        if path == frame.dir {
            assert((head + tail)[0] == path);
        }
        if tail.contains(path) {
            let k = choose|k: int| 0 <= k < tail.len() && tail[k] == path;
            assert((head + tail)[k + 1] == path);
        }
    }
}

/// The operations of a run are those of the files that are under its
/// pending frames, and no others.
pub proof fn lemma_run_ops(pending: Seq<Frame>, op: FileOpView)
    ensures
        run(pending).ops.contains(op) <==> reach(pending, op_path(op), false) && op == op_at(
            op_path(op),
        ),
    decreases weight(pending),
{
    if pending.len() > 0 {
        let frame = pending.last();
        let below = frames_below(frame.dir, frame.children);
        let next = pending.drop_last() + below;
        let path = op_path(op);
        lemma_weight_below(frame.dir, frame.children);
        lemma_weight_concat(pending.drop_last(), below);
        lemma_run_ops(next, op);
        lemma_reach_concat(pending.drop_last(), below, path, false);
        lemma_reach_last(pending, path, false);
        lemma_under_unfolds(frame, path, false);
        lemma_file_ops_members(frame.dir, listing(frame.children), op);
        let head = file_ops(frame.dir, listing(frame.children));
        let tail = run(next).ops;
        assert(run(pending).ops == head + tail);
        if (head + tail).contains(op) {
            let k = choose|k: int| 0 <= k < (head + tail).len() && (head + tail)[k] == op;
            if k < head.len() {
                assert(head[k] == op);
                let i = choose|i: int|
                    0 <= i < listing(frame.children).len() && !(#[trigger] listing(
                        frame.children,
                    )[i]).is_dir && !on_denylist(listing(frame.children)[i].name) && op == op_for(
                        frame.dir,
                        listing(frame.children)[i].name,
                    );
                let name = frame.children[i].name();
                assert(frame.children[i] is File);
                assert(path == frame.dir.push(name));
                assert(path.drop_last() =~= frame.dir);
                assert(is_kept_file_of(frame, path));
            } else {
                assert(tail[k - head.len()] == op);
            }
        }
        if !reach(next, path, false) && is_kept_file_of(frame, path) && op == op_at(path) {
            let i = choose|i: int|
                0 <= i < frame.children.len() && (#[trigger] frame.children[i]) is File
                    && !on_denylist(frame.children[i].name()) && path == frame.dir.push(
                    frame.children[i].name(),
                );
            assert(path.drop_last() =~= frame.dir);
            assert(!listing(frame.children)[i].is_dir);
            assert(head.contains(op));
            let k = choose|k: int| 0 <= k < head.len() && head[k] == op;
            assert((head + tail)[k] == op);
        }
        if tail.contains(op) {
            let k = choose|k: int| 0 <= k < tail.len() && tail[k] == op;
            assert((head + tail)[k + head.len()] == op);
        }
    }
}

/// The run that copies a whole template: it starts from the root with all
/// that the template holds.
pub open spec fn replication(template: Seq<Tree>) -> Trace {
    run(seq![Frame { dir: Seq::empty(), children: template }])
}

/// A replication visits the root and every directory of the template that
/// has no denylisted name on its path, and no other directory.
pub proof fn lemma_replication_visits(template: Seq<Tree>, path: Seq<Seq<char>>)
    ensures
        replication(template).visited.contains(path) <==> path.len() == 0 || (holds(
            template,
            path,
            true,
        ) && clean(path)),
{
    let root = Frame { dir: Seq::empty(), children: template };
    let pending = seq![root];
    lemma_run_visits(pending, path);
    assert(path.skip(0) =~= path);
    assert(path.take(0) =~= root.dir);
    if reach(pending, path, true) {
        let j = choose|j: int| 0 <= j < pending.len() && under(#[trigger] pending[j], path, true);
        assert(pending[j] == root);
    }
    if under(root, path, true) {
        assert(under(pending[0], path, true));
    }
}

/// A replication copies or rewrites every file of the template that has no
/// denylisted name on its path, and no other: a file is rewritten if its
/// name marks it as special, and copied otherwise.
pub proof fn lemma_replication_ops(template: Seq<Tree>, op: FileOpView)
    ensures
        replication(template).ops.contains(op) <==> holds(template, op_path(op), false) && clean(
            op_path(op),
        ) && op == op_at(op_path(op)),
{
    let root = Frame { dir: Seq::empty(), children: template };
    let pending = seq![root];
    let path = op_path(op);
    lemma_run_ops(pending, op);
    assert(path.skip(0) =~= path);
    assert(path.take(0) =~= root.dir);
    if reach(pending, path, false) {
        let j = choose|j: int| 0 <= j < pending.len() && under(#[trigger] pending[j], path, false);
        assert(pending[j] == root);
    }
    if under(root, path, false) {
        assert(under(pending[0], path, false));
    }
}

} // verus!
