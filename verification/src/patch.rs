//! The patch engine.
//!
//! A patch set is an ordered list of literal edits, each naming a
//! destination asset, a snippet to find and its replacement.  Applying a
//! set batches the edits per destination file: every destination is
//! loaded into an in-memory buffer at most once, the edits run against
//! the buffer in order, and each buffer that an edit actually changed is
//! written back exactly once.  Reverting runs the same engine with every
//! edit's two texts swapped.
//!
//! Resolving a destination to a concrete file path, reading the files
//! and writing them back is the caller's work; the engine consumes and
//! produces plain values.

use vstd::prelude::*;

use crate::text::{
    bytes_eq, contains_pattern, copy_bytes, has_match, matches_at, replace_all, replace_all_bytes,
};

verus! {

/// The closed set of asset roles that an edit can target.
#[derive(PartialEq, Eq, Structural, Clone, Copy, Debug)]
pub enum PatchFile {
    /// The main library script of the target application.
    Library,
    /// A dynamically loaded chunk script.
    Chunk,
}

/// One literal find-and-replace edit against a destination asset.
pub struct Patch {
    pub destination: PatchFile,
    pub text_to_find: Vec<u8>,
    pub replacement_text: Vec<u8>,
}

/// The mathematical value of a [`Patch`].
pub struct PatchView {
    pub destination: PatchFile,
    pub text_to_find: Seq<u8>,
    pub replacement_text: Seq<u8>,
}

impl View for Patch {
    type V = PatchView;

    open spec fn view(&self) -> PatchView {
        PatchView {
            destination: self.destination,
            text_to_find: self.text_to_find@,
            replacement_text: self.replacement_text@,
        }
    }
}

impl DeepView for Patch {
    type V = PatchView;

    open spec fn deep_view(&self) -> PatchView {
        self.view()
    }
}

/// A destination resolved to a concrete file path, together with the
/// file's current content; `None` when the file could not be read, which
/// the engine treats as an empty buffer.
pub struct ResolvedAsset {
    pub path: Vec<u8>,
    pub content: Option<Vec<u8>>,
}

/// The mathematical value of a [`ResolvedAsset`].
pub struct ResolvedAssetView {
    pub path: Seq<u8>,
    pub content: Option<Seq<u8>>,
}

impl View for ResolvedAsset {
    type V = ResolvedAssetView;

    open spec fn view(&self) -> ResolvedAssetView {
        ResolvedAssetView {
            path: self.path@,
            content: match self.content {
                Some(c) => Some(c@),
                None => None,
            },
        }
    }
}

/// Where each asset role currently resolves to, if anywhere.  A role
/// that could not be resolved is `None` and every edit targeting it is
/// skipped.
pub struct AssetResolution {
    pub library: Option<ResolvedAsset>,
    pub chunk: Option<ResolvedAsset>,
}

/// The mathematical value of an [`AssetResolution`].
pub struct AssetResolutionView {
    pub library: Option<ResolvedAssetView>,
    pub chunk: Option<ResolvedAssetView>,
}

impl View for AssetResolution {
    type V = AssetResolutionView;

    open spec fn view(&self) -> AssetResolutionView {
        AssetResolutionView {
            library: match self.library {
                Some(a) => Some(a@),
                None => None,
            },
            chunk: match self.chunk {
                Some(a) => Some(a@),
                None => None,
            },
        }
    }
}

/// One pending whole-file write computed by the engine.
pub struct FileWrite {
    pub path: Vec<u8>,
    pub content: Vec<u8>,
}

/// The mathematical value of a [`FileWrite`].
pub struct FileWriteView {
    pub path: Seq<u8>,
    pub content: Seq<u8>,
}

impl View for FileWrite {
    type V = FileWriteView;

    open spec fn view(&self) -> FileWriteView {
        FileWriteView { path: self.path@, content: self.content@ }
    }
}

impl DeepView for FileWrite {
    type V = FileWriteView;

    open spec fn deep_view(&self) -> FileWriteView {
        self.view()
    }
}

/// The patch with its two texts exchanged; applying it searches for the
/// replacement text and restores the snippet to find.
pub open spec fn swapped(p: PatchView) -> PatchView {
    PatchView {
        destination: p.destination,
        text_to_find: p.replacement_text,
        replacement_text: p.text_to_find,
    }
}

/// Every patch of the set with its two texts exchanged.
pub open spec fn swapped_all(ps: Seq<PatchView>) -> Seq<PatchView> {
    ps.map_values(|p: PatchView| swapped(p))
}

/// The path a destination currently resolves to, if any.
pub open spec fn resolved_path(res: AssetResolutionView, d: PatchFile) -> Option<Seq<u8>> {
    match d {
        PatchFile::Library => match res.library {
            Some(a) => Some(a.path),
            None => None,
        },
        PatchFile::Chunk => match res.chunk {
            Some(a) => Some(a.path),
            None => None,
        },
    }
}

/// The content a resolved asset starts from; an unreadable file starts
/// as an empty buffer.
pub open spec fn content_or_empty(c: Option<Seq<u8>>) -> Seq<u8> {
    match c {
        Some(s) => s,
        None => Seq::empty(),
    }
}

/// The initial buffer content for a resolved path.
pub open spec fn initial_content(res: AssetResolutionView, path: Seq<u8>) -> Seq<u8> {
    match res.library {
        Some(a) => if a.path == path {
            content_or_empty(a.content)
        } else {
            chunk_initial_content(res, path)
        },
        None => chunk_initial_content(res, path),
    }
}

/// The initial buffer content for a path resolved through the chunk role.
pub open spec fn chunk_initial_content(res: AssetResolutionView, path: Seq<u8>) -> Seq<u8> {
    match res.chunk {
        Some(a) => if a.path == path {
            content_or_empty(a.content)
        } else {
            Seq::empty()
        },
        None => Seq::empty(),
    }
}

/// Whether the edit finds its snippet in the buffer.  An empty snippet
/// matches nowhere.
pub open spec fn edit_hits(buf: Seq<u8>, p: PatchView) -> bool {
    p.text_to_find.len() > 0 && has_match(buf, p.text_to_find)
}

/// One edit against a buffer: replaces every occurrence of the snippet,
/// or leaves the buffer untouched when the snippet is absent.
pub open spec fn edit_step(buf: Seq<u8>, p: PatchView) -> Seq<u8> {
    if edit_hits(buf, p) {
        replace_all(buf, p.text_to_find, p.replacement_text)
    } else {
        buf
    }
}

/// The buffer after running a list of edits in order.
pub open spec fn run_edits(c0: Seq<u8>, ps: Seq<PatchView>) -> Seq<u8>
    decreases ps.len(),
{
    if ps.len() == 0 {
        c0
    } else {
        edit_step(run_edits(c0, ps.drop_last()), ps.last())
    }
}

/// Whether any edit of the list found its snippet at its turn.
pub open spec fn any_hit(c0: Seq<u8>, ps: Seq<PatchView>) -> bool
    decreases ps.len(),
{
    if ps.len() == 0 {
        false
    } else {
        any_hit(c0, ps.drop_last()) || edit_hits(run_edits(c0, ps.drop_last()), ps.last())
    }
}

/// The resolved destination paths of the patches, in patch order,
/// skipping patches whose destination does not resolve.
pub open spec fn path_list(ps: Seq<PatchView>, res: AssetResolutionView) -> Seq<Seq<u8>>
    decreases ps.len(),
{
    if ps.len() == 0 {
        Seq::empty()
    } else {
        let rest = path_list(ps.drop_last(), res);
        match resolved_path(res, ps.last().destination) {
            Some(p) => rest.push(p),
            None => rest,
        }
    }
}

/// The same paths with repetitions dropped, keeping first occurrences.
pub open spec fn dedup_paths(s: Seq<Seq<u8>>) -> Seq<Seq<u8>>
    decreases s.len(),
{
    if s.len() == 0 {
        Seq::empty()
    } else {
        let rest = dedup_paths(s.drop_last());
        if rest.contains(s.last()) {
            rest
        } else {
            rest.push(s.last())
        }
    }
}

/// The patches of the set whose destination resolves to the given path,
/// in order.
pub open spec fn edits_for(
    ps: Seq<PatchView>,
    res: AssetResolutionView,
    path: Seq<u8>,
) -> Seq<PatchView>
    decreases ps.len(),
{
    if ps.len() == 0 {
        Seq::empty()
    } else {
        let rest = edits_for(ps.drop_last(), res, path);
        if resolved_path(res, ps.last().destination) == Some(path) {
            rest.push(ps.last())
        } else {
            rest
        }
    }
}

/// The final content of the buffer for a path after the whole set ran.
pub open spec fn final_content(
    ps: Seq<PatchView>,
    res: AssetResolutionView,
    path: Seq<u8>,
) -> Seq<u8> {
    run_edits(initial_content(res, path), edits_for(ps, res, path))
}

/// Whether the buffer for a path was changed by some edit, so that the
/// engine owes a write for it.
pub open spec fn path_written(ps: Seq<PatchView>, res: AssetResolutionView, path: Seq<u8>) -> bool {
    any_hit(initial_content(res, path), edits_for(ps, res, path))
}

/// The writes owed for the given paths, in order, one per path that some
/// edit changed.
pub open spec fn writes_for(
    paths: Seq<Seq<u8>>,
    ps: Seq<PatchView>,
    res: AssetResolutionView,
) -> Seq<FileWriteView>
    decreases paths.len(),
{
    if paths.len() == 0 {
        Seq::empty()
    } else {
        let rest = writes_for(paths.drop_last(), ps, res);
        if path_written(ps, res, paths.last()) {
            rest.push(
                (FileWriteView {
                    path: paths.last(),
                    content: final_content(ps, res, paths.last()),
                }),
            )
        } else {
            rest
        }
    }
}

/// Everything the engine does for a patch set: one write per distinct
/// touched path that some edit changed, in first-touch order, each
/// carrying the buffer content after all its edits ran.
pub open spec fn apply_model(ps: Seq<PatchView>, res: AssetResolutionView) -> Seq<FileWriteView> {
    writes_for(dedup_paths(path_list(ps, res)), ps, res)
}

proof fn lemma_path_list_push(ps: Seq<PatchView>, res: AssetResolutionView, x: PatchView)
    ensures
        path_list(ps.push(x), res) == (match resolved_path(res, x.destination) {
            Some(p) => path_list(ps, res).push(p),
            None => path_list(ps, res),
        }),
{
    assert(ps.push(x).drop_last() =~= ps);
}

proof fn lemma_edits_for_push(
    ps: Seq<PatchView>,
    res: AssetResolutionView,
    x: PatchView,
    path: Seq<u8>,
)
    ensures
        edits_for(ps.push(x), res, path) == (if resolved_path(res, x.destination) == Some(path) {
            edits_for(ps, res, path).push(x)
        } else {
            edits_for(ps, res, path)
        }),
{
    assert(ps.push(x).drop_last() =~= ps);
}

proof fn lemma_dedup_push(s: Seq<Seq<u8>>, p: Seq<u8>)
    ensures
        dedup_paths(s.push(p)) == (if dedup_paths(s).contains(p) {
            dedup_paths(s)
        } else {
            dedup_paths(s).push(p)
        }),
{
    assert(s.push(p).drop_last() =~= s);
}

proof fn lemma_run_edits_push(c0: Seq<u8>, ps: Seq<PatchView>, x: PatchView)
    ensures
        run_edits(c0, ps.push(x)) == edit_step(run_edits(c0, ps), x),
        any_hit(c0, ps.push(x)) == (any_hit(c0, ps) || edit_hits(run_edits(c0, ps), x)),
{
    assert(ps.push(x).drop_last() =~= ps);
}

/// Deduplication drops no path and invents none.
proof fn lemma_dedup_contains(s: Seq<Seq<u8>>, p: Seq<u8>)
    ensures
        dedup_paths(s).contains(p) == s.contains(p),
    decreases s.len(),
{
    if s.len() > 0 {
        lemma_dedup_contains(s.drop_last(), p);
        let rest = dedup_paths(s.drop_last());
        if s.contains(p) {
            let i = choose|i: int| 0 <= i < s.len() && s[i] == p;
            if i < s.len() - 1 {
                assert(s.drop_last()[i] == p);
                assert(s.drop_last().contains(p));
                if !rest.contains(p) {
                    assert(false);
                } else {
                    if !rest.contains(s.last()) {
                        let j = choose|j: int| 0 <= j < rest.len() && rest[j] == p;
                        assert(rest.push(s.last())[j] == p);
                    }
                }
            } else {
                if !rest.contains(s.last()) {
                    assert(rest.push(s.last())[rest.len() as int] == p);
                }
            }
        }
        if dedup_paths(s).contains(p) && !s.contains(p) {
            if rest.contains(s.last()) {
                assert(false);
            } else {
                let j = choose|j: int|
                    0 <= j < rest.push(s.last()).len() && rest.push(s.last())[j] == p;
                if j < rest.len() {
                    assert(rest[j] == p);
                    let k = choose|k: int| 0 <= k < s.drop_last().len() && s.drop_last()[k] == p;
                    assert(s[k] == p);
                } else {
                    assert(s[s.len() - 1] == p);
                }
            }
        }
    }
}

/// Deduplicated paths are pairwise distinct.
proof fn lemma_dedup_distinct(s: Seq<Seq<u8>>)
    ensures
        forall|i: int, j: int|
            0 <= i < j < dedup_paths(s).len() ==> dedup_paths(s)[i] != dedup_paths(s)[j],
    decreases s.len(),
{
    if s.len() > 0 {
        lemma_dedup_distinct(s.drop_last());
        let rest = dedup_paths(s.drop_last());
        if !rest.contains(s.last()) {
            assert forall|i: int, j: int|
                0 <= i < j < rest.push(s.last()).len() implies rest.push(s.last())[i] != rest.push(
                s.last(),
            )[j] by {
                if j == rest.len() {
                    assert(rest[i] != s.last()) by {
                        if rest[i] == s.last() {
                            assert(rest.contains(s.last()));
                        }
                    }
                }
            }
        }
    }
}

/// A path that no patch of the set resolves to has no edits.
proof fn lemma_edits_for_absent(ps: Seq<PatchView>, res: AssetResolutionView, path: Seq<u8>)
    requires
        !path_list(ps, res).contains(path),
    ensures
        edits_for(ps, res, path) == Seq::<PatchView>::empty(),
    decreases ps.len(),
{
    if ps.len() > 0 {
        let rest = path_list(ps.drop_last(), res);
        assert(!rest.contains(path)) by {
            if rest.contains(path) {
                let j = choose|j: int| 0 <= j < rest.len() && rest[j] == path;
                match resolved_path(res, ps.last().destination) {
                    Some(p) => {
                        assert(rest.push(p)[j] == path);
                    },
                    None => {},
                }
            }
        }
        lemma_edits_for_absent(ps.drop_last(), res, path);
        match resolved_path(res, ps.last().destination) {
            Some(p) => {
                if p == path {
                    assert(rest.push(p)[rest.len() as int] == path);
                    assert(false);
                }
            },
            None => {},
        }
    }
}

/// Running a concatenation of edit lists runs the first list, then the
/// second on its outcome.
proof fn lemma_run_edits_concat(c0: Seq<u8>, a: Seq<PatchView>, b: Seq<PatchView>)
    ensures
        run_edits(c0, a + b) == run_edits(run_edits(c0, a), b),
        any_hit(c0, a + b) == (any_hit(c0, a) || any_hit(run_edits(c0, a), b)),
    decreases b.len(),
{
    if b.len() == 0 {
        assert(a + b =~= a);
    } else {
        lemma_run_edits_concat(c0, a, b.drop_last());
        assert((a + b).drop_last() =~= a + b.drop_last());
        assert((a + b).last() == b.last());
    }
}

/// Writes computed for pairwise distinct paths name pairwise distinct
/// paths, each drawn from the given ones.
proof fn lemma_writes_for_distinct(
    paths: Seq<Seq<u8>>,
    ps: Seq<PatchView>,
    res: AssetResolutionView,
)
    requires
        forall|i: int, j: int| 0 <= i < j < paths.len() ==> paths[i] != paths[j],
    ensures
        forall|a: int|
            0 <= a < writes_for(paths, ps, res).len() ==> paths.contains(
                #[trigger] writes_for(paths, ps, res)[a].path,
            ),
        forall|a: int, b: int|
            0 <= a < b < writes_for(paths, ps, res).len() ==> writes_for(paths, ps, res)[a].path
                != writes_for(paths, ps, res)[b].path,
    decreases paths.len(),
{
    if paths.len() > 0 {
        let rest = paths.drop_last();
        assert(forall|i: int, j: int| 0 <= i < j < rest.len() ==> rest[i] != rest[j]);
        lemma_writes_for_distinct(rest, ps, res);
        let wrest = writes_for(rest, ps, res);
        assert forall|a: int| 0 <= a < wrest.len() implies paths.contains(wrest[a].path)
            && wrest[a].path != paths.last() by {
            assert(rest.contains(wrest[a].path));
            let i = choose|i: int| 0 <= i < rest.len() && rest[i] == wrest[a].path;
            assert(paths[i] == wrest[a].path);
            assert(paths[i] != paths[paths.len() - 1]);
        }
        if path_written(ps, res, paths.last()) {
            let w = writes_for(paths, ps, res);
            assert(w == wrest.push(
                (FileWriteView {
                    path: paths.last(),
                    content: final_content(ps, res, paths.last()),
                }),
            ));
            assert(paths.contains(paths.last())) by {
                assert(paths[paths.len() - 1] == paths.last());
            }
        }
    }
}

proof fn lemma_edits_for_concat(
    a: Seq<PatchView>,
    b: Seq<PatchView>,
    res: AssetResolutionView,
    q: Seq<u8>,
)
    ensures
        edits_for(a + b, res, q) == edits_for(a, res, q) + edits_for(b, res, q),
    decreases b.len(),
{
    if b.len() == 0 {
        assert(a + b =~= a);
        assert(edits_for(a, res, q) + edits_for(b, res, q) =~= edits_for(a, res, q));
    } else {
        assert((a + b).drop_last() =~= a + b.drop_last());
        assert((a + b).last() == b.last());
        lemma_edits_for_concat(a, b.drop_last(), res, q);
        if resolved_path(res, b.last().destination) == Some(q) {
            assert((edits_for(a, res, q) + edits_for(b.drop_last(), res, q)).push(b.last())
                =~= edits_for(a, res, q) + edits_for(b.drop_last(), res, q).push(b.last()));
        }
    }
}

proof fn lemma_edits_for_single(x: PatchView, res: AssetResolutionView, q: Seq<u8>)
    ensures
        edits_for(seq![x], res, q) == (if resolved_path(res, x.destination) == Some(q) {
            seq![x]
        } else {
            Seq::<PatchView>::empty()
        }),
{
    assert(seq![x].drop_last() =~= Seq::<PatchView>::empty());
    assert(seq![x].last() == x);
    assert(edits_for(Seq::<PatchView>::empty(), res, q) == Seq::<PatchView>::empty());
    if resolved_path(res, x.destination) == Some(q) {
        assert(Seq::<PatchView>::empty().push(x) =~= seq![x]);
    }
}

proof fn lemma_single_edit(c0: Seq<u8>, x: PatchView)
    ensures
        run_edits(c0, seq![x]) == edit_step(c0, x),
        any_hit(c0, seq![x]) == edit_hits(c0, x),
{
    assert(seq![x].drop_last() =~= Seq::<PatchView>::empty());
    assert(seq![x].last() == x);
    assert(run_edits(c0, Seq::<PatchView>::empty()) == c0);
    assert(any_hit(c0, Seq::<PatchView>::empty()) == false);
}

/// An edit skipped or withdrawn at position `k` leaves every other
/// destination's outcome exactly as it was: the buffer written for a
/// path the edit does not target, and whether it is written at all, are
/// unchanged when that edit is removed from the set.
pub proof fn lemma_partial_failure_isolation(
    ps: Seq<PatchView>,
    res: AssetResolutionView,
    k: int,
    q: Seq<u8>,
)
    requires
        0 <= k < ps.len(),
        resolved_path(res, ps[k].destination) != Some(q),
    ensures
        final_content(ps.remove(k), res, q) == final_content(ps, res, q),
        path_written(ps.remove(k), res, q) == path_written(ps, res, q),
{
    let a = ps.take(k);
    let b = ps.skip(k + 1);
    assert(ps =~= a + seq![ps[k]] + b);
    assert(ps.remove(k) =~= a + b);
    lemma_edits_for_concat(a + seq![ps[k]], b, res, q);
    lemma_edits_for_concat(a, seq![ps[k]], res, q);
    lemma_edits_for_concat(a, b, res, q);
    lemma_edits_for_single(ps[k], res, q);
    assert(edits_for(a, res, q) + Seq::<PatchView>::empty() =~= edits_for(a, res, q));
    assert(edits_for(ps, res, q) == edits_for(ps.remove(k), res, q));
}

/// An edit whose snippet is absent from its destination's buffer at its
/// turn changes nothing at all: the engine's outcome for every path is
/// as if the edit were not in the set.
pub proof fn lemma_missed_edit_no_effect(
    ps: Seq<PatchView>,
    res: AssetResolutionView,
    k: int,
    q: Seq<u8>,
)
    requires
        0 <= k < ps.len(),
        resolved_path(res, ps[k].destination) == Some(q),
        !edit_hits(final_content(ps.take(k), res, q), ps[k]),
    ensures
        final_content(ps.remove(k), res, q) == final_content(ps, res, q),
        path_written(ps.remove(k), res, q) == path_written(ps, res, q),
{
    let a = ps.take(k);
    let b = ps.skip(k + 1);
    assert(ps =~= a + seq![ps[k]] + b);
    assert(ps.remove(k) =~= a + b);
    lemma_edits_for_concat(a + seq![ps[k]], b, res, q);
    lemma_edits_for_concat(a, seq![ps[k]], res, q);
    lemma_edits_for_concat(a, b, res, q);
    lemma_edits_for_single(ps[k], res, q);
    let one = edits_for(seq![ps[k]], res, q);
    assert(one == seq![ps[k]]);
    let c0 = initial_content(res, q);
    let e_a = edits_for(a, res, q);
    let e_b = edits_for(b, res, q);
    lemma_run_edits_concat(c0, e_a + one, e_b);
    lemma_run_edits_concat(c0, e_a, one);
    lemma_run_edits_concat(c0, e_a, e_b);
    lemma_single_edit(run_edits(c0, e_a), ps[k]);
    assert(run_edits(c0, e_a) == final_content(ps.take(k), res, q)) by {
        lemma_edits_for_concat(a, seq![ps[k]] + b, res, q);
        assert(a =~= ps.take(k));
    }
    assert(run_edits(run_edits(c0, e_a), one) == run_edits(c0, e_a));
    assert(any_hit(run_edits(c0, e_a), one) == false);
    assert(edits_for(ps, res, q) == (e_a + one) + e_b);
    assert(edits_for(ps.remove(k), res, q) == e_a + e_b);
}

/// Applying one edit and then reverting it restores the buffer exactly,
/// when the snippet occurs exactly once and the replacement text occurs
/// in the patched buffer only where it was spliced in.
pub proof fn lemma_edit_roundtrip(c: Seq<u8>, p: PatchView, i: int)
    requires
        p.text_to_find.len() > 0,
        p.replacement_text.len() > 0,
        matches_at(c, p.text_to_find, i),
        forall|j: int| matches_at(c, p.text_to_find, j) ==> j == i,
        forall|j: int|
            #[trigger] matches_at(
                c.take(i) + p.replacement_text + c.skip(i + p.text_to_find.len()),
                p.replacement_text,
                j,
            ) ==> j == i,
    ensures
        edit_step(edit_step(c, p), swapped(p)) == c,
{
    let f = p.text_to_find;
    let r = p.replacement_text;
    assert(edit_hits(c, p));
    crate::text::lemma_replace_single(c, f, r, i);
    let t = c.take(i) + r + c.skip(i + f.len());
    assert(matches_at(t, r, i)) by {
        assert(t.subrange(i, i + r.len()) =~= r);
    }
    assert(edit_hits(t, swapped(p)));
    crate::text::lemma_apply_then_revert(c, f, r, i);
}

/// Applying a one-edit patch set and then reverting it restores the
/// destination's original content exactly, and both operations owe a
/// write for it: the apply changes the file, and a revert run against
/// the written state writes the original content back.  The edit's
/// snippet must occur exactly once in the original content, and its
/// replacement text must occur in the patched content only where it was
/// spliced in; a second resolution stands for the file system as the
/// apply left it.
pub proof fn lemma_apply_revert_restores(
    p: PatchView,
    res: AssetResolutionView,
    res2: AssetResolutionView,
    q: Seq<u8>,
    i: int,
)
    requires
        resolved_path(res, p.destination) == Some(q),
        resolved_path(res2, p.destination) == Some(q),
        initial_content(res2, q) == final_content(seq![p], res, q),
        p.text_to_find.len() > 0,
        p.replacement_text.len() > 0,
        matches_at(initial_content(res, q), p.text_to_find, i),
        forall|j: int| matches_at(initial_content(res, q), p.text_to_find, j) ==> j == i,
        forall|j: int|
            #[trigger] matches_at(
                initial_content(res, q).take(i) + p.replacement_text + initial_content(
                    res,
                    q,
                ).skip(i + p.text_to_find.len()),
                p.replacement_text,
                j,
            ) ==> j == i,
    ensures
        final_content(swapped_all(seq![p]), res2, q) == initial_content(res, q),
        path_written(seq![p], res, q),
        path_written(swapped_all(seq![p]), res2, q),
{
    let c = initial_content(res, q);
    let f = p.text_to_find;
    let r = p.replacement_text;
    lemma_edits_for_single(p, res, q);
    lemma_single_edit(c, p);
    assert(edit_hits(c, p));
    assert(final_content(seq![p], res, q) == edit_step(c, p));
    assert(path_written(seq![p], res, q));
    lemma_edit_roundtrip(c, p, i);
    assert(swapped_all(seq![p]) =~= seq![swapped(p)]);
    lemma_edits_for_single(swapped(p), res2, q);
    lemma_single_edit(initial_content(res2, q), swapped(p));
    crate::text::lemma_replace_single(c, f, r, i);
    let t = c.take(i) + r + c.skip(i + f.len());
    assert(matches_at(t, r, i)) by {
        assert(t.subrange(i, i + r.len()) =~= r);
    }
    assert(edit_hits(t, swapped(p)));
    assert(final_content(swapped_all(seq![p]), res2, q) == edit_step(edit_step(c, p), swapped(p)));
}

/// One in-memory buffer of the engine: the full text of one destination
/// file, loaded at most once per operation.
struct AssetBuffer {
    path: Vec<u8>,
    content: Vec<u8>,
    modified: bool,
}

/// The paths of the open buffers, in creation order.
spec fn buffer_paths(bufs: Seq<AssetBuffer>) -> Seq<Seq<u8>> {
    bufs.map_values(|b: AssetBuffer| b.path@)
}

/// Every open buffer holds the content and the changed flag that the
/// model assigns its path after the given patches ran.
spec fn buffers_ok(bufs: Seq<AssetBuffer>, ps: Seq<PatchView>, res: AssetResolutionView) -> bool {
    forall|k: int|
        0 <= k < bufs.len() ==> (#[trigger] bufs[k]).content@ == final_content(
            ps,
            res,
            bufs[k].path@,
        ) && bufs[k].modified == path_written(ps, res, bufs[k].path@)
}

/// An owned copy of the path a destination resolves to, if any.
fn resolve_destination(res: &AssetResolution, d: PatchFile) -> (r: Option<Vec<u8>>)
    ensures
        match r {
            Some(p) => resolved_path(res@, d) == Some(p@),
            None => resolved_path(res@, d) is None,
        },
{
    match d {
        PatchFile::Library => match &res.library {
            Some(a) => Some(copy_bytes(&a.path)),
            None => None,
        },
        PatchFile::Chunk => match &res.chunk {
            Some(a) => Some(copy_bytes(&a.path)),
            None => None,
        },
    }
}

/// The content a fresh buffer for this path starts from; a path whose
/// file could not be read starts empty.
fn load_initial_content(res: &AssetResolution, path: &Vec<u8>) -> (c: Vec<u8>)
    ensures
        c@ == initial_content(res@, path@),
{
    if let Some(a) = &res.library {
        if bytes_eq(&a.path, path) {
            return match &a.content {
                Some(cv) => copy_bytes(cv),
                None => Vec::new(),
            };
        }
    }
    if let Some(a) = &res.chunk {
        if bytes_eq(&a.path, path) {
            return match &a.content {
                Some(cv) => copy_bytes(cv),
                None => Vec::new(),
            };
        }
    }
    Vec::new()
}

/// The index of the open buffer for this path, if one exists.
fn find_buffer(bufs: &Vec<AssetBuffer>, path: &Vec<u8>) -> (r: Option<usize>)
    ensures
        match r {
            Some(k) => k < bufs@.len() && bufs@[k as int].path@ == path@,
            None => !buffer_paths(bufs@).contains(path@),
        },
{
    let mut k: usize = 0;
    while k < bufs.len()
        invariant
            k <= bufs@.len(),
            forall|j: int| 0 <= j < k ==> bufs@[j].path@ != path@,
        decreases bufs@.len() - k,
    {
        if bytes_eq(&bufs[k].path, path) {
            return Some(k);
        }
        k += 1;
    }
    proof {
        if buffer_paths(bufs@).contains(path@) {
            let j = choose|j: int|
                0 <= j < buffer_paths(bufs@).len() && buffer_paths(bufs@)[j] == path@;
            assert(bufs@[j].path@ == path@);
        }
    }
    None
}

/// Applies the patch set: resolves each edit's destination, loads each
/// distinct destination into a buffer at most once, replaces every
/// occurrence of each found snippet, and returns exactly one pending
/// write per destination that some edit changed, in first-touch order.
/// Edits whose destination does not resolve, and edits whose snippet is
/// absent, are skipped without disturbing the rest.
pub fn apply_patches(patches: &Vec<Patch>, res: &AssetResolution) -> (writes: Vec<FileWrite>)
    ensures
        writes.deep_view() == apply_model(patches.deep_view(), res@),
        forall|a: int, b: int|
            0 <= a < b < writes@.len() ==> writes@[a].path@ != writes@[b].path@,
{
    let ghost dv = patches.deep_view();
    let ghost rv = res@;
    let mut buffers: Vec<AssetBuffer> = Vec::new();
    let mut i: usize = 0;
    proof {
        assert(dv.take(0) =~= Seq::<PatchView>::empty());
        assert(buffer_paths(buffers@) =~= dedup_paths(path_list(dv.take(0), rv)));
    }
    while i < patches.len()
        invariant
            i <= patches@.len(),
            dv == patches.deep_view(),
            rv == res@,
            dv.len() == patches@.len(),
            buffer_paths(buffers@) == dedup_paths(path_list(dv.take(i as int), rv)),
            buffers_ok(buffers@, dv.take(i as int), rv),
        decreases patches@.len() - i,
    {
        let ghost pfx = dv.take(i as int);
        let ghost pfx1 = dv.take(i + 1 as int);
        let ghost x = dv[i as int];
        proof {
            assert(pfx1.drop_last() =~= pfx);
            assert(pfx1.last() == x);
            assert(x == patches@[i as int]@);
        }
        match resolve_destination(res, patches[i].destination) {
            None => {
                proof {
                    assert(path_list(pfx1, rv) == path_list(pfx, rv));
                    assert forall|k: int| 0 <= k < buffers@.len() implies (
                    #[trigger] buffers@[k]).content@ == final_content(pfx1, rv, buffers@[k].path@)
                        && buffers@[k].modified == path_written(pfx1, rv, buffers@[k].path@) by {
                        lemma_edits_for_push(pfx, rv, x, buffers@[k].path@);
                    }
                }
            },
            Some(path) => {
                let ghost pv = path@;
                proof {
                    lemma_path_list_push(pfx, rv, x);
                    lemma_dedup_push(path_list(pfx, rv), pv);
                }
                let k: usize = match find_buffer(&buffers, &path) {
                    Some(k0) => {
                        proof {
                            assert(buffer_paths(buffers@)[k0 as int] == pv);
                            assert(dedup_paths(path_list(pfx, rv)).contains(pv));
                            assert(buffer_paths(buffers@) == dedup_paths(path_list(pfx1, rv)));
                        }
                        k0
                    },
                    None => {
                        proof {
                            lemma_dedup_contains(path_list(pfx, rv), pv);
                            lemma_edits_for_absent(pfx, rv, pv);
                        }
                        let c0 = load_initial_content(res, &path);
                        let k1 = buffers.len();
                        let ghost before = buffers@;
                        buffers.push(AssetBuffer { path, content: c0, modified: false });
                        proof {
                            assert(buffer_paths(buffers@) =~= buffer_paths(before).push(pv));
                            assert(buffer_paths(buffers@) == dedup_paths(path_list(pfx1, rv)));
                            assert(buffers@[k1 as int].content@ == final_content(pfx, rv, pv));
                            assert(buffers@[k1 as int].modified == path_written(pfx, rv, pv));
                            assert(buffers_ok(buffers@, pfx, rv));
                        }
                        k1
                    },
                };
                proof {
                    // after find-or-create the buffer for `pv` exists and
                    // still reflects the prefix without patch i
                    assert(buffers@[k as int].path@ == pv);
                    assert(buffer_paths(buffers@) == dedup_paths(path_list(pfx1, rv)));
                    assert(buffers_ok(buffers@, pfx, rv));
                }
                let hit = if patches[i].text_to_find.len() > 0 {
                    contains_pattern(&buffers[k].content, &patches[i].text_to_find)
                } else {
                    false
                };
                let ghost mid = buffers@;
                if hit {
                    let newc = replace_all_bytes(
                        &buffers[k].content,
                        &patches[i].text_to_find,
                        &patches[i].replacement_text,
                    );
                    let b = buffers.remove(k);
                    buffers.insert(
                        k,
                        AssetBuffer { path: b.path, content: newc, modified: true },
                    );
                    proof {
                        assert(buffers@ =~= mid.update(
                            k as int,
                            (AssetBuffer {
                                path: mid[k as int].path,
                                content: buffers@[k as int].content,
                                modified: true,
                            }),
                        ));
                    }
                }
                proof {
                    assert(buffer_paths(buffers@) =~= buffer_paths(mid));
                    lemma_dedup_distinct(path_list(pfx1, rv));
                    assert forall|j: int| 0 <= j < buffers@.len() && j != k implies buffers@[j].path@
                        != pv by {
                        assert(buffer_paths(buffers@)[j] == buffers@[j].path@);
                        assert(buffer_paths(buffers@)[k as int] == pv);
                    }
                    assert forall|j: int| 0 <= j < buffers@.len() implies (
                    #[trigger] buffers@[j]).content@ == final_content(pfx1, rv, buffers@[j].path@)
                        && buffers@[j].modified == path_written(pfx1, rv, buffers@[j].path@) by {
                        lemma_edits_for_push(pfx, rv, x, buffers@[j].path@);
                        if j == k {
                            lemma_run_edits_push(
                                initial_content(rv, pv),
                                edits_for(pfx, rv, pv),
                                x,
                            );
                            assert(mid[k as int].content@ == final_content(pfx, rv, pv));
                        } else {
                            assert(buffers@[j] == mid[j]);
                        }
                    }
                }
            },
        }
        i += 1;
    }
    proof {
        assert(dv.take(dv.len() as int) =~= dv);
    }
    let ghost bps = buffer_paths(buffers@);
    let mut writes: Vec<FileWrite> = Vec::new();
    let mut k: usize = 0;
    proof {
        assert(bps.take(0) =~= Seq::<Seq<u8>>::empty());
        assert(writes.deep_view() =~= writes_for(bps.take(0), dv, rv));
    }
    while k < buffers.len()
        invariant
            k <= buffers@.len(),
            dv == patches.deep_view(),
            rv == res@,
            bps == buffer_paths(buffers@),
            buffers_ok(buffers@, dv, rv),
            writes.deep_view() == writes_for(bps.take(k as int), dv, rv),
        decreases buffers@.len() - k,
    {
        proof {
            assert(bps.take(k + 1 as int).drop_last() =~= bps.take(k as int));
            assert(bps.take(k + 1 as int).last() == buffers@[k as int].path@);
        }
        if buffers[k].modified {
            let w = FileWrite {
                path: copy_bytes(&buffers[k].path),
                content: copy_bytes(&buffers[k].content),
            };
            writes.push(w);
            proof {
                assert(writes.deep_view() =~= writes_for(bps.take(k + 1 as int), dv, rv));
            }
        }
        k += 1;
    }
    proof {
        assert(bps.take(buffers@.len() as int) =~= bps);
        lemma_dedup_distinct(path_list(dv, rv));
        lemma_writes_for_distinct(bps, dv, rv);
        assert forall|a: int, b: int| 0 <= a < b < writes@.len() implies writes@[a].path@
            != writes@[b].path@ by {
            assert(writes.deep_view()[a] == writes@[a]@);
            assert(writes.deep_view()[b] == writes@[b]@);
        }
    }
    writes
}

/// Every patch of the set with its two texts exchanged, as an owned set.
pub fn swap_texts(patches: &Vec<Patch>) -> (sw: Vec<Patch>)
    ensures
        sw.deep_view() == swapped_all(patches.deep_view()),
{
    let mut sw: Vec<Patch> = Vec::new();
    let mut i: usize = 0;
    while i < patches.len()
        invariant
            i <= patches@.len(),
            sw@.len() == i,
            sw.deep_view() =~= swapped_all(patches.deep_view().take(i as int)),
        decreases patches@.len() - i,
    {
        let p = Patch {
            destination: patches[i].destination,
            text_to_find: copy_bytes(&patches[i].replacement_text),
            replacement_text: copy_bytes(&patches[i].text_to_find),
        };
        let ghost oldsw = sw.deep_view();
        let ghost oldv = sw@;
        sw.push(p);
        proof {
            let dvp = patches.deep_view();
            assert forall|j: int| 0 <= j < i + 1 implies sw.deep_view()[j] == swapped(
                dvp.take(i + 1 as int)[j],
            ) by {
                assert(sw.deep_view()[j] == sw@[j].deep_view());
                assert(dvp.take(i + 1 as int)[j] == dvp[j]);
                if j < i {
                    assert(sw@[j] == oldv[j]);
                    assert(oldv[j].deep_view() == oldsw[j]);
                    assert(oldsw[j] == swapped(dvp.take(i as int)[j]));
                    assert(dvp.take(i as int)[j] == dvp[j]);
                }
            }
            assert(sw.deep_view() =~= swapped_all(dvp.take(i + 1 as int)));
        }
        i += 1;
    }
    proof {
        assert(patches.deep_view().take(patches@.len() as int) =~= patches.deep_view());
    }
    sw
}

/// Reverts the patch set: the same engine run with every edit's two
/// texts exchanged, so each buffer's replacement text is searched for
/// and the original snippet restored.
pub fn revert_patches(patches: &Vec<Patch>, res: &AssetResolution) -> (writes: Vec<FileWrite>)
    ensures
        writes.deep_view() == apply_model(swapped_all(patches.deep_view()), res@),
        forall|a: int, b: int|
            0 <= a < b < writes@.len() ==> writes@[a].path@ != writes@[b].path@,
{
    let sw = swap_texts(patches);
    apply_patches(&sw, res)
}

} // verus!
