//! Path resolution: from the path of a request to a place below the root.
//!
//! The path is cut at `/`. Empty pieces are passed over, `..` steps back to
//! the parent, every other piece steps into the child of that name. A `..`
//! that would step above the root makes the whole path unresolvable, and so
//! does a piece that holds a `\`: where `\` separates paths, such a piece
//! would name more than a child. The
//! walk is lexical: it never touches the disk. What the disk holds at the
//! resulting place is found out by the caller and handed to `classify`.

use crate::decode::{percent_decode, percent_decoded};
use crate::text::{chars_of, copy_of, split, split_text, views};
use vstd::prelude::*;
use vstd::string::StringExecFns;

verus! {

/// What stands at a resolved place.
#[derive(Clone, Copy, Debug, PartialEq, Eq, Structural)]
pub enum TargetKind {
    File,
    Directory,
    Missing,
}

/// What a look at the disk found at a place.
#[derive(Clone, Copy, Debug, PartialEq, Eq, Structural)]
pub enum Probe {
    /// A regular file.
    File,
    /// A directory.
    Directory,
    /// Nothing, or something that is neither file nor directory.
    Neither,
    /// The look itself failed, for want of permission or otherwise.
    Failed,
}

/// Why a request path leads nowhere, whatever the disk holds.
#[derive(Clone, Copy, Debug, PartialEq, Eq, Structural)]
pub enum Refusal {
    /// A `..` would step above the root, or a piece holds a `\`.
    Traversal,
    /// The path is not valid percent-encoded UTF-8.
    Undecodable,
}

/// A request path after the lexical walk, before the disk was looked at.
#[derive(Clone, Debug, PartialEq, Eq)]
pub struct Candidate {
    /// The place below the root that the path names; the root itself where
    /// the path was refused.
    pub fs_path: String,
    /// Set where the path was refused: the disk is then not to be looked at.
    pub refusal: Option<Refusal>,
    /// Whether a piece of the path begins with a dot.
    pub is_dotfile: bool,
}

/// A request path, resolved and classified.
#[derive(Clone, Debug, PartialEq, Eq)]
pub struct ResolvedTarget {
    pub fs_path: String,
    pub kind: TargetKind,
    pub is_dotfile: bool,
}

/// The piece that steps back to the parent.
pub open spec fn parent_segment() -> Seq<char> {
    seq!['.', '.']
}

/// A piece that begins with a dot. `.` and `..` are such pieces too.
pub open spec fn is_dot_segment(piece: Seq<char>) -> bool {
    piece.len() > 0 && piece[0] == '.'
}

/// Whether one of the pieces begins with a dot.
pub open spec fn has_dot_segment(pieces: Seq<Seq<char>>) -> bool {
    exists|i: int| 0 <= i < pieces.len() && is_dot_segment(#[trigger] pieces[i])
}

/// One step of the walk from the place `stack` (the names from the root
/// down): `None` where the step would leave the root, or might where `\`
/// separates paths.
pub open spec fn step(stack: Seq<Seq<char>>, piece: Seq<char>) -> Option<Seq<Seq<char>>> {
    if piece.len() == 0 {
        Some(stack)
    } else if piece == parent_segment() {
        if stack.len() == 0 {
            None
        } else {
            Some(stack.drop_last())
        }
    } else if piece.contains('\\') {
        None
    } else {
        Some(stack.push(piece))
    }
}

/// The place reached from the root by the pieces in turn, as the names from
/// the root down; `None` where some step would leave the root.
pub open spec fn walk(pieces: Seq<Seq<char>>) -> Option<Seq<Seq<char>>>
    decreases pieces.len(),
{
    if pieces.len() == 0 {
        Some(Seq::empty())
    } else {
        match walk(pieces.drop_last()) {
            None => None,
            Some(stack) => step(stack, pieces.last()),
        }
    }
}

/// The path of the entry `name` of the directory `base`.
pub open spec fn child(base: Seq<char>, name: Seq<char>) -> Seq<char> {
    if base.len() > 0 && base.last() == '/' {
        base + name
    } else {
        base.push('/') + name
    }
}

/// The path of the place that `stack` names below `root`.
pub open spec fn descend(root: Seq<char>, stack: Seq<Seq<char>>) -> Seq<char>
    decreases stack.len(),
{
    if stack.len() == 0 {
        root
    } else {
        child(descend(root, stack.drop_last()), stack.last())
    }
}

/// Whether the (decoded) request path `path` is refused: a `..` in it would
/// step above the root, or a piece of it holds a `\`.
pub open spec fn escapes_root(path: Seq<char>) -> bool {
    walk(split(path, '/')) is None
}

/// Whether a piece of the (decoded) request path `path` begins with a dot.
pub open spec fn names_dotfile(path: Seq<char>) -> bool {
    has_dot_segment(split(path, '/'))
}

/// The place that the (decoded) request path `path` names below `root`; the
/// root itself where the path would leave it.
pub open spec fn resolved_path(root: Seq<char>, path: Seq<char>) -> Seq<char> {
    match walk(split(path, '/')) {
        Some(stack) => descend(root, stack),
        None => root,
    }
}

/// The candidate that `resolve` makes of a decoded path.
pub open spec fn candidate_matches(c: Candidate, root: Seq<char>, path: Seq<char>) -> bool {
    &&& c.fs_path@ == resolved_path(root, path)
    &&& c.refusal == (if escapes_root(path) {
        Some(Refusal::Traversal)
    } else {
        None
    })
    &&& c.is_dotfile == names_dotfile(path)
}

/// The kind of target that a look at the disk stands for.
pub open spec fn kind_of(probe: Probe) -> TargetKind {
    match probe {
        Probe::File => TargetKind::File,
        Probe::Directory => TargetKind::Directory,
        Probe::Neither => TargetKind::Missing,
        Probe::Failed => TargetKind::Missing,
    }
}

/// A walk by pieces that hold no `/` ends at names that are not empty, are
/// not `..` and hold neither `/` nor `\`: the resolved path has the root as
/// its prefix and below it only plain names, so it cannot name a place
/// outside the root, whichever of the two separates paths.
pub proof fn lemma_walk_stays_below_root(pieces: Seq<Seq<char>>)
    requires
        forall|i: int| 0 <= i < pieces.len() ==> !(#[trigger] pieces[i]).contains('/'),
        walk(pieces) is Some,
    ensures
        forall|k: int|
            0 <= k < walk(pieces)->0.len() ==> {
                let name = #[trigger] walk(pieces)->0[k];
                name.len() > 0 && name != parent_segment() && !name.contains('/')
                    && !name.contains('\\')
            },
    decreases pieces.len(),
{
    if pieces.len() > 0 {
        let init = pieces.drop_last();
        assert forall|i: int| 0 <= i < init.len() implies !(#[trigger] init[i]).contains('/') by {
            assert(init[i] == pieces[i]);
        }
        lemma_walk_stays_below_root(init);
        let stack = walk(init)->0;
        let piece = pieces.last();
        let after = walk(pieces)->0;
        assert forall|k: int| 0 <= k < after.len() implies {
            let name = #[trigger] after[k];
            name.len() > 0 && name != parent_segment() && !name.contains('/') && !name.contains(
                '\\',
            )
        } by {
            if piece.len() == 0 {
            } else if piece == parent_segment() {
                assert(after[k] == stack[k]);
            } else if k < stack.len() {
                assert(after[k] == stack[k]);
            } else {
                assert(after[k] == piece);
            }
        }
    }
}

/// The path of the entry `name` of the directory `base`.
pub fn child_path(base: &str, name: &str) -> (r: String)
    ensures
        r@ == child(base@, name@),
{
    let chars = chars_of(base);
    let mut r = copy_of(base);
    if chars.len() == 0 || chars[chars.len() - 1] != '/' {
        r.push('/');
    }
    r.append(name);
    r
}

/// Whether `piece` begins with a dot.
pub fn begins_with_dot(piece: &str) -> (b: bool)
    ensures
        b == is_dot_segment(piece@),
{
    !piece.is_empty() && piece.get_char(0) == '.'
}

/// Whether `piece` holds a `\`.
pub fn holds_backslash(piece: &str) -> (b: bool)
    ensures
        b == piece@.contains('\\'),
{
    let chars = chars_of(piece);
    let mut i: usize = 0;
    while i < chars.len()
        invariant
            i <= chars.len(),
            chars@ == piece@,
            forall|k: int| 0 <= k < i ==> chars@[k] != '\\',
        decreases chars.len() - i,
    {
        if chars[i] == '\\' {
            return true;
        }
        i += 1;
    }
    false
}

/// Walks the decoded request path `path` from `root`.
pub fn resolve(root: &str, path: &str) -> (c: Candidate)
    ensures
        candidate_matches(c, root@, path@),
{
    let pieces = split_text(path, '/');
    let ghost all = views(pieces@);
    let mut stack: Vec<String> = Vec::new();
    let mut escaped = false;
    let mut dotted = false;
    let mut i: usize = 0;
    proof {
        assert(all.take(0) =~= Seq::<Seq<char>>::empty());
        assert(views(stack@) =~= Seq::<Seq<char>>::empty());
    }
    while i < pieces.len()
        invariant
            i <= pieces.len(),
            all == views(pieces@),
            walk(all.take(i as int)) == (if escaped {
                None
            } else {
                Some(views(stack@))
            }),
            dotted == has_dot_segment(all.take(i as int)),
        decreases pieces.len() - i,
    {
        let piece = pieces[i].as_str();
        proof {
            let now = all.take(i + 1);
            let before = all.take(i as int);
            assert(now.drop_last() =~= before);
            assert(now.last() == piece@);
            reveal_strlit("..");
            assert(".."@ =~= parent_segment());
            if is_dot_segment(piece@) {
                assert(is_dot_segment(now[i as int]));
            } else if has_dot_segment(now) {
                let k = choose|k: int| 0 <= k < now.len() && is_dot_segment(#[trigger] now[k]);
                assert(before[k] == now[k]);
            }
            if has_dot_segment(before) {
                let k = choose|k: int| 0 <= k < before.len() && is_dot_segment(
                    #[trigger] before[k],
                );
                assert(before[k] == now[k]);
            }
        }
        if begins_with_dot(piece) {
            dotted = true;
        }
        if !escaped && !piece.is_empty() {
            let ghost old_stack = views(stack@);
            if piece.eq("..") {
                if stack.len() == 0 {
                    escaped = true;
                } else {
                    stack.pop();
                    proof {
                        assert(views(stack@) =~= old_stack.drop_last());
                    }
                }
            } else if holds_backslash(piece) {
                escaped = true;
            } else {
                stack.push(copy_of(piece));
                proof {
                    assert(views(stack@) =~= old_stack.push(piece@));
                }
            }
        }
        i += 1;
    }
    proof {
        assert(all.take(i as int) =~= all);
    }
    let mut fs_path = copy_of(root);
    if !escaped {
        let mut j: usize = 0;
        proof {
            assert(views(stack@).take(0) =~= Seq::<Seq<char>>::empty());
        }
        while j < stack.len()
            invariant
                j <= stack.len(),
                fs_path@ == descend(root@, views(stack@).take(j as int)),
            decreases stack.len() - j,
        {
            proof {
                let now = views(stack@).take(j + 1);
                assert(now.drop_last() =~= views(stack@).take(j as int));
                assert(now.last() == stack@[j as int]@);
            }
            fs_path = child_path(fs_path.as_str(), stack[j].as_str());
            j += 1;
        }
        proof {
            assert(views(stack@).take(j as int) =~= views(stack@));
        }
    }
    Candidate {
        fs_path,
        refusal: if escaped {
            Some(Refusal::Traversal)
        } else {
            None
        },
        is_dotfile: dotted,
    }
}

/// The candidate that `locate` makes of a raw request path.
pub open spec fn located(c: Candidate, root: Seq<char>, raw_path: Seq<char>) -> bool {
    match percent_decoded(raw_path) {
        Some(path) => candidate_matches(c, root, path),
        None => c.fs_path@ == root && c.refusal == Some(Refusal::Undecodable) && !c.is_dotfile,
    }
}

/// Decodes the raw path of a request and walks it from `root`. A path that
/// cannot be decoded is refused.
pub fn locate(root: &str, raw_path: &str) -> (c: Candidate)
    ensures
        located(c, root@, raw_path@),
{
    match percent_decode(raw_path) {
        Some(path) => resolve(root, path.as_str()),
        None => Candidate {
            fs_path: copy_of(root),
            refusal: Some(Refusal::Undecodable),
            is_dotfile: false,
        },
    }
}

/// Classifies a candidate by what the disk holds at its place. A refused
/// candidate is missing whatever the probe says.
pub fn classify(candidate: Candidate, probe: Probe) -> (target: ResolvedTarget)
    ensures
        target.fs_path == candidate.fs_path,
        target.is_dotfile == candidate.is_dotfile,
        target.kind == (if candidate.refusal is Some {
            TargetKind::Missing
        } else {
            kind_of(probe)
        }),
{
    let kind = if candidate.refusal.is_some() {
        TargetKind::Missing
    } else {
        match probe {
            Probe::File => TargetKind::File,
            Probe::Directory => TargetKind::Directory,
            Probe::Neither => TargetKind::Missing,
            Probe::Failed => TargetKind::Missing,
        }
    };
    ResolvedTarget { fs_path: candidate.fs_path, kind, is_dotfile: candidate.is_dotfile }
}

} // verus!
