//! The path confinement guard.
//!
//! Scope and attachment identifiers originate from user-facing strings and
//! must never be interpreted as filesystem navigation.  The guard lexically
//! resolves an untrusted identifier — splitting on `/` and `\`, dropping
//! empty and `.` components, folding `..` against the components before it —
//! entirely without touching the filesystem, and rejects every identifier
//! that is absolute, resolves to nothing, or would climb above the sandbox
//! root.  [`lemma_confined_stays_under_root`] states the guarantee: joining
//! an accepted identifier onto any root resolves to a path whose ancestry
//! literally starts with that root.
//!
//! The resolution is purely lexical and Unix-minded: symbolic links are not
//! followed (a deliberate, documented limitation of the design) and a
//! drive-qualified name is an ordinary component, not an absolute path.

use crate::errors::AttachmentError;
use vstd::prelude::*;

verus! {

/// The path separators recognised in an untrusted identifier.
pub open spec fn is_sep(c: char) -> bool {
    c == '/' || c == '\\'
}

/// Folds one completed component onto the stack of resolved components:
/// empty and `.` components vanish, `..` removes the component before it —
/// or escapes, yielding `None`, when there is none — and any other
/// component is kept.
pub open spec fn apply_segment(stack: Seq<Seq<char>>, seg: Seq<char>) -> Option<Seq<Seq<char>>> {
    if seg.len() == 0 || seg == seq!['.'] {
        Some(stack)
    } else if seg == seq!['.', '.'] {
        if stack.len() == 0 {
            None
        } else {
            Some(stack.drop_last())
        }
    } else {
        Some(stack.push(seg))
    }
}

/// Lexically resolves the remaining characters `rest` on top of the already
/// resolved components `stack`, with `cur` the piece of the current
/// component read so far.
pub open spec fn resolve_rec(
    stack: Seq<Seq<char>>,
    cur: Seq<char>,
    rest: Seq<char>,
) -> Option<Seq<Seq<char>>>
    decreases rest.len(),
{
    if rest.len() == 0 {
        apply_segment(stack, cur)
    } else if is_sep(rest[0]) {
        match apply_segment(stack, cur) {
            Some(folded) => resolve_rec(folded, Seq::empty(), rest.drop_first()),
            None => None,
        }
    } else {
        resolve_rec(stack, cur.push(rest[0]), rest.drop_first())
    }
}

/// The lexical resolution of an identifier on its own: the component list
/// it stands for, or `None` where a `..` climbs above its start.
pub open spec fn resolve(s: Seq<char>) -> Option<Seq<Seq<char>>> {
    resolve_rec(Seq::empty(), Seq::empty(), s)
}

/// The lexical resolution of an identifier joined onto an already resolved
/// root path.
pub open spec fn resolve_under(root: Seq<Seq<char>>, s: Seq<char>) -> Option<Seq<Seq<char>>> {
    resolve_rec(root, Seq::empty(), s)
}

/// True of every identifier the guard accepts: non-empty, not absolute,
/// and lexically resolving to at least one component without ever climbing
/// above its start.
pub open spec fn confined(s: Seq<char>) -> bool {
    &&& s.len() > 0
    &&& !is_sep(s[0])
    &&& match resolve(s) {
        Some(segs) => segs.len() > 0,
        None => false,
    }
}

/// How one completed component reads: ignorable, a `..`, or a component
/// that is kept.
enum SegKind {
    Skip,
    Pop,
    Keep,
}

/// Classifies the completed component `seg`.
fn seg_kind(seg: &str) -> (k: SegKind)
    ensures
        k is Skip <==> (seg@.len() == 0 || seg@ == seq!['.']),
        k is Pop <==> seg@ == seq!['.', '.'],
{
    let n = seg.unicode_len();
    if n == 0 {
        SegKind::Skip
    } else if n == 1 && seg.get_char(0) == '.' {
        proof {
            assert(seg@ =~= seq!['.']);
        }
        SegKind::Skip
    } else if n == 2 && seg.get_char(0) == '.' && seg.get_char(1) == '.' {
        proof {
            assert(seg@ =~= seq!['.', '.']);
        }
        SegKind::Pop
    } else {
        proof {
            assert(seg@ != seq!['.']) by {
                if seg@ == seq!['.'] {
                    assert(seg@.len() == 1);
                }
            }
            assert(seg@ != seq!['.', '.']) by {
                if seg@ == seq!['.', '.'] {
                    assert(seg@.len() == 2);
                    assert(seg@[0] == '.');
                    assert(seg@[1] == '.');
                }
            }
        }
        SegKind::Keep
    }
}

/// Lexically confines the untrusted identifier `candidate`: resolves it
/// without touching the filesystem and returns its component list, or
/// `Traversal` for every identifier that is empty, absolute, resolves to
/// nothing, or would climb above the sandbox root.
pub fn confine(candidate: &str) -> (r: Result<Vec<String>, AttachmentError>)
    ensures
        r matches Ok(segs) ==> confined(candidate@) && resolve(candidate@) == Some(
            segs.deep_view(),
        ),
        r is Err ==> r == Err::<Vec<String>, AttachmentError>(AttachmentError::Traversal)
            && !confined(candidate@),
{
    let n = candidate.unicode_len();
    if n == 0 {
        return Err(AttachmentError::Traversal);
    }
    let first = candidate.get_char(0);
    if first == '/' || first == '\\' {
        return Err(AttachmentError::Traversal);
    }
    let mut segs: Vec<String> = Vec::new();
    let mut cur_start: usize = 0;
    let mut i: usize = 0;
    proof {
        assert(candidate@.skip(0) =~= candidate@);
        assert(candidate@.subrange(0, 0) =~= Seq::<char>::empty());
        assert(segs.deep_view() =~= Seq::<Seq<char>>::empty());
    }
    while i < n
        invariant
            n == candidate@.len(),
            0 <= cur_start <= i <= n,
            resolve(candidate@) == resolve_rec(
                segs.deep_view(),
                candidate@.subrange(cur_start as int, i as int),
                candidate@.skip(i as int),
            ),
        decreases n - i,
    {
        let c = candidate.get_char(i);
        if c == '/' || c == '\\' {
            let ghost pre_stack = segs.deep_view();
            let ghost cur = candidate@.subrange(cur_start as int, i as int);
            let seg = candidate.substring_char(cur_start, i);
            match seg_kind(seg) {
                SegKind::Skip => {
                    proof {
                        assert(apply_segment(pre_stack, cur) == Some(pre_stack));
                    }
                },
                SegKind::Pop => {
                    if segs.pop().is_none() {
                        proof {
                            assert(pre_stack.len() == 0);
                            assert(apply_segment(pre_stack, cur) is None);
                        }
                        return Err(AttachmentError::Traversal);
                    }
                    proof {
                        assert(segs.deep_view() =~= pre_stack.drop_last());
                        assert(apply_segment(pre_stack, cur) == Some(segs.deep_view()));
                    }
                },
                SegKind::Keep => {
                    segs.push(String::from_str(seg));
                    proof {
                        assert(segs.deep_view() =~= pre_stack.push(cur));
                        assert(apply_segment(pre_stack, cur) == Some(segs.deep_view()));
                    }
                },
            }
            proof {
                assert(candidate@.skip(i as int)[0] == candidate@[i as int]);
                assert(candidate@.skip(i as int).drop_first() =~= candidate@.skip(i + 1));
                assert(candidate@.subrange(i + 1, i + 1) =~= Seq::<char>::empty());
            }
            cur_start = i + 1;
            i = i + 1;
        } else {
            proof {
                assert(candidate@.skip(i as int)[0] == candidate@[i as int]);
                assert(candidate@.skip(i as int).drop_first() =~= candidate@.skip(i + 1));
                assert(candidate@.subrange(cur_start as int, i as int).push(candidate@[i as int])
                    =~= candidate@.subrange(cur_start as int, i + 1));
            }
            i = i + 1;
        }
    }
    let ghost pre_stack = segs.deep_view();
    let ghost cur = candidate@.subrange(cur_start as int, n as int);
    proof {
        assert(candidate@.skip(n as int) =~= Seq::<char>::empty());
    }
    let seg = candidate.substring_char(cur_start, n);
    match seg_kind(seg) {
        SegKind::Skip => {},
        SegKind::Pop => {
            if segs.pop().is_none() {
                return Err(AttachmentError::Traversal);
            }
            proof {
                assert(segs.deep_view() =~= pre_stack.drop_last());
            }
        },
        SegKind::Keep => {
            segs.push(String::from_str(seg));
            proof {
                assert(segs.deep_view() =~= pre_stack.push(cur));
            }
        },
    }
    if segs.len() == 0 {
        return Err(AttachmentError::Traversal);
    }
    Ok(segs)
}

/// Resolution of separator-free characters only extends the current
/// component: it folds exactly one completed component onto the stack.
proof fn lemma_resolve_rec_no_sep(stack: Seq<Seq<char>>, cur: Seq<char>, rest: Seq<char>)
    requires
        forall|i: int| 0 <= i < rest.len() ==> !is_sep(#[trigger] rest[i]),
    ensures
        resolve_rec(stack, cur, rest) == apply_segment(stack, cur + rest),
    decreases rest.len(),
{
    if rest.len() == 0 {
        assert(cur + rest =~= cur);
    } else {
        lemma_resolve_rec_no_sep(stack, cur.push(rest[0]), rest.drop_first());
        assert(cur.push(rest[0]) + rest.drop_first() =~= cur + rest);
    }
}

/// An identifier that contains no separator and is neither `.` nor `..`
/// is confined, and resolves to exactly itself as a single component.
pub proof fn lemma_single_component_confined(s: Seq<char>)
    requires
        s.len() > 0,
        forall|i: int| 0 <= i < s.len() ==> !is_sep(#[trigger] s[i]),
        s != seq!['.'],
        s != seq!['.', '.'],
    ensures
        confined(s),
        resolve(s) == Some(seq![s]),
{
    lemma_resolve_rec_no_sep(Seq::empty(), Seq::empty(), s);
    assert(Seq::<char>::empty() + s =~= s);
    assert(Seq::<Seq<char>>::empty().push(s) =~= seq![s]);
}

/// Folding a component onto a stack below which a root path sits behaves
/// exactly as folding it onto the stack alone, with the root untouched in
/// front.
proof fn lemma_apply_segment_prefix(root: Seq<Seq<char>>, stack: Seq<Seq<char>>, seg: Seq<char>)
    requires
        apply_segment(stack, seg) is Some,
    ensures
        apply_segment(root + stack, seg) matches Some(folded) && apply_segment(stack, seg)
            matches Some(alone) && folded == root + alone,
{
    if seg.len() == 0 || seg == seq!['.'] {
    } else if seg == seq!['.', '.'] {
        assert(stack.len() > 0);
        assert((root + stack).drop_last() =~= root + stack.drop_last());
    } else {
        assert((root + stack).push(seg) =~= root + stack.push(seg));
    }
}

/// Resolution that succeeds on its own succeeds below any root and leaves
/// the root as an untouched prefix of the result.
proof fn lemma_resolve_rec_prefix(
    root: Seq<Seq<char>>,
    stack: Seq<Seq<char>>,
    cur: Seq<char>,
    rest: Seq<char>,
)
    requires
        resolve_rec(stack, cur, rest) is Some,
    ensures
        resolve_rec(root + stack, cur, rest) matches Some(below) && resolve_rec(stack, cur, rest)
            matches Some(alone) && below == root + alone,
    decreases rest.len(),
{
    if rest.len() == 0 {
        lemma_apply_segment_prefix(root, stack, cur);
    } else if is_sep(rest[0]) {
        lemma_apply_segment_prefix(root, stack, cur);
        if let Some(folded) = apply_segment(stack, cur) {
            lemma_resolve_rec_prefix(root, folded, Seq::empty(), rest.drop_first());
        }
    } else {
        lemma_resolve_rec_prefix(root, stack, cur.push(rest[0]), rest.drop_first());
    }
}

/// The confinement guarantee: joining an identifier the guard accepts onto
/// any resolved root yields a path that extends the root by the
/// identifier's own components — its ancestry literally starts with the
/// root, so the identifier can never navigate outside it.
pub proof fn lemma_confined_stays_under_root(root: Seq<Seq<char>>, s: Seq<char>)
    requires
        confined(s),
    ensures
        resolve(s) matches Some(segs) && resolve_under(root, s) == Some(root + segs) && (root
            + segs).subrange(0, root.len() as int) == root,
{
    let segs = resolve(s).unwrap();
    assert(root + Seq::<Seq<char>>::empty() =~= root);
    lemma_resolve_rec_prefix(root, Seq::empty(), Seq::empty(), s);
    assert((root + segs).subrange(0, root.len() as int) =~= root);
}

} // verus!
