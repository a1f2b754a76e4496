use vstd::prelude::*;
use vstd::string::StrSliceExecFns;

use crate::strutil::lemma_split_chars_no_sep;
use crate::strutil::split_chars;
use crate::strutil::split_str;
use crate::strutil::starts_with;

verus! {

/// URL prefix under which the embedded assets are served.
pub const STATIC_PREFIX: &'static str = "/static_contents";

/// Walks the pieces of a slash-split request path from position `i` with the
/// segments resolved so far in `acc`: empty pieces and `.` are dropped, `..`
/// removes the last resolved segment, and `..` at the root resolves to `None`.
pub open spec fn normalize_from(pieces: Seq<Seq<char>>, i: int, acc: Seq<Seq<char>>) -> Option<
    Seq<Seq<char>>,
>
    decreases pieces.len() - i,
{
    if i >= pieces.len() {
        Some(acc)
    } else {
        let p = pieces[i];
        if p.len() == 0 || p == seq!['.'] {
            normalize_from(pieces, i + 1, acc)
        } else if p == seq!['.', '.'] {
            if acc.len() == 0 {
                None
            } else {
                normalize_from(pieces, i + 1, acc.drop_last())
            }
        } else {
            normalize_from(pieces, i + 1, acc.push(p))
        }
    }
}

/// The path segments a request path resolves to below the base directory, or
/// `None` when its traversal steps would climb above the base directory.
pub open spec fn resolved_segments(uri: Seq<char>) -> Option<Seq<Seq<char>>> {
    normalize_from(split_chars(uri, '/'), 0, Seq::<Seq<char>>::empty())
}

/// Resolves a request path to the segments below the base directory that it
/// names; `None` when it would escape the base directory.
pub fn resolve_segments(uri: &str) -> (r: Option<Vec<String>>)
    ensures
        match r {
            Some(v) => resolved_segments(uri@) == Some(v@.map_values(|t: String| t@)),
            None => resolved_segments(uri@) is None,
        },
{
    let pieces = split_str(uri, '/');
    let ghost pview = pieces@.map_values(|t: String| t@);
    let mut acc: Vec<String> = Vec::new();
    proof {
        assert(acc@.map_values(|t: String| t@) =~= Seq::<Seq<char>>::empty());
    }
    for i in 0..pieces.len()
        invariant
            pview == pieces@.map_values(|t: String| t@),
            resolved_segments(uri@) == normalize_from(
                pview,
                i as int,
                acc@.map_values(|t: String| t@),
            ),
    {
        let ghost prev_acc = acc@;
        let p = &pieces[i];
        let n = p.as_str().unicode_len();
        if n == 0 {
            proof {
                assert(pview[i as int].len() == 0);
            }
        } else if n == 1 && p.as_str().get_char(0) == '.' {
            proof {
                assert(pview[i as int] =~= seq!['.']);
            }
        } else if n == 2 && p.as_str().get_char(0) == '.' && p.as_str().get_char(1) == '.' {
            proof {
                assert(pview[i as int] =~= seq!['.', '.']);
            }
            if acc.len() == 0 {
                proof {
                    assert(acc@.map_values(|t: String| t@).len() == 0);
                }
                return None;
            }
            acc.pop();
            proof {
                assert(acc@.map_values(|t: String| t@) =~= prev_acc.map_values(
                    |t: String| t@,
                ).drop_last());
            }
        } else {
            proof {
                assert(pview[i as int].len() > 0);
                assert(pview[i as int] != seq!['.'] && pview[i as int] != seq!['.', '.']) by {
                    if n == 1 {
                        assert(pview[i as int][0] != '.');
                    }
                    if n == 2 {
                        assert(pview[i as int][0] != '.' || pview[i as int][1] != '.');
                    }
                }
            }
            acc.push(p.clone());
            proof {
                assert(acc@.map_values(|t: String| t@) =~= prev_acc.map_values(
                    |t: String| t@,
                ).push(p@));
            }
        }
    }
    Some(acc)
}

/// A segment that may safely be joined below the base directory: non-empty,
/// not a traversal step, and free of path separators.
pub open spec fn safe_segment(seg: Seq<char>) -> bool {
    seg.len() > 0 && seg != seq!['.'] && seg != seq!['.', '.'] && (forall|k: int|
        0 <= k < seg.len() ==> seg[k] != '/')
}

proof fn lemma_normalize_from_safe(pieces: Seq<Seq<char>>, i: int, acc: Seq<Seq<char>>)
    requires
        0 <= i,
        forall|j: int| 0 <= j < acc.len() ==> safe_segment(#[trigger] acc[j]),
        forall|j: int, k: int|
            0 <= j < pieces.len() && 0 <= k < pieces[j].len() ==> #[trigger] pieces[j][k] != '/',
    ensures
        normalize_from(pieces, i, acc) matches Some(segs) ==> forall|j: int|
            0 <= j < segs.len() ==> safe_segment(#[trigger] segs[j]),
    decreases pieces.len() - i,
{
    if i >= pieces.len() {
    } else {
        let p = pieces[i];
        if p.len() == 0 || p == seq!['.'] {
            lemma_normalize_from_safe(pieces, i + 1, acc);
        } else if p == seq!['.', '.'] {
            if acc.len() != 0 {
                lemma_normalize_from_safe(pieces, i + 1, acc.drop_last());
            }
        } else {
            assert(forall|k: int| 0 <= k < p.len() ==> #[trigger] pieces[i][k] != '/');
            assert(forall|k: int| 0 <= k < p.len() ==> #[trigger] p[k] != '/') by {
                assert(forall|k: int| 0 <= k < p.len() ==> p[k] == pieces[i][k]);
            }
            assert(safe_segment(p));
            lemma_normalize_from_safe(pieces, i + 1, acc.push(p));
        }
    }
}

/// Law: a resolved request path never holds a traversal step. Every segment is
/// non-empty, is neither `.` nor `..`, and has no path separator, so joining
/// the segments onto the base directory names a path at or below it; a path
/// whose traversal would climb above the base directory resolves to `None`
/// and is answered without touching the filesystem.
pub proof fn lemma_resolved_segments_safe(uri: Seq<char>)
    ensures
        resolved_segments(uri) matches Some(segs) ==> forall|j: int|
            0 <= j < segs.len() ==> safe_segment(#[trigger] segs[j]),
{
    lemma_split_chars_no_sep(uri, '/');
    lemma_normalize_from_safe(split_chars(uri, '/'), 0, Seq::<Seq<char>>::empty());
}

/// What a request path turned out to name, in the order the dispatcher
/// checks: a regular file, a directory, an embedded asset, nothing, or a
/// target whose existence could not be settled.
pub enum ResolvedTarget {
    File(String),
    Directory(String),
    StaticAsset(String),
    Missing,
    Invalid,
}

/// Model of `ResolvedTarget` over character sequences.
pub ghost enum TargetModel {
    File(Seq<char>),
    Directory(Seq<char>),
    StaticAsset(Seq<char>),
    Missing,
    Invalid,
}

impl View for ResolvedTarget {
    type V = TargetModel;

    open spec fn view(&self) -> TargetModel {
        match self {
            ResolvedTarget::File(p) => TargetModel::File(p@),
            ResolvedTarget::Directory(p) => TargetModel::Directory(p@),
            ResolvedTarget::StaticAsset(p) => TargetModel::StaticAsset(p@),
            ResolvedTarget::Missing => TargetModel::Missing,
            ResolvedTarget::Invalid => TargetModel::Invalid,
        }
    }
}

/// What the filesystem said about the resolved local path: whether it is a
/// regular file, a directory, and whether it exists (`None` when the
/// existence check itself failed).
#[derive(Clone, Copy)]
pub struct FsProbe {
    pub is_file: bool,
    pub is_dir: bool,
    pub exists: Option<bool>,
}

/// Classification of a request: an existing file is served as a file, an
/// existing directory as a listing; only then is the static-asset prefix
/// consulted on the original request path; a target that provably does not
/// exist is missing, and one whose existence check failed is invalid.
pub open spec fn classify_spec(uri: Seq<char>, local: Seq<char>, probe: FsProbe) -> TargetModel {
    if probe.is_file {
        TargetModel::File(local)
    } else if probe.is_dir {
        TargetModel::Directory(local)
    } else if starts_with(uri, "/static_contents"@) {
        TargetModel::StaticAsset(uri.skip("/static_contents"@.len() as int))
    } else if probe.exists == Some(false) {
        TargetModel::Missing
    } else {
        TargetModel::Invalid
    }
}

/// Classifies the target of a request path, given the filesystem's answers
/// about the local path it resolved to.
pub fn classify(uri: &str, local: String, probe: FsProbe) -> (r: ResolvedTarget)
    ensures
        r@ == classify_spec(uri@, local@, probe),
{
    if probe.is_file {
        ResolvedTarget::File(local)
    } else if probe.is_dir {
        ResolvedTarget::Directory(local)
    } else {
        let prefix = STATIC_PREFIX;
        if crate::strutil::str_starts_with(uri, prefix) {
            let n = uri.unicode_len();
            let p = prefix.unicode_len();
            let rest = uri.substring_char(p, n).to_owned();
            proof {
                assert(uri@.subrange(p as int, n as int) =~= uri@.skip(
                    "/static_contents"@.len() as int,
                ));
            }
            ResolvedTarget::StaticAsset(rest)
        } else if probe.exists == Some(false) {
            ResolvedTarget::Missing
        } else {
            ResolvedTarget::Invalid
        }
    }
}

} // verus!
