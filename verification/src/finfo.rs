use vstd::prelude::*;
use vstd::string::StrSliceExecFns;
use vstd::string::StringExecFns;
use vstd::utf8::encode_utf8;

use crate::pct::encode_segment;
use crate::pct::pct_chars;
use crate::strutil::push_char;

verus! {

/// Metadata of one directory child, as far as the stat call answered:
/// kind flags, timestamps in whole seconds since the epoch, and size in bytes.
#[derive(Clone, Copy, PartialEq, Eq, Structural)]
pub struct FileMetadata {
    pub is_file: bool,
    pub is_folder: bool,
    pub is_symlink: bool,
    pub modified: Option<u64>,
    pub accessed: Option<u64>,
    pub created: Option<u64>,
    pub size: u64,
}

/// One directory child as read from the filesystem, before the snapshot is
/// built: its name, its display path, and its metadata if the stat call
/// succeeded.
pub struct RawEntry {
    pub name: String,
    pub path: String,
    pub metadata: Option<FileMetadata>,
}

/// Model of `RawEntry` over character sequences.
pub ghost struct RawEntryModel {
    pub name: Seq<char>,
    pub path: Seq<char>,
    pub metadata: Option<FileMetadata>,
}

impl View for RawEntry {
    type V = RawEntryModel;

    open spec fn view(&self) -> RawEntryModel {
        RawEntryModel { name: self.name@, path: self.path@, metadata: self.metadata }
    }
}

/// One entry of a directory snapshot: name, display path, percent-encoded URL
/// path, optional metadata, and a best-effort MIME type guessed from the name.
pub struct Fileinfo {
    pub name: String,
    pub path: String,
    pub urlpath: String,
    pub metadata: Option<FileMetadata>,
    pub mime_type: Option<String>,
}

/// Model of `Fileinfo` over character sequences.
pub ghost struct EntryModel {
    pub name: Seq<char>,
    pub path: Seq<char>,
    pub urlpath: Seq<char>,
    pub metadata: Option<FileMetadata>,
    pub mime_type: Option<Seq<char>>,
}

impl View for Fileinfo {
    type V = EntryModel;

    open spec fn view(&self) -> EntryModel {
        EntryModel {
            name: self.name@,
            path: self.path@,
            urlpath: self.urlpath@,
            metadata: self.metadata,
            mime_type: match self.mime_type {
                Some(m) => Some(m@),
                None => None,
            },
        }
    }
}

/// A point-in-time description of one directory: its name, display path,
/// URL path, and its direct children in enumeration order.
pub struct FolderInfo {
    pub name: String,
    pub path: String,
    pub urlpath: String,
    pub children: Vec<Fileinfo>,
}

/// Model of `FolderInfo` over character sequences.
pub ghost struct SnapshotModel {
    pub name: Seq<char>,
    pub path: Seq<char>,
    pub urlpath: Seq<char>,
    pub children: Seq<EntryModel>,
}

impl View for FolderInfo {
    type V = SnapshotModel;

    open spec fn view(&self) -> SnapshotModel {
        SnapshotModel {
            name: self.name@,
            path: self.path@,
            urlpath: self.urlpath@,
            children: self.children@.map_values(|c: Fileinfo| c@),
        }
    }
}

/// The MIME type that the filename's extension suggests, if any; a pure
/// best-effort lookup from the name alone.
pub uninterp spec fn mime_of(name: Seq<char>) -> Option<Seq<char>>;

/// Relies on mime_guess::from_path: the guess is a pure table lookup keyed by
/// the file name's extension, so it depends on the name alone.
#[verifier::external_body]
pub(crate) fn guess_mime(name: &str) -> (r: Option<String>)
    ensures
        r is Some <==> mime_of(name@) is Some,
        r matches Some(m) ==> mime_of(name@) == Some(m@),
{
    mime_guess::from_path(name).first().map(|m| m.to_string())
}

/// URL path for the given segments: each segment percent-encoded, prefixed
/// with `/`, in order.
pub open spec fn urlpath_of(segments: Seq<Seq<char>>) -> Seq<char>
    decreases segments.len(),
{
    if segments.len() == 0 {
        Seq::<char>::empty()
    } else {
        seq!['/'] + pct_chars(encode_utf8(segments[0])) + urlpath_of(segments.drop_first())
    }
}

/// Appending one segment extends the URL path at its end.
pub proof fn lemma_urlpath_of_push(segments: Seq<Seq<char>>, x: Seq<char>)
    ensures
        urlpath_of(segments.push(x)) == urlpath_of(segments) + seq!['/'] + pct_chars(
            encode_utf8(x),
        ),
    decreases segments.len(),
{
    if segments.len() == 0 {
        assert(segments.push(x).drop_first() =~= Seq::<Seq<char>>::empty());
        assert(segments.push(x)[0] == x);
        assert(urlpath_of(segments.push(x)) == seq!['/'] + pct_chars(encode_utf8(x))
            + urlpath_of(Seq::<Seq<char>>::empty()));
        assert(urlpath_of(segments.push(x)) =~= urlpath_of(segments) + seq!['/'] + pct_chars(
            encode_utf8(x),
        ));
    } else {
        assert(segments.push(x).drop_first() =~= segments.drop_first().push(x));
        assert(segments.push(x)[0] == segments[0]);
        lemma_urlpath_of_push(segments.drop_first(), x);
        assert(urlpath_of(segments.push(x)) =~= urlpath_of(segments) + seq!['/'] + pct_chars(
            encode_utf8(x),
        ));
    }
}

/// Builds the URL path of the given segments, percent-encoding each.
pub fn encode_urlpath(segments: &Vec<String>) -> (r: String)
    ensures
        r@ == urlpath_of(segments@.map_values(|t: String| t@)),
{
    let ghost sview = segments@.map_values(|t: String| t@);
    let mut out = String::new();
    proof {
        assert(sview.skip(0) == sview);
    }
    for i in 0..segments.len()
        invariant
            sview == segments@.map_values(|t: String| t@),
            urlpath_of(sview) == out@ + urlpath_of(sview.skip(i as int)),
    {
        let ghost prev = out@;
        push_char(&mut out, '/');
        let enc = encode_segment(segments[i].as_str());
        out.append(enc.as_str());
        proof {
            assert(sview.skip(i as int).len() > 0);
            assert(sview.skip(i as int)[0] == sview[i as int]);
            assert(sview.skip(i as int).drop_first() =~= sview.skip(i + 1));
            assert(out@ =~= prev + (seq!['/'] + pct_chars(encode_utf8(sview[i as int]))));
            assert(urlpath_of(sview) =~= out@ + urlpath_of(sview.skip(i + 1)));
        }
    }
    proof {
        assert(sview.skip(segments.len() as int) =~= Seq::<Seq<char>>::empty());
        assert(out@ =~= out@ + urlpath_of(sview.skip(segments.len() as int)));
    }
    out
}

/// True when the entry name is excluded from the snapshot: the hide-dotfiles
/// flag is set and the name begins with a dot.
pub open spec fn hidden(name: Seq<char>, hide_dotfile: bool) -> bool {
    hide_dotfile && name.len() > 0 && name[0] == '.'
}

/// The snapshot entry a raw directory child becomes, below the directory with
/// the given resolved segments.
pub open spec fn entry_model(e: RawEntryModel, dir_segments: Seq<Seq<char>>) -> EntryModel {
    EntryModel {
        name: e.name,
        path: e.path,
        urlpath: urlpath_of(dir_segments.push(e.name)),
        metadata: e.metadata,
        mime_type: mime_of(e.name),
    }
}

/// The snapshot's children: the raw entries in enumeration order, hidden
/// names dropped, each turned into its snapshot entry.
pub open spec fn snapshot_children(
    entries: Seq<RawEntryModel>,
    dir_segments: Seq<Seq<char>>,
    hide_dotfile: bool,
) -> Seq<EntryModel>
    decreases entries.len(),
{
    if entries.len() == 0 {
        Seq::<EntryModel>::empty()
    } else {
        let rest = snapshot_children(entries.drop_first(), dir_segments, hide_dotfile);
        if hidden(entries[0].name, hide_dotfile) {
            rest
        } else {
            seq![entry_model(entries[0], dir_segments)] + rest
        }
    }
}

/// The folder's own URL path: its display path with one leading `.` removed;
/// empty when the path does not begin with `.`.
pub open spec fn strip_dot(path: Seq<char>) -> Seq<char> {
    if path.len() > 0 && path[0] == '.' {
        path.drop_first()
    } else {
        Seq::<char>::empty()
    }
}

/// The folder's display name: the last resolved segment, or empty at the base
/// directory itself.
pub open spec fn last_segment(segments: Seq<Seq<char>>) -> Seq<char> {
    if segments.len() == 0 {
        Seq::<char>::empty()
    } else {
        segments.last()
    }
}

impl Fileinfo {
    /// Builds one snapshot entry from a raw child of the directory whose
    /// resolved segments are given.
    pub fn from_entry(e: RawEntry, dir_segments: &Vec<String>) -> (r: Fileinfo)
        ensures
            r@ == entry_model(e@, dir_segments@.map_values(|t: String| t@)),
    {
        let ghost segs = dir_segments@.map_values(|t: String| t@);
        let mut urlpath = encode_urlpath(dir_segments);
        push_char(&mut urlpath, '/');
        let enc = encode_segment(e.name.as_str());
        urlpath.append(enc.as_str());
        proof {
            lemma_urlpath_of_push(segs, e.name@);
            assert(urlpath@ =~= urlpath_of(segs.push(e.name@)));
        }
        let mime_type = guess_mime(e.name.as_str());
        Fileinfo { name: e.name, path: e.path, urlpath, metadata: e.metadata, mime_type }
    }
}

impl FolderInfo {
    /// Builds the snapshot of one directory from its raw children, in
    /// enumeration order, dropping hidden names when `hide_dotfile` is set.
    pub fn new(
        path: String,
        dir_segments: &Vec<String>,
        entries: Vec<RawEntry>,
        hide_dotfile: bool,
    ) -> (r: FolderInfo)
        ensures
            r@.name == last_segment(dir_segments@.map_values(|t: String| t@)),
            r@.path == path@,
            r@.urlpath == strip_dot(path@),
            r@.children == snapshot_children(
                entries@.map_values(|e: RawEntry| e@),
                dir_segments@.map_values(|t: String| t@),
                hide_dotfile,
            ),
    {
        let ghost segs = dir_segments@.map_values(|t: String| t@);
        let ghost eview = entries@.map_values(|e: RawEntry| e@);
        let name: String = if dir_segments.len() == 0 {
            String::new()
        } else {
            dir_segments[dir_segments.len() - 1].clone()
        };
        let urlpath: String = if path.as_str().unicode_len() > 0 && path.as_str().get_char(0)
            == '.' {
            path.as_str().substring_char(1, path.as_str().unicode_len()).to_owned()
        } else {
            String::new()
        };
        proof {
            if path@.len() > 0 && path@[0] == '.' {
                assert(path@.subrange(1, path@.len() as int) =~= path@.drop_first());
            }
        }
        let mut children: Vec<Fileinfo> = Vec::new();
        let mut rest = entries;
        proof {
            assert(eview.skip(0) == eview);
            assert(children@.map_values(|c: Fileinfo| c@) =~= Seq::<EntryModel>::empty());
        }
        let n = rest.len();
        for i in 0..n
            invariant
                n == eview.len(),
                rest@.map_values(|e: RawEntry| e@) =~= eview.skip(i as int),
                segs == dir_segments@.map_values(|t: String| t@),
                snapshot_children(eview, segs, hide_dotfile) == children@.map_values(
                    |c: Fileinfo| c@,
                ) + snapshot_children(eview.skip(i as int), segs, hide_dotfile),
        {
            let ghost prev_children = children@;
            let ghost prev_rest = rest@;
            let e = rest.remove(0);
            proof {
                assert(eview.skip(i as int).len() > 0);
                assert(e@ == prev_rest.map_values(|x: RawEntry| x@)[0]);
                assert(e@ == eview.skip(i as int)[0]);
                assert(rest@ =~= prev_rest.drop_first());
                assert(rest@.map_values(|x: RawEntry| x@) =~= prev_rest.map_values(
                    |x: RawEntry| x@,
                ).drop_first());
                assert(eview.skip(i as int).drop_first() =~= eview.skip(i + 1));
                assert(rest@.map_values(|x: RawEntry| x@) =~= eview.skip(i + 1));
                assert(snapshot_children(eview.skip(i as int), segs, hide_dotfile) == (
                if hidden(eview.skip(i as int)[0].name, hide_dotfile) {
                    snapshot_children(eview.skip(i + 1), segs, hide_dotfile)
                } else {
                    seq![entry_model(eview.skip(i as int)[0], segs)] + snapshot_children(
                        eview.skip(i + 1),
                        segs,
                        hide_dotfile,
                    )
                }));
            }
            let nm_len = e.name.as_str().unicode_len();
            let is_hidden = hide_dotfile && nm_len > 0 && e.name.as_str().get_char(0) == '.';
            proof {
                assert(is_hidden == hidden(e@.name, hide_dotfile));
            }
            if !is_hidden {
                let info = Fileinfo::from_entry(e, dir_segments);
                children.push(info);
                proof {
                    assert(children@.map_values(|c: Fileinfo| c@) =~= prev_children.map_values(
                        |c: Fileinfo| c@,
                    ).push(entry_model(eview.skip(i as int)[0], segs)));
                    assert(snapshot_children(eview, segs, hide_dotfile) =~= children@.map_values(
                        |c: Fileinfo| c@,
                    ) + snapshot_children(eview.skip(i + 1), segs, hide_dotfile));
                }
            } else {
                proof {
                    assert(snapshot_children(eview, segs, hide_dotfile) =~= children@.map_values(
                        |c: Fileinfo| c@,
                    ) + snapshot_children(eview.skip(i + 1), segs, hide_dotfile));
                }
            }
        }
        proof {
            assert(eview.skip(n as int) =~= Seq::<RawEntryModel>::empty());
            assert(snapshot_children(eview, segs, hide_dotfile) =~= children@.map_values(
                |c: Fileinfo| c@,
            ));
            if segs.len() > 0 {
                assert(segs.last() == dir_segments@[dir_segments@.len() - 1]@);
            }
        }
        FolderInfo { name, path, urlpath, children }
    }
}

/// Law: the snapshot holds exactly the directory's non-hidden children. Every
/// raw entry that is not hidden appears as its snapshot entry; every snapshot
/// entry comes from some non-hidden raw entry; and with the hide flag set no
/// snapshot entry's name begins with a dot.
pub proof fn lemma_snapshot_children_exact(
    entries: Seq<RawEntryModel>,
    dir_segments: Seq<Seq<char>>,
    hide_dotfile: bool,
)
    ensures
        forall|j: int|
            0 <= j < entries.len() && !hidden(#[trigger] entries[j].name, hide_dotfile)
                ==> snapshot_children(entries, dir_segments, hide_dotfile).contains(
                entry_model(entries[j], dir_segments),
            ),
        forall|k: int|
            0 <= k < snapshot_children(entries, dir_segments, hide_dotfile).len() ==> exists|j: int|
                0 <= j < entries.len() && !hidden(entries[j].name, hide_dotfile)
                    && #[trigger] snapshot_children(entries, dir_segments, hide_dotfile)[k]
                    == entry_model(entries[j], dir_segments),
        hide_dotfile ==> forall|k: int|
            0 <= k < snapshot_children(entries, dir_segments, hide_dotfile).len()
                ==> (#[trigger] snapshot_children(entries, dir_segments, hide_dotfile)[k].name.len()
                == 0 || snapshot_children(entries, dir_segments, hide_dotfile)[k].name[0] != '.'),
    decreases entries.len(),
{
    if entries.len() == 0 {
    } else {
        lemma_snapshot_children_exact(entries.drop_first(), dir_segments, hide_dotfile);
        let rest = snapshot_children(entries.drop_first(), dir_segments, hide_dotfile);
        let whole = snapshot_children(entries, dir_segments, hide_dotfile);
        assert(forall|j: int|
            1 <= j < entries.len() ==> #[trigger] entries[j] == entries.drop_first()[j - 1]);
        if hidden(entries[0].name, hide_dotfile) {
            assert(whole == rest);
            assert(forall|j: int|
                1 <= j < entries.len() && !hidden(#[trigger] entries[j].name, hide_dotfile)
                    ==> rest.contains(entry_model(entries.drop_first()[j - 1], dir_segments)));
        } else {
            assert(whole == seq![entry_model(entries[0], dir_segments)] + rest);
            assert(whole[0] == entry_model(entries[0], dir_segments));
            assert(forall|k: int| 1 <= k < whole.len() ==> #[trigger] whole[k] == rest[k - 1]);
            assert(forall|j: int|
                1 <= j < entries.len() && !hidden(#[trigger] entries[j].name, hide_dotfile)
                    ==> rest.contains(entry_model(entries[j], dir_segments)));
            assert(forall|j: int|
                0 <= j < entries.len() && !hidden(#[trigger] entries[j].name, hide_dotfile)
                    ==> whole.contains(entry_model(entries[j], dir_segments))) by {
                assert(forall|k: int|
                    0 <= k < rest.len() && rest.contains(#[trigger] rest[k]) ==> whole.contains(
                        whole[k + 1],
                    ));
                assert(forall|j: int|
                    1 <= j < entries.len() && rest.contains(
                        #[trigger] entry_model(entries[j], dir_segments),
                    ) ==> whole.contains(entry_model(entries[j], dir_segments))) by {
                    assert forall|j: int|
                        1 <= j < entries.len() && rest.contains(
                            #[trigger] entry_model(entries[j], dir_segments),
                        ) implies whole.contains(entry_model(entries[j], dir_segments)) by {
                        let k = choose|k: int|
                            0 <= k < rest.len() && rest[k] == entry_model(
                                entries[j],
                                dir_segments,
                            );
                        assert(whole[k + 1] == entry_model(entries[j], dir_segments));
                    }
                }
            }
        }
    }
}

} // verus!
