use vstd::prelude::*;
use vstd::string::StrSliceExecFns;
use vstd::string::StringExecFns;

use crate::finfo::EntryModel;
use crate::finfo::FileMetadata;
use crate::finfo::Fileinfo;
use crate::finfo::FolderInfo;
use crate::finfo::SnapshotModel;
use crate::strutil::dec_chars;
use crate::strutil::push_char;
use crate::strutil::push_dec;

verus! {

/// Hex digit (uppercase) of a value below 16.
pub open spec fn hex_digit_char(d: u32) -> char
    recommends
        d < 16,
{
    if d < 10 {
        ((48 + d) as u8) as char
    } else {
        ((55 + d) as u8) as char
    }
}

/// JSON escape of one character: quote and backslash get a backslash, control
/// characters a `\u00XX` escape, everything else stands as it is.
pub open spec fn esc_char(c: char) -> Seq<char> {
    if c == '"' {
        seq!['\\', '"']
    } else if c == '\\' {
        seq!['\\', '\\']
    } else if (c as u32) < 32 {
        seq!['\\', 'u', '0', '0', hex_digit_char((c as u32) / 16), hex_digit_char(
            (c as u32) % 16,
        )]
    } else {
        seq![c]
    }
}

/// JSON escape of a character sequence.
pub open spec fn json_escape(s: Seq<char>) -> Seq<char>
    decreases s.len(),
{
    if s.len() == 0 {
        Seq::<char>::empty()
    } else {
        esc_char(s[0]) + json_escape(s.drop_first())
    }
}

/// A JSON string literal: the escaped characters between double quotes.
pub open spec fn json_string(s: Seq<char>) -> Seq<char> {
    seq!['"'] + json_escape(s) + seq!['"']
}

/// A JSON boolean literal.
pub open spec fn json_bool(b: bool) -> Seq<char> {
    if b {
        "true"@
    } else {
        "false"@
    }
}

/// A JSON number for an optional count of seconds: `null` when absent.
pub open spec fn json_opt_u64(v: Option<u64>) -> Seq<char> {
    match v {
        Some(n) => dec_chars(n as nat),
        None => "null"@,
    }
}

/// The JSON object for one entry's metadata.
pub open spec fn json_metadata(m: FileMetadata) -> Seq<char> {
    "{\"is_file\":"@ + json_bool(m.is_file) + ",\"is_folder\":"@ + json_bool(m.is_folder)
        + ",\"is_symlink\":"@ + json_bool(m.is_symlink) + ",\"modified\":"@ + json_opt_u64(
        m.modified,
    ) + ",\"accessed\":"@ + json_opt_u64(m.accessed) + ",\"created\":"@ + json_opt_u64(m.created)
        + ",\"size\":"@ + dec_chars(m.size as nat) + "}"@
}

/// The JSON object for one snapshot entry.
pub open spec fn json_entry(e: EntryModel) -> Seq<char> {
    "{\"name\":"@ + json_string(e.name) + ",\"path\":"@ + json_string(e.path) + ",\"urlpath\":"@
        + json_string(e.urlpath) + ",\"metadata\":"@ + (match e.metadata {
        Some(m) => json_metadata(m),
        None => "null"@,
    }) + ",\"mime_type\":"@ + (match e.mime_type {
        Some(m) => json_string(m),
        None => "null"@,
    }) + "}"@
}

/// The members of the children array, comma-separated; `first` says whether a
/// comma is owed before the next member.
pub open spec fn json_entries_from(children: Seq<EntryModel>, first: bool) -> Seq<char>
    decreases children.len(),
{
    if children.len() == 0 {
        Seq::<char>::empty()
    } else {
        (if first {
            Seq::<char>::empty()
        } else {
            seq![',']
        }) + json_entry(children[0]) + json_entries_from(children.drop_first(), false)
    }
}

/// The JSON object for a directory snapshot.
pub open spec fn json_snapshot(s: SnapshotModel) -> Seq<char> {
    "{\"name\":"@ + json_string(s.name) + ",\"path\":"@ + json_string(s.path) + ",\"urlpath\":"@
        + json_string(s.urlpath) + ",\"children\":["@ + json_entries_from(s.children, true)
        + "]}"@
}

/// The whole render context as JSON: the snapshot under `info`, beside the
/// shared values every render receives.
pub open spec fn context_json(
    snap: SnapshotModel,
    static_path: Seq<char>,
    timezone: Seq<char>,
    time_format: Seq<char>,
) -> Seq<char> {
    "{\"info\":"@ + json_snapshot(snap) + ",\"static_path\":"@ + json_string(static_path)
        + ",\"timezone\":"@ + json_string(timezone) + ",\"time_format\":"@ + json_string(
        time_format,
    ) + "}"@
}

/// Appends the JSON escape of `s`.
#[verifier::loop_isolation(false)]
pub fn append_json_escape(out: &mut String, s: &str)
    ensures
        final(out)@ == old(out)@ + json_escape(s@),
{
    let n = s.unicode_len();
    let ghost base = out@;
    proof {
        assert(s@.skip(0) == s@);
        assert(base + json_escape(s@) =~= out@ + json_escape(s@.skip(0)));
    }
    for i in 0..n
        invariant
            n == s@.len(),
            base + json_escape(s@) == out@ + json_escape(s@.skip(i as int)),
    {
        let c = s.get_char(i);
        let ghost prev = out@;
        proof {
            assert(s@.skip(i as int).len() > 0);
            assert(s@.skip(i as int)[0] == c);
            assert(s@.skip(i as int).drop_first() =~= s@.skip(i + 1));
        }
        if c == '"' {
            push_char(out, '\\');
            push_char(out, '"');
        } else if c == '\\' {
            push_char(out, '\\');
            push_char(out, '\\');
        } else if (c as u32) < 32 {
            let u = c as u32;
            push_char(out, '\\');
            push_char(out, 'u');
            push_char(out, '0');
            push_char(out, '0');
            let hi = (u / 16) as u8;
            let lo = (u % 16) as u8;
            push_char(out, if hi < 10 { (48 + hi) as char } else { (55 + hi) as char });
            push_char(out, if lo < 10 { (48 + lo) as char } else { (55 + lo) as char });
        } else {
            push_char(out, c);
        }
        proof {
            assert(out@ =~= prev + esc_char(c));
            assert(base + json_escape(s@) =~= out@ + json_escape(s@.skip(i + 1)));
        }
    }
    proof {
        assert(s@.skip(n as int) =~= Seq::<char>::empty());
        assert(final(out)@ =~= old(out)@ + json_escape(s@));
    }
}

/// Appends the JSON string literal for `s`.
pub fn append_json_string(out: &mut String, s: &str)
    ensures
        final(out)@ == old(out)@ + json_string(s@),
{
    push_char(out, '"');
    append_json_escape(out, s);
    push_char(out, '"');
    proof {
        assert(final(out)@ =~= old(out)@ + json_string(s@));
    }
}

/// Appends a JSON boolean.
pub fn append_json_bool(out: &mut String, b: bool)
    ensures
        final(out)@ == old(out)@ + json_bool(b),
{
    if b {
        out.append("true");
    } else {
        out.append("false");
    }
}

/// Appends a JSON number or `null`.
pub fn append_json_opt_u64(out: &mut String, v: &Option<u64>)
    ensures
        final(out)@ == old(out)@ + json_opt_u64(*v),
{
    match v {
        Some(n) => push_dec(*n, out),
        None => out.append("null"),
    }
}

/// Appends the JSON object for one entry's metadata.
#[verifier::rlimit(50)]
pub fn append_json_metadata(out: &mut String, m: &FileMetadata)
    ensures
        final(out)@ == old(out)@ + json_metadata(*m),
{
    out.append("{\"is_file\":");
    append_json_bool(out, m.is_file);
    out.append(",\"is_folder\":");
    append_json_bool(out, m.is_folder);
    out.append(",\"is_symlink\":");
    append_json_bool(out, m.is_symlink);
    out.append(",\"modified\":");
    append_json_opt_u64(out, &m.modified);
    out.append(",\"accessed\":");
    append_json_opt_u64(out, &m.accessed);
    out.append(",\"created\":");
    append_json_opt_u64(out, &m.created);
    out.append(",\"size\":");
    push_dec(m.size, out);
    out.append("}");
    proof {
        assert(final(out)@ =~= old(out)@ + json_metadata(*m));
    }
}

/// Appends the JSON object for one snapshot entry.
pub fn append_json_entry(out: &mut String, e: &Fileinfo)
    ensures
        final(out)@ == old(out)@ + json_entry(e@),
{
    out.append("{\"name\":");
    append_json_string(out, e.name.as_str());
    out.append(",\"path\":");
    append_json_string(out, e.path.as_str());
    out.append(",\"urlpath\":");
    append_json_string(out, e.urlpath.as_str());
    out.append(",\"metadata\":");
    match &e.metadata {
        Some(m) => append_json_metadata(out, m),
        None => out.append("null"),
    }
    out.append(",\"mime_type\":");
    match &e.mime_type {
        Some(m) => append_json_string(out, m.as_str()),
        None => out.append("null"),
    }
    out.append("}");
    proof {
        assert(final(out)@ =~= old(out)@ + json_entry(e@));
    }
}

/// Appends the comma-separated members of the children array.
#[verifier::loop_isolation(false)]
pub fn append_json_entries(out: &mut String, children: &Vec<Fileinfo>)
    ensures
        final(out)@ == old(out)@ + json_entries_from(
            children@.map_values(|c: Fileinfo| c@),
            true,
        ),
{
    let ghost cview = children@.map_values(|c: Fileinfo| c@);
    let ghost base = out@;
    let n = children.len();
    proof {
        assert(cview.skip(0) == cview);
    }
    for i in 0..n
        invariant
            n == cview.len(),
            cview == children@.map_values(|c: Fileinfo| c@),
            base + json_entries_from(cview, true) == out@ + json_entries_from(
                cview.skip(i as int),
                i == 0,
            ),
    {
        let ghost prev = out@;
        proof {
            assert(cview.skip(i as int).len() > 0);
            assert(cview.skip(i as int)[0] == cview[i as int]);
            assert(cview.skip(i as int).drop_first() =~= cview.skip(i + 1));
        }
        if i > 0 {
            push_char(out, ',');
        }
        append_json_entry(out, &children[i]);
        proof {
            assert(base + json_entries_from(cview, true) =~= out@ + json_entries_from(
                cview.skip(i + 1),
                false,
            ));
        }
    }
    proof {
        assert(cview.skip(n as int) =~= Seq::<EntryModel>::empty());
        if n == 0 {
            assert(json_entries_from(cview, true) =~= Seq::<char>::empty());
        }
        assert(final(out)@ =~= old(out)@ + json_entries_from(cview, true));
    }
}

/// Appends the JSON object for a directory snapshot.
pub fn append_json_snapshot(out: &mut String, info: &FolderInfo)
    ensures
        final(out)@ == old(out)@ + json_snapshot(info@),
{
    out.append("{\"name\":");
    append_json_string(out, info.name.as_str());
    out.append(",\"path\":");
    append_json_string(out, info.path.as_str());
    out.append(",\"urlpath\":");
    append_json_string(out, info.urlpath.as_str());
    out.append(",\"children\":[");
    append_json_entries(out, &info.children);
    out.append("]}");
    proof {
        assert(final(out)@ =~= old(out)@ + json_snapshot(info@));
    }
}

/// Serializes the whole render context: the snapshot under `info` beside the
/// shared static-path, timezone and time-format values.
pub fn render_context_json(
    info: &FolderInfo,
    static_path: &str,
    timezone: &str,
    time_format: &str,
) -> (r: String)
    ensures
        r@ == context_json(info@, static_path@, timezone@, time_format@),
{
    let mut out = String::new();
    out.append("{\"info\":");
    append_json_snapshot(&mut out, info);
    out.append(",\"static_path\":");
    append_json_string(&mut out, static_path);
    out.append(",\"timezone\":");
    append_json_string(&mut out, timezone);
    out.append(",\"time_format\":");
    append_json_string(&mut out, time_format);
    out.append("}");
    proof {
        assert(out@ =~= context_json(info@, static_path@, timezone@, time_format@));
    }
    out
}

} // verus!
