use vstd::prelude::*;
use vstd::slice::slice_to_vec;
use vstd::string::StrSliceExecFns;
use vstd::string::StringExecFns;

use crate::finfo::FolderInfo;
use crate::finfo::SnapshotModel;
use crate::json::context_json;
use crate::json::render_context_json;
use crate::resolve::STATIC_PREFIX;
use crate::response::asset_model;
use crate::response::asset_response;
use crate::response::bad_request_model;
use crate::response::bad_request_response;
use crate::response::internal_error_model;
use crate::response::internal_error_response;
use crate::response::not_found_model;
use crate::response::not_found_response;
use crate::response::rendered_model;
use crate::response::rendered_response;
use crate::response::HttpResponse;
use crate::response::ResponseModel;
use crate::strutil::split_chars;
use crate::template::bundle_lookup;
use crate::template::bundle_view;
use crate::template::registry_lookup;
use crate::template::registry_view;
use crate::template::AssetBundle;
use crate::template::ResolvedModel;
use crate::template::TemplateRegistry;

verus! {

/// The key-value pairs of a query string: pieces split on `&`, key and value
/// the first two `=`-separated parts of each piece; a piece without `=` is
/// dropped.
pub open spec fn query_pairs_of(pieces: Seq<Seq<char>>) -> Seq<(Seq<char>, Seq<char>)>
    decreases pieces.len(),
{
    if pieces.len() == 0 {
        Seq::<(Seq<char>, Seq<char>)>::empty()
    } else {
        let parts = split_chars(pieces[0], '=');
        let rest = query_pairs_of(pieces.drop_first());
        if parts.len() >= 2 {
            seq![(parts[0], parts[1])] + rest
        } else {
            rest
        }
    }
}

/// Parse of a whole query string.
pub open spec fn parse_query(q: Seq<char>) -> Seq<(Seq<char>, Seq<char>)> {
    query_pairs_of(split_chars(q, '&'))
}

/// Relies on querystring::querify: the query splits on `&`, each piece on `=`,
/// key and value being the first two parts; a piece without `=` is dropped.
#[verifier::external_body]
pub(crate) fn parse_query_pairs(q: &str) -> (r: Vec<(String, String)>)
    ensures
        r@.map_values(|p: (String, String)| (p.0@, p.1@)) == parse_query(q@),
{
    querystring::querify(q).into_iter().map(|p| (p.0.to_string(), p.1.to_string())).collect()
}

/// Value of the first pair under the given key, if any.
pub open spec fn query_get(q: Seq<(Seq<char>, Seq<char>)>, key: Seq<char>) -> Option<Seq<char>>
    decreases q.len(),
{
    if q.len() == 0 {
        None
    } else if q[0].0 == key {
        Some(q[0].1)
    } else {
        query_get(q.drop_first(), key)
    }
}

/// Finds the value of the first query pair with the given key.
pub fn getvalue_from_query<'a>(q: &'a Vec<(String, String)>, key: &str) -> (r: Option<&'a String>)
    ensures
        match r {
            Some(v) => query_get(
                q@.map_values(|p: (String, String)| (p.0@, p.1@)),
                key@,
            ) == Some(v@),
            None => query_get(q@.map_values(|p: (String, String)| (p.0@, p.1@)), key@) is None,
        },
{
    let ghost qview = q@.map_values(|p: (String, String)| (p.0@, p.1@));
    proof {
        assert(qview.skip(0) == qview);
    }
    let n = q.len();
    for i in 0..n
        invariant
            n == q.len(),
            qview == q@.map_values(|p: (String, String)| (p.0@, p.1@)),
            query_get(qview, key@) == query_get(qview.skip(i as int), key@),
    {
        proof {
            assert(qview.skip(i as int).len() > 0);
            assert(qview.skip(i as int)[0] == qview[i as int]);
            assert(qview.skip(i as int).drop_first() =~= qview.skip(i + 1));
        }
        if crate::strutil::str_eq(q[i].0.as_str(), key) {
            return Some(&q[i].1);
        }
    }
    proof {
        assert(qview.skip(n as int) =~= Seq::<(Seq<char>, Seq<char>)>::empty());
    }
    None
}

/// Value of the first `key` pair of a raw query string, if any.
pub fn query_value(raw_query: &str, key: &str) -> (r: Option<String>)
    ensures
        match r {
            Some(v) => query_get(parse_query(raw_query@), key@) == Some(v@),
            None => query_get(parse_query(raw_query@), key@) is None,
        },
{
    let pairs = parse_query_pairs(raw_query);
    match getvalue_from_query(&pairs, key) {
        Some(v) => Some(v.clone()),
        None => None,
    }
}

/// The shared render values, fixed at startup.
pub struct RenderSettings {
    pub default_type: String,
    pub timezone: String,
    pub time_format: String,
}

/// Model of `RenderSettings` over character sequences.
pub ghost struct RenderSettingsModel {
    pub default_type: Seq<char>,
    pub timezone: Seq<char>,
    pub time_format: Seq<char>,
}

impl View for RenderSettings {
    type V = RenderSettingsModel;

    open spec fn view(&self) -> RenderSettingsModel {
        RenderSettingsModel {
            default_type: self.default_type@,
            timezone: self.timezone@,
            time_format: self.time_format@,
        }
    }
}

/// The representation name a request asks for: the `type` query parameter when
/// present and non-empty, the configured default otherwise.
pub open spec fn negotiated_name(q: Seq<(Seq<char>, Seq<char>)>, default_type: Seq<char>) -> Seq<
    char,
> {
    match query_get(q, "type"@) {
        Some(v) => if v.len() > 0 {
            v
        } else {
            default_type
        },
        None => default_type,
    }
}

/// The template a directory request renders with: the negotiated name looked
/// up in the registry; `None` when that name is unknown or disabled.
pub open spec fn negotiate_spec(
    reg: Seq<ResolvedModel>,
    q: Seq<(Seq<char>, Seq<char>)>,
    default_type: Seq<char>,
) -> Option<ResolvedModel> {
    registry_lookup(reg, negotiated_name(q, default_type))
}

/// The render plan of a directory request: the negotiated template and the
/// exact context the engine receives; `None` is the client's error.
pub open spec fn directory_plan(
    reg: Seq<ResolvedModel>,
    settings: RenderSettingsModel,
    snap: SnapshotModel,
    raw_query: Seq<char>,
) -> Option<(ResolvedModel, Seq<char>)> {
    match negotiate_spec(reg, parse_query(raw_query), settings.default_type) {
        None => None,
        Some(t) => Some(
            (
                t,
                context_json(
                    snap,
                    "/static_contents"@,
                    settings.timezone,
                    settings.time_format,
                ),
            ),
        ),
    }
}

/// The response of a directory request, given what the template engine
/// returned: 400 when the negotiated name is unknown, 500 when the engine
/// failed, otherwise 200 with the rendered text under the template's declared
/// content type.
pub open spec fn directory_response_spec(
    reg: Seq<ResolvedModel>,
    settings: RenderSettingsModel,
    snap: SnapshotModel,
    raw_query: Seq<char>,
    rendered: Option<Seq<char>>,
) -> ResponseModel {
    match directory_plan(reg, settings, snap, raw_query) {
        None => bad_request_model(),
        Some(p) => match rendered {
            Some(body) => rendered_model(p.0.content_type, body),
            None => internal_error_model(),
        },
    }
}

/// Serves one directory request: negotiates the representation, renders the
/// snapshot, and answers 400 for an unknown representation name, 500 for a
/// render failure, and otherwise 200 under the template's declared content
/// type. The response is `directory_response_spec` of what the engine
/// returned.
pub fn handle_directory(
    registry: &TemplateRegistry,
    settings: &RenderSettings,
    info: &FolderInfo,
    raw_query: &str,
) -> (r: HttpResponse)
    ensures
        exists|rendered: Option<Seq<char>>|
            r@ == directory_response_spec(
                registry_view(registry),
                settings@,
                info@,
                raw_query@,
                rendered,
            ),
        directory_plan(registry_view(registry), settings@, info@, raw_query@) is None ==> r@
            == bad_request_model(),
{
    let pairs = parse_query_pairs(raw_query);
    let chosen: &String = match getvalue_from_query(&pairs, "type") {
        Some(v) => if v.as_str().unicode_len() > 0 {
            v
        } else {
            &settings.default_type
        },
        None => &settings.default_type,
    };
    proof {
        assert(chosen@ == negotiated_name(parse_query(raw_query@), settings@.default_type));
    }
    match registry.find(chosen.as_str()) {
        None => {
            let r = bad_request_response();
            proof {
                let rendered = None::<Seq<char>>;
                assert(r@ == directory_response_spec(
                    registry_view(registry),
                    settings@,
                    info@,
                    raw_query@,
                    rendered,
                ));
            }
            r
        },
        Some(t) => {
            let ctx = render_context_json(
                info,
                STATIC_PREFIX,
                settings.timezone.as_str(),
                settings.time_format.as_str(),
            );
            match t.render(ctx.as_str()) {
                Some((content_type, body)) => {
                    let r = rendered_response(content_type, body.as_str());
                    proof {
                        let rendered = Some(body@);
                        assert(r@ == directory_response_spec(
                            registry_view(registry),
                            settings@,
                            info@,
                            raw_query@,
                            rendered,
                        ));
                    }
                    r
                },
                None => {
                    let r = internal_error_response();
                    proof {
                        let rendered = None::<Seq<char>>;
                        assert(r@ == directory_response_spec(
                            registry_view(registry),
                            settings@,
                            info@,
                            raw_query@,
                            rendered,
                        ));
                    }
                    r
                },
            }
        },
    }
}

/// The bundle key an asset request resolves to: the logical path with one
/// leading slash removed, below the bundle's `static` directory.
pub open spec fn asset_key(logical: Seq<char>) -> Seq<char> {
    "static/"@ + (if logical.len() > 0 && logical[0] == '/' {
        logical.drop_first()
    } else {
        logical
    })
}

/// The response of an asset request: the asset's bytes under a long-lived
/// cache-control header, or the not-found response when the bundle has no
/// such asset.
pub open spec fn static_response_spec(
    bundle: Seq<(Seq<char>, Seq<u8>)>,
    logical: Seq<char>,
) -> ResponseModel {
    match bundle_lookup(bundle, asset_key(logical)) {
        Some(bytes) => asset_model(bytes),
        None => not_found_model(),
    }
}

/// Serves one embedded-asset request.
pub fn static_response(bundle: &AssetBundle, logical: &str) -> (r: HttpResponse)
    ensures
        r@ == static_response_spec(bundle_view(bundle), logical@),
{
    let mut key = String::from_str("static/");
    let n = logical.unicode_len();
    if n > 0 && logical.get_char(0) == '/' {
        let rest = logical.substring_char(1, n);
        key.append(rest);
        proof {
            assert(logical@.subrange(1, n as int) =~= logical@.drop_first());
        }
    } else {
        key.append(logical);
    }
    match bundle.get(key.as_str()) {
        Some(bytes) => asset_response(slice_to_vec(bytes.as_slice())),
        None => not_found_response(),
    }
}

/// Law: one request, one response, and the same request draws the same
/// response. Every branch of the dispatcher is a function of the request and
/// of what the process read: the directory branch of the registry, settings,
/// snapshot and query together with the one value the template engine
/// returned, the asset branch of the bundle and the logical path alone. Equal
/// inputs therefore give byte-identical responses.
pub proof fn lemma_response_idempotent(
    reg1: Seq<ResolvedModel>,
    reg2: Seq<ResolvedModel>,
    settings1: RenderSettingsModel,
    settings2: RenderSettingsModel,
    snap1: SnapshotModel,
    snap2: SnapshotModel,
    raw_query1: Seq<char>,
    raw_query2: Seq<char>,
    rendered1: Option<Seq<char>>,
    rendered2: Option<Seq<char>>,
    bundle1: Seq<(Seq<char>, Seq<u8>)>,
    bundle2: Seq<(Seq<char>, Seq<u8>)>,
    logical1: Seq<char>,
    logical2: Seq<char>,
)
    requires
        reg1 == reg2,
        settings1 == settings2,
        snap1 == snap2,
        raw_query1 == raw_query2,
        rendered1 == rendered2,
        bundle1 == bundle2,
        logical1 == logical2,
    ensures
        directory_plan(reg1, settings1, snap1, raw_query1) == directory_plan(
            reg2,
            settings2,
            snap2,
            raw_query2,
        ),
        directory_response_spec(reg1, settings1, snap1, raw_query1, rendered1)
            == directory_response_spec(reg2, settings2, snap2, raw_query2, rendered2),
        static_response_spec(bundle1, logical1) == static_response_spec(bundle2, logical2),
{
}

} // verus!
