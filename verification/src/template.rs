use vstd::prelude::*;
use vstd::slice::slice_to_vec;
use vstd::utf8::decode_utf8;
use vstd::utf8::valid_utf8;

use crate::strutil::str_eq;
use crate::strutil::string_from_utf8;

verus! {

/// Where a template's text comes from: a reference into the embedded asset
/// bundle, or inline text given directly in the configuration.
pub enum TemplateContent {
    Path { path: String, is_embedded: bool },
    Content(String),
}

/// Model of `TemplateContent` over character sequences.
pub ghost enum ContentModel {
    Path { path: Seq<char>, is_embedded: bool },
    Content(Seq<char>),
}

impl View for TemplateContent {
    type V = ContentModel;

    open spec fn view(&self) -> ContentModel {
        match self {
            TemplateContent::Path { path, is_embedded } => ContentModel::Path {
                path: path@,
                is_embedded: *is_embedded,
            },
            TemplateContent::Content(s) => ContentModel::Content(s@),
        }
    }
}

/// A named output representation: its content source and the content type the
/// response declares when it is rendered.
pub struct Template {
    pub name: String,
    pub content: TemplateContent,
    pub content_type: String,
}

/// Model of `Template` over character sequences.
pub ghost struct TemplateModel {
    pub name: Seq<char>,
    pub content: ContentModel,
    pub content_type: Seq<char>,
}

impl View for Template {
    type V = TemplateModel;

    open spec fn view(&self) -> TemplateModel {
        TemplateModel { name: self.name@, content: self.content@, content_type: self.content_type@ }
    }
}

/// One template definition as the configuration gave it, reduced to plain
/// values: each field absent when the configuration did not set it.
pub struct TemplateDef {
    pub disabled: Option<bool>,
    pub path: Option<String>,
    pub is_embedded: Option<bool>,
    pub content: Option<String>,
    pub content_type: Option<String>,
}

/// Model of `TemplateDef` over character sequences.
pub ghost struct TemplateDefModel {
    pub disabled: Option<bool>,
    pub path: Option<Seq<char>>,
    pub is_embedded: Option<bool>,
    pub content: Option<Seq<char>>,
    pub content_type: Option<Seq<char>>,
}

impl View for TemplateDef {
    type V = TemplateDefModel;

    open spec fn view(&self) -> TemplateDefModel {
        TemplateDefModel {
            disabled: self.disabled,
            path: match self.path {
                Some(s) => Some(s@),
                None => None,
            },
            is_embedded: self.is_embedded,
            content: match self.content {
                Some(s) => Some(s@),
                None => None,
            },
            content_type: match self.content_type {
                Some(s) => Some(s@),
                None => None,
            },
        }
    }
}

/// Why the registry could not be built: a definition with neither inline
/// content nor an embedded reference, or a reference whose content cannot be
/// resolved at startup.
#[derive(Clone, Copy, PartialEq, Eq, Structural, Debug)]
pub enum TemplateError {
    MissingContent,
    UnresolvedContent,
}

/// The template a definition turns into: `None` when it is disabled, an error
/// when neither content nor a path is present.
pub open spec fn template_from_spec(name: Seq<char>, d: TemplateDefModel) -> Result<
    Option<TemplateModel>,
    TemplateError,
> {
    if d.disabled == Some(true) {
        Ok(None)
    } else {
        let content_type = match d.content_type {
            Some(t) => t,
            None => "text/html; charset=UTF-8"@,
        };
        if d.path is Some {
            Ok(
                Some(
                    TemplateModel {
                        name: name,
                        content: ContentModel::Path {
                            path: d.path->Some_0,
                            is_embedded: d.is_embedded == Some(true),
                        },
                        content_type: content_type,
                    },
                ),
            )
        } else if d.content is Some {
            Ok(
                Some(
                    TemplateModel {
                        name: name,
                        content: ContentModel::Content(d.content->Some_0),
                        content_type: content_type,
                    },
                ),
            )
        } else {
            Err(TemplateError::MissingContent)
        }
    }
}

impl Template {
    /// Turns one named configuration definition into a template: a disabled
    /// definition yields `None`, one with a path an embedded or external
    /// reference, one with inline content that content, and one with neither
    /// is rejected.
    pub fn from(name: String, def: TemplateDef) -> (r: Result<Option<Template>, TemplateError>)
        ensures
            match r {
                Ok(Some(t)) => template_from_spec(name@, def@) == Ok::<
                    Option<TemplateModel>,
                    TemplateError,
                >(Some(t@)),
                Ok(None) => template_from_spec(name@, def@) == Ok::<
                    Option<TemplateModel>,
                    TemplateError,
                >(None::<TemplateModel>),
                Err(e) => template_from_spec(name@, def@) == Err::<
                    Option<TemplateModel>,
                    TemplateError,
                >(e),
            },
    {
        if let Some(true) = def.disabled {
            return Ok(None);
        }
        let content_type = match def.content_type {
            Some(t) => t,
            None => String::from_str("text/html; charset=UTF-8"),
        };
        if let Some(path) = def.path {
            let is_embedded = match def.is_embedded {
                Some(b) => b,
                None => false,
            };
            Ok(Some(Template { name, content: TemplateContent::Path { path, is_embedded }, content_type }))
        } else if let Some(content) = def.content {
            Ok(Some(Template { name, content: TemplateContent::Content(content), content_type }))
        } else {
            Err(TemplateError::MissingContent)
        }
    }
}

/// The assets bundled with the process, each under its logical path.
pub struct AssetBundle {
    pub files: Vec<(String, Vec<u8>)>,
}

/// Model of `AssetBundle`: the logical paths and contents, in order.
pub open spec fn bundle_view(b: &AssetBundle) -> Seq<(Seq<char>, Seq<u8>)> {
    b.files@.map_values(|p: (String, Vec<u8>)| (p.0@, p.1@))
}

/// First asset under the given logical path, if any.
pub open spec fn bundle_lookup(files: Seq<(Seq<char>, Seq<u8>)>, name: Seq<char>) -> Option<Seq<u8>>
    decreases files.len(),
{
    if files.len() == 0 {
        None
    } else if files[0].0 == name {
        Some(files[0].1)
    } else {
        bundle_lookup(files.drop_first(), name)
    }
}

impl AssetBundle {
    /// Looks an asset up by its logical path.
    pub fn get(&self, name: &str) -> (r: Option<&Vec<u8>>)
        ensures
            match r {
                Some(b) => bundle_lookup(bundle_view(self), name@) == Some(b@),
                None => bundle_lookup(bundle_view(self), name@) is None,
            },
    {
        let ghost fview = bundle_view(self);
        proof {
            assert(fview.skip(0) == fview);
        }
        let n = self.files.len();
        for i in 0..n
            invariant
                n == self.files.len(),
                fview == bundle_view(self),
                bundle_lookup(fview, name@) == bundle_lookup(fview.skip(i as int), name@),
        {
            proof {
                assert(fview.skip(i as int).len() > 0);
                assert(fview.skip(i as int)[0] == fview[i as int]);
                assert(fview.skip(i as int).drop_first() =~= fview.skip(i + 1));
            }
            if str_eq(self.files[i].0.as_str(), name) {
                return Some(&self.files[i].1);
            }
        }
        proof {
            assert(fview.skip(n as int) =~= Seq::<(Seq<char>, Seq<u8>)>::empty());
        }
        None
    }
}

/// The text a template resolves to against the bundle: inline content as it
/// stands; an embedded reference as the asset's text, empty when the asset is
/// not UTF-8; `None` when the asset is absent or the reference is not into
/// the bundle — a startup error either way.
pub open spec fn content_of(t: TemplateModel, bundle: Seq<(Seq<char>, Seq<u8>)>) -> Option<
    Seq<char>,
> {
    match t.content {
        ContentModel::Content(s) => Some(s),
        ContentModel::Path { path, is_embedded } => if is_embedded {
            match bundle_lookup(bundle, path) {
                Some(bytes) => if valid_utf8(bytes) {
                    Some(decode_utf8(bytes))
                } else {
                    Some(Seq::<char>::empty())
                },
                None => None,
            }
        } else {
            None
        },
    }
}

impl Template {
    /// Resolves this template's text against the asset bundle.
    pub fn get_content(&self, bundle: &AssetBundle) -> (r: Option<String>)
        ensures
            match r {
                Some(s) => content_of(self@, bundle_view(bundle)) == Some(s@),
                None => content_of(self@, bundle_view(bundle)) is None,
            },
    {
        broadcast use vstd::utf8::encode_utf8_decode_utf8;

        match &self.content {
            TemplateContent::Content(s) => Some(s.clone()),
            TemplateContent::Path { path, is_embedded } => {
                if !*is_embedded {
                    return None;
                }
                match bundle.get(path.as_str()) {
                    None => None,
                    Some(bytes) => {
                        let copy: Vec<u8> = slice_to_vec(bytes.as_slice());
                        match string_from_utf8(copy) {
                            Some(s) => Some(s),
                            None => Some(String::new()),
                        }
                    },
                }
            },
        }
    }
}

/// One registry entry: a template with its text already resolved, so that
/// rendering never looks at the content source again.
pub struct ResolvedTemplate {
    pub name: String,
    pub content: String,
    pub content_type: String,
}

/// Model of `ResolvedTemplate` over character sequences.
pub ghost struct ResolvedModel {
    pub name: Seq<char>,
    pub content: Seq<char>,
    pub content_type: Seq<char>,
}

impl View for ResolvedTemplate {
    type V = ResolvedModel;

    open spec fn view(&self) -> ResolvedModel {
        ResolvedModel {
            name: self.name@,
            content: self.content@,
            content_type: self.content_type@,
        }
    }
}

/// The registry of enabled templates, immutable once built.
pub struct TemplateRegistry {
    pub templates: Vec<ResolvedTemplate>,
}

/// Model of `TemplateRegistry`: the resolved templates, in definition order.
pub open spec fn registry_view(r: &TemplateRegistry) -> Seq<ResolvedModel> {
    r.templates@.map_values(|t: ResolvedTemplate| t@)
}

/// What building the registry from the given definitions yields: the enabled
/// templates resolved in order, or the first startup error.
pub open spec fn build_registry_spec(
    defs: Seq<(Seq<char>, TemplateDefModel)>,
    bundle: Seq<(Seq<char>, Seq<u8>)>,
) -> Result<Seq<ResolvedModel>, TemplateError>
    decreases defs.len(),
{
    if defs.len() == 0 {
        Ok(Seq::<ResolvedModel>::empty())
    } else {
        match template_from_spec(defs[0].0, defs[0].1) {
            Err(e) => Err(e),
            Ok(None) => build_registry_spec(defs.drop_first(), bundle),
            Ok(Some(t)) => match content_of(t, bundle) {
                None => Err(TemplateError::UnresolvedContent),
                Some(c) => match build_registry_spec(defs.drop_first(), bundle) {
                    Err(e) => Err(e),
                    Ok(s) => Ok(
                        seq![
                            ResolvedModel {
                                name: t.name,
                                content: c,
                                content_type: t.content_type,
                            },
                        ] + s,
                    ),
                },
            },
        }
    }
}

spec fn prepend_built(done: Seq<ResolvedModel>, rest: Result<Seq<ResolvedModel>, TemplateError>) -> Result<
    Seq<ResolvedModel>,
    TemplateError,
> {
    match rest {
        Ok(s) => Ok(done + s),
        Err(e) => Err(e),
    }
}

/// Builds the registry once at startup: every enabled definition becomes a
/// resolved template, in order; the first invalid definition or unresolvable
/// reference is the startup error, and nothing is served.
#[verifier::loop_isolation(false)]
pub fn build_registry(defs: Vec<(String, TemplateDef)>, bundle: &AssetBundle) -> (r: Result<
    TemplateRegistry,
    TemplateError,
>)
    ensures
        match r {
            Ok(reg) => build_registry_spec(
                defs@.map_values(|d: (String, TemplateDef)| (d.0@, d.1@)),
                bundle_view(bundle),
            ) == Ok::<Seq<ResolvedModel>, TemplateError>(registry_view(&reg)),
            Err(e) => build_registry_spec(
                defs@.map_values(|d: (String, TemplateDef)| (d.0@, d.1@)),
                bundle_view(bundle),
            ) == Err::<Seq<ResolvedModel>, TemplateError>(e),
        },
{
    let ghost dview = defs@.map_values(|d: (String, TemplateDef)| (d.0@, d.1@));
    let ghost bview = bundle_view(bundle);
    proof {
        assert(defs@.map_values(|d: (String, TemplateDef)| (d.0@, d.1@)) == dview);
    }
    let mut out: Vec<ResolvedTemplate> = Vec::new();
    let mut rest = defs;
    let n = rest.len();
    proof {
        assert(dview.skip(0) == dview);
        assert(out@.map_values(|t: ResolvedTemplate| t@) =~= Seq::<ResolvedModel>::empty());
    }
    for i in 0..n
        invariant
            n == dview.len(),
            bview == bundle_view(bundle),
            rest@.map_values(|d: (String, TemplateDef)| (d.0@, d.1@)) =~= dview.skip(i as int),
            build_registry_spec(dview, bview) == prepend_built(
                out@.map_values(|t: ResolvedTemplate| t@),
                build_registry_spec(dview.skip(i as int), bview),
            ),
    {
        let ghost prev_out = out@;
        let ghost prev_rest = rest@;
        let (name, def) = rest.remove(0);
        proof {
            assert(dview.skip(i as int).len() > 0);
            assert((name@, def@) == prev_rest.map_values(
                |d: (String, TemplateDef)| (d.0@, d.1@),
            )[0]);
            assert((name@, def@) == dview.skip(i as int)[0]);
            assert(rest@ =~= prev_rest.drop_first());
            assert(rest@.map_values(|d: (String, TemplateDef)| (d.0@, d.1@)) =~= prev_rest
                .map_values(|d: (String, TemplateDef)| (d.0@, d.1@)).drop_first());
            assert(dview.skip(i as int).drop_first() =~= dview.skip(i + 1));
        }
        match Template::from(name, def) {
            Err(e) => {
                proof {
                    assert(build_registry_spec(dview.skip(i as int), bview) == Err::<
                        Seq<ResolvedModel>,
                        TemplateError,
                    >(e));
                }
                return Err(e);
            },
            Ok(None) => {
                proof {
                    assert(build_registry_spec(dview.skip(i as int), bview)
                        == build_registry_spec(dview.skip(i + 1), bview));
                }
            },
            Ok(Some(t)) => {
                let ghost t_v = t@;
                match t.get_content(bundle) {
                    None => {
                        proof {
                            assert(build_registry_spec(dview.skip(i as int), bview) == Err::<
                                Seq<ResolvedModel>,
                                TemplateError,
                            >(TemplateError::UnresolvedContent));
                        }
                        return Err(TemplateError::UnresolvedContent);
                    },
                    Some(content) => {
                        let resolved = ResolvedTemplate {
                            name: t.name,
                            content,
                            content_type: t.content_type,
                        };
                        out.push(resolved);
                        proof {
                            assert(out@.map_values(|x: ResolvedTemplate| x@) =~= prev_out
                                .map_values(|x: ResolvedTemplate| x@).push(
                                ResolvedModel {
                                    name: t_v.name,
                                    content: content@,
                                    content_type: t_v.content_type,
                                },
                            ));
                            let rest_spec = build_registry_spec(dview.skip(i + 1), bview);
                            assert(build_registry_spec(dview.skip(i as int), bview)
                                == prepend_built(
                                seq![
                                    ResolvedModel {
                                        name: t_v.name,
                                        content: content@,
                                        content_type: t_v.content_type,
                                    },
                                ],
                                rest_spec,
                            ));
                            if rest_spec is Ok {
                                assert(prev_out.map_values(|x: ResolvedTemplate| x@) + (seq![
                                    ResolvedModel {
                                        name: t_v.name,
                                        content: content@,
                                        content_type: t_v.content_type,
                                    },
                                ] + rest_spec->Ok_0) =~= out@.map_values(
                                    |x: ResolvedTemplate| x@,
                                ) + rest_spec->Ok_0);
                            }
                        }
                    },
                }
            },
        }
    }
    proof {
        assert(dview.skip(n as int) =~= Seq::<(Seq<char>, TemplateDefModel)>::empty());
        assert(build_registry_spec(dview, bview) == Ok::<Seq<ResolvedModel>, TemplateError>(
            out@.map_values(|t: ResolvedTemplate| t@) + Seq::<ResolvedModel>::empty(),
        ));
        assert(out@.map_values(|t: ResolvedTemplate| t@) + Seq::<ResolvedModel>::empty()
            =~= out@.map_values(|t: ResolvedTemplate| t@));
    }
    Ok(TemplateRegistry { templates: out })
}

/// First registry entry with the given name, if any.
pub open spec fn registry_lookup(templates: Seq<ResolvedModel>, name: Seq<char>) -> Option<
    ResolvedModel,
>
    decreases templates.len(),
{
    if templates.len() == 0 {
        None
    } else if templates[0].name == name {
        Some(templates[0])
    } else {
        registry_lookup(templates.drop_first(), name)
    }
}

impl TemplateRegistry {
    /// Looks a template up by name; an unknown or disabled name finds nothing.
    pub fn find(&self, name: &str) -> (r: Option<&ResolvedTemplate>)
        ensures
            match r {
                Some(t) => registry_lookup(registry_view(self), name@) == Some(t@),
                None => registry_lookup(registry_view(self), name@) is None,
            },
    {
        let ghost rview = registry_view(self);
        proof {
            assert(rview.skip(0) == rview);
        }
        let n = self.templates.len();
        for i in 0..n
            invariant
                n == self.templates.len(),
                rview == registry_view(self),
                registry_lookup(rview, name@) == registry_lookup(rview.skip(i as int), name@),
        {
            proof {
                assert(rview.skip(i as int).len() > 0);
                assert(rview.skip(i as int)[0] == rview[i as int]);
                assert(rview.skip(i as int).drop_first() =~= rview.skip(i + 1));
            }
            if str_eq(self.templates[i].name.as_str(), name) {
                return Some(&self.templates[i]);
            }
        }
        proof {
            assert(rview.skip(n as int) =~= Seq::<ResolvedModel>::empty());
        }
        None
    }
}

/// Relies on tera: `content` is parsed as a template under `name` and rendered
/// with the values in `context_json`; `None` on any parse, context or render
/// failure, otherwise the whole rendered text — a failure emits no partial
/// output.
#[verifier::external_body]
fn tera_render(name: &str, content: &str, context_json: &str) -> (r: Option<String>) {
    let value: serde_json::Value = match serde_json::from_str(context_json) {
        Ok(v) => v,
        Err(_) => return None,
    };
    let context = match tera::Context::from_value(value) {
        Ok(c) => c,
        Err(_) => return None,
    };
    let mut engine = tera::Tera::default();
    if engine.add_raw_template(name, content).is_err() {
        return None;
    }
    engine.render(name, &context).ok()
}

impl ResolvedTemplate {
    /// Renders this template with the given context values. The engine's
    /// output is not modelled: whatever comes back, success pairs the whole
    /// rendered text with this template's declared content type, and a
    /// failure is `None` with nothing emitted.
    pub fn render(&self, context_json: &str) -> (r: Option<(String, String)>)
        ensures
            r matches Some(p) ==> p.0@ == self@.content_type,
    {
        match tera_render(self.name.as_str(), self.content.as_str(), context_json) {
            Some(body) => Some((self.content_type.clone(), body)),
            None => None,
        }
    }
}

} // verus!
