//! From a parsed OpenAPI 3.x document to a profile definition.

use vstd::prelude::*;
use crate::dict::{lemma_first_index, Dict};
use crate::error::{ErrorModel, YcallrError};
use crate::json::{get_key, member, Json, JsonValue};
use crate::models::command::quoted;
use crate::models::types::{ApiDefinition, ApiErrorConfig, AuthConfig, Command, EnvVar};
use crate::models::validation::api_ok;
use crate::openapi_importer::auth::{all_required, auth_of, auth_shapes, env_names, extract_auth, shape_index};
use crate::openapi_importer::messages::{as_object, has_member};
use crate::openapi_importer::names::{slug, slugify_name};
use crate::openapi_importer::nesting::{apply_nesting, nested};
use crate::openapi_importer::operations::{
    merge_parameter_list, op_found, operation_to_spec, opt_text, param_list, param_list_ends,
    param_list_of, text_views, OpFound, OperationSpec,
};
use crate::openapi_importer::params::{first_line, first_line_of};
use crate::openapi_importer::presets::{
    apply_default_headers_to_leaves, apply_github_auth, github_auth, link_commands_to_auth,
    table_edited, tables_ok,
};
use crate::openapi_importer::refs::{resolve_value, resolved};
use crate::openapi_importer::responses::{
    api_errors_found, errors_found, extract_api_errors, ErrorsFound, message_views, opt_message,
};
use crate::openapi_importer::servers::{
    base_url_of, detect_github_api, extract_base_url, github_api,
};
use crate::openapi_importer::tree::{
    build_tree, cmds_found, insert_at_segments, op_command, tree_insert, CmdFound,
};
use crate::openapi_importer::{OpenApiImportOptions, OpenApiNestBy, OpenApiPreset};
use crate::runtime_auth::RuntimeAuth;
use crate::openapi_importer::checks::found_ok;
use crate::text::{owned, starts_with, starts_with_str, str_eq, trim, trim_str};

verus! {

broadcast use vstd::std_specs::vec::group_vec_axioms;

/// The operation keys read from a path item, in order.
pub open spec fn http_methods() -> Seq<Seq<char>> {
    seq!["get"@, "post"@, "put"@, "patch"@, "delete"@]
}

/// The `parameters` value of a path item or operation (`null` when absent).
pub open spec fn params_value(v: Json) -> Json {
    match get_key(v, "parameters"@) {
        Some(p) => p,
        None => Json::Null,
    }
}

/// The operations of a path item under the keys `methods`, in order.
pub open spec fn method_ops(
    item: Json,
    root: Json,
    path: Seq<char>,
    path_params: Seq<Json>,
    errs: Option<ErrorsFound>,
    methods: Seq<Seq<char>>,
) -> Seq<OpFound>
    decreases methods.len(),
{
    if methods.len() == 0 {
        Seq::empty()
    } else {
        let p = method_ops(item, root, path, path_params, errs, methods.drop_last());
        let m = methods.last();
        match get_key(item, m) {
            Some(op0) => match op_found(resolved(op0, root), root, path, m, path_params, errs) {
                Some(f) => p.push(f),
                None => p,
            },
            None => p,
        }
    }
}

/// The operations of the path item `item` at `path`.
pub open spec fn path_ops(item: Json, root: Json, path: Seq<char>, errs: Option<ErrorsFound>) -> Seq<OpFound> {
    method_ops(item, root, path, param_list_of(params_value(item), root), errs, http_methods())
}

/// The operations of the path items `ms`, in order.
pub open spec fn paths_ops(ms: Seq<(Seq<char>, Json)>, root: Json, errs: Option<ErrorsFound>) -> Seq<OpFound>
    decreases ms.len(),
{
    if ms.len() == 0 {
        Seq::empty()
    } else {
        paths_ops(ms.drop_last(), root, errs) + path_ops(resolved(ms.last().1, root), root, ms.last().0, errs)
    }
}

/// The operations of a document.
pub open spec fn doc_ops(doc: Json, errs: Option<ErrorsFound>) -> Seq<OpFound> {
    match get_key(doc, "paths"@) {
        Some(Json::Object(ms)) => paths_ops(ms, doc, errs),
        _ => Seq::empty(),
    }
}

/// The operations that carry tag `t` (all of them without a tag filter).
pub open spec fn tagged(ops: Seq<OpFound>, tag: Option<Seq<char>>) -> Seq<OpFound>
    decreases ops.len(),
{
    match tag {
        None => ops,
        Some(t) => if ops.len() == 0 {
            ops
        } else {
            let p = tagged(ops.drop_last(), tag);
            if ops.last().tags.contains(t) {
                p.push(ops.last())
            } else {
                p
            }
        },
    }
}

/// Every `$ref` chain from a path item's or operation's `parameters` reaches a list.
pub open spec fn item_params_end(item: Json, root: Json) -> bool {
    &&& param_list_ends(params_value(item), root)
    &&& forall|j: int|
        0 <= j < 5 ==> (get_key(item, #[trigger] http_methods()[j]) matches Some(op0) ==> param_list_ends(
            params_value(resolved(op0, root)),
            root,
        ))
}

/// The `parameters` value of a path item and those of its operations each reach
/// a list within `n` `$ref` steps.
pub open spec fn item_params_within(item: Json, root: Json, n: nat) -> bool {
    &&& param_list(params_value(item), root, n) is Some
    &&& forall|j: int|
        0 <= j < 5 ==> (get_key(item, #[trigger] http_methods()[j]) matches Some(op0) ==> param_list(
            params_value(resolved(op0, root)),
            root,
            n,
        ) is Some)
}

/// Every `parameters` value of the document's paths and operations reaches a
/// list within `n` `$ref` steps.
pub open spec fn doc_params_within(doc: Json, n: nat) -> bool {
    match get_key(doc, "paths"@) {
        Some(Json::Object(ms)) => forall|i: int|
            0 <= i < ms.len() ==> item_params_within(resolved(#[trigger] ms[i].1, doc), doc, n),
        _ => true,
    }
}

/// Every `parameters` value of the document's paths and operations reaches a list
/// by following `$ref` (a reference that does not would be followed forever).
pub open spec fn doc_params_end(doc: Json) -> bool {
    match get_key(doc, "paths"@) {
        Some(Json::Object(ms)) => forall|i: int| 0 <= i < ms.len() ==> item_params_end(resolved(#[trigger] ms[i].1, doc), doc),
        _ => true,
    }
}

/// The profile definition a document describes, as values.
pub struct ApiFound {
    pub name: Seq<char>,
    pub version: Seq<char>,
    pub description: Seq<char>,
    pub base_url: Seq<char>,
    pub env: Seq<Seq<char>>,
    pub auth: Seq<(Seq<char>, RuntimeAuth)>,
    pub commands: Seq<(Seq<char>, CmdFound)>,
    pub errors: Option<ErrorsFound>,
}

/// A profile definition as values.
pub open spec fn api_found(a: ApiDefinition) -> ApiFound {
    ApiFound {
        name: a.name@,
        version: a.version@,
        description: a.description@,
        base_url: a.base_url@,
        env: env_names(a.env@),
        auth: auth_shapes(a.auth.entries@),
        commands: cmds_found(a.commands.entries@),
        errors: match a.errors {
            Some(e) => Some(ErrorsFound { default: opt_message(e.default), codes: message_views(e.codes.entries@) }),
            None => None,
        },
    }
}

/// The declared OpenAPI version (`openapi`, else `swagger`; empty when not a string).
pub open spec fn version_of(doc: Json) -> Seq<char> {
    let v = match get_key(doc, "openapi"@) {
        Some(x) => Some(x),
        None => get_key(doc, "swagger"@),
    };
    match v {
        Some(Json::Str(s)) => s,
        _ => Seq::empty(),
    }
}

/// A text field of the `info` object, or `default`.
pub open spec fn info_text(doc: Json, key: Seq<char>, default: Seq<char>) -> Seq<char> {
    match get_key(doc, "info"@) {
        Some(Json::Object(ms)) => match member(ms, key) {
            Some(Json::Str(s)) => s,
            _ => default,
        },
        _ => default,
    }
}

/// The first line of `info.description`, trimmed.
pub open spec fn info_description(doc: Json) -> Seq<char> {
    trim(
        match first_line(info_text(doc, "description"@, Seq::empty())) {
            Some(l) => l,
            None => Seq::empty(),
        },
    )
}

/// The GitHub defaults applied to a definition: the token scheme, the `Accept`
/// header, and the `github` scheme (or the only scheme) on commands without auth.
pub open spec fn github_defaults(a: ApiFound) -> ApiFound {
    let (auth, env, commands) = github_tables(a.auth, a.env, a.commands);
    ApiFound { auth, env, commands, ..a }
}

/// The GitHub defaults on the auth schemes, environment variables and commands.
pub open spec fn github_tables(
    auth0: Seq<(Seq<char>, RuntimeAuth)>,
    env0: Seq<Seq<char>>,
    cmds: Seq<(Seq<char>, CmdFound)>,
) -> (Seq<(Seq<char>, RuntimeAuth)>, Seq<Seq<char>>, Seq<(Seq<char>, CmdFound)>) {
    let (auth, env) = github_auth(auth0, env0);
    let c1 = table_edited(cmds, None);
    let c2 = if shape_index(auth, "github"@) is Some {
        table_edited(c1, Some("github"@))
    } else if auth.len() == 1 {
        table_edited(c1, Some(auth[0].0))
    } else {
        c1
    };
    (auth, env, c2)
}

/// Applies the GitHub defaults: the `github` token scheme (unless a bearer
/// scheme exists), the `Accept` header on callable commands, and the `github`
/// scheme (or the only scheme) on commands without auth.
pub fn apply_github_api_defaults(auth: &mut Dict<AuthConfig>, env: &mut Vec<EnvVar>, commands: Dict<Command>) -> (r:
    Dict<Command>)
    requires
        tables_ok(old(auth).entries@, old(env)@),
    ensures
        tables_ok(final(auth).entries@, final(env)@),
        (auth_shapes(final(auth).entries@), env_names(final(env)@), cmds_found(r.entries@)) == github_tables(
            auth_shapes(old(auth).entries@),
            env_names(old(env)@),
            cmds_found(commands.entries@),
        ),
{
    apply_github_auth(auth, env);
    let commands = apply_default_headers_to_leaves(commands);
    proof {
        crate::openapi_importer::presets::lemma_auth_index(auth.entries@, "github"@);
        lemma_first_index(auth.entries@, "github"@);
    }
    if auth.contains_key("github") {
        link_commands_to_auth(commands, "github")
    } else if auth.len() == 1 {
        let scheme = auth.entries[0].0.clone();
        link_commands_to_auth(commands, scheme.as_str())
    } else {
        commands
    }
}

/// Applies the vendor preset: GitHub defaults when the preset (or, under
/// `auto`, the document) calls for them.
pub fn apply_vendor_presets(
    doc: &JsonValue,
    title: &str,
    base_url: &str,
    preset: OpenApiPreset,
    auth: &mut Dict<AuthConfig>,
    env: &mut Vec<EnvVar>,
    commands: Dict<Command>,
) -> (r: Dict<Command>)
    requires
        tables_ok(old(auth).entries@, old(env)@),
    ensures
        tables_ok(final(auth).entries@, final(env)@),
        (auth_shapes(final(auth).entries@), env_names(final(env)@), cmds_found(r.entries@)) == if uses_github(
            preset,
            doc@,
            title@,
            base_url@,
        ) {
            github_tables(auth_shapes(old(auth).entries@), env_names(old(env)@), cmds_found(commands.entries@))
        } else {
            (auth_shapes(old(auth).entries@), env_names(old(env)@), cmds_found(commands.entries@))
        },
{
    let use_github = match preset {
        OpenApiPreset::GitHub => true,
        OpenApiPreset::Off => false,
        OpenApiPreset::Auto => detect_github_api(doc, title, base_url),
    };
    if use_github {
        apply_github_api_defaults(auth, env, commands)
    } else {
        commands
    }
}

/// Options as values.
pub open spec fn uses_github(preset: OpenApiPreset, doc: Json, title: Seq<char>, base_url: Seq<char>) -> bool {
    match preset {
        OpenApiPreset::GitHub => true,
        OpenApiPreset::Off => false,
        OpenApiPreset::Auto => github_api(doc, title, base_url),
    }
}

/// The definition a document imports to under `options` (before validation),
/// or the error message.
pub open spec fn imported(doc: Json, options: OpenApiImportOptions) -> Result<ApiFound, Seq<char>> {
    let v = version_of(doc);
    if !starts_with(v, "3"@) {
        Err("Unsupported OpenAPI version '"@ + v + "' (expected 3.x)"@)
    } else {
        let title = info_text(doc, "title"@, "api"@);
        let errs = api_errors_found(doc);
        let ops = tagged(doc_ops(doc, errs), opt_text(options.tag));
        if ops.len() == 0 {
            Err("No operations found to import (check paths and --tag filter)"@)
        } else {
            let short = options.short_names || options.nest_by == OpenApiNestBy::Tag;
            let placed = Seq::new(ops.len(), |i: int| nested(ops[i], options.nest_by, short));
            let base_url = match options.base_url {
                Some(b) => b@,
                None => base_url_of(doc),
            };
            let au = auth_of(doc);
            let base = ApiFound {
                name: match options.name {
                    Some(n) => n@,
                    None => slug(title),
                },
                version: info_text(doc, "version"@, "1.0.0"@),
                description: info_description(doc),
                base_url,
                env: au.env,
                auth: au.auth,
                commands: build_tree(placed),
                errors: errs,
            };
            Ok(
                if uses_github(options.preset, doc, title, base_url) {
                    github_defaults(base)
                } else {
                    base
                },
            )
        }
    }
}

/// A text field of the `info` object, or `default`.
fn info_field<'a>(doc: &'a JsonValue, key: &str, default: &'a str) -> (r: &'a str)
    ensures
        r@ == info_text(doc@, key@, default@),
{
    match doc.get_key("info") {
        Some(info) => match info {
            JsonValue::Object(_) => match info.get_key(key) {
                Some(v) => match v {
                    JsonValue::Str(s) => s.as_str(),
                    _ => default,
                },
                None => default,
            },
            _ => default,
        },
        None => default,
    }
}

/// The operations of one path item, appended to `out`.
fn collect_path_operations(
    path_item: &JsonValue,
    root: &JsonValue,
    path: &str,
    api_errors: Option<&ApiErrorConfig>,
    out: &mut Vec<OperationSpec>,
)
    requires
        item_params_end(path_item@, root@),
    ensures
        Seq::new(final(out)@.len(), |i: int| final(out)@[i].found()) == Seq::new(
            old(out)@.len(),
            |i: int| old(out)@[i].found(),
        ) + path_ops(path_item@, root@, path@, errors_found(api_errors)),
{
    let null = JsonValue::Null;
    let pv = match path_item.get_key("parameters") {
        Some(p) => p,
        None => &null,
    };
    let path_level_params = merge_parameter_list(pv, root);
    let ghost pp = Seq::new(path_level_params@.len(), |i: int| path_level_params@[i]@);
    assert(pp =~= param_list_of(params_value(path_item@), root@));
    let methods: [&str; 5] = ["get", "post", "put", "patch", "delete"];
    let ghost ms = http_methods();
    proof {
        reveal_strlit("get");
        reveal_strlit("post");
        reveal_strlit("put");
        reveal_strlit("patch");
        reveal_strlit("delete");
        assert(methods@[0]@ == ms[0]);
        assert(methods@[1]@ == ms[1]);
        assert(methods@[2]@ == ms[2]);
        assert(methods@[3]@ == ms[3]);
        assert(methods@[4]@ == ms[4]);
    }
    let ghost start = Seq::new(out@.len(), |i: int| out@[i].found());
    let ghost errs = errors_found(api_errors);
    let mut k: usize = 0;
    assert(ms.take(0) =~= Seq::<Seq<char>>::empty());
    assert(Seq::new(out@.len(), |i: int| out@[i].found()) =~= start + Seq::<OpFound>::empty());
    while k < 5
        invariant
            ms == http_methods(),
            ms.len() == 5,
            forall|j: int| 0 <= j < 5 ==> (#[trigger] methods@[j])@ == ms[j],
            pp == param_list_of(params_value(path_item@), root@),
            path_level_params@.len() == pp.len(),
            forall|j: int| 0 <= j < pp.len() ==> (#[trigger] path_level_params@[j])@ == pp[j],
            item_params_end(path_item@, root@),
            errs == errors_found(api_errors),
            k <= 5,
            Seq::new(out@.len(), |i: int| out@[i].found()) == start + method_ops(
                path_item@,
                root@,
                path@,
                pp,
                errs,
                ms.take(k as int),
            ),
        decreases 5 - k,
    {
        assert(ms.take(k + 1).drop_last() =~= ms.take(k as int));
        assert(ms.take(k + 1).last() == ms[k as int]);
        assert(Seq::new(path_level_params@.len(), |i: int| path_level_params@[i]@) =~= pp);
        let m = methods[k];
        let ghost before = Seq::new(out@.len(), |i: int| out@[i].found());
        match path_item.get_key(m) {
            Some(op0) => {
                assert(get_key(path_item@, http_methods()[k as int]) matches Some(x));
                let op = resolve_value(op0, root);
                match operation_to_spec(op, root, path, m, &path_level_params, api_errors) {
                    Some(spec) => {
                        out.push(spec);
                        assert(Seq::new(out@.len(), |i: int| out@[i].found()) =~= before.push(spec.found()));
                    },
                    None => {},
                }
            },
            None => {},
        }
        k = k + 1;
    }
    assert(ms.take(5) =~= ms);
}

/// Whether `tags` holds `tag`.
fn has_tag(tags: &Vec<String>, tag: &str) -> (r: bool)
    ensures
        r == text_views(tags@).contains(tag@),
{
    let mut t: usize = 0;
    while t < tags.len()
        invariant
            t <= tags@.len(),
            forall|q: int| 0 <= q < t ==> text_views(tags@)[q] != tag@,
        decreases tags@.len() - t,
    {
        if str_eq(tags[t].as_str(), tag) {
            assert(text_views(tags@)[t as int] == tag@);
            return true;
        }
        t = t + 1;
    }
    false
}

/// Keeps the operations that carry `tag`.
fn retain_tagged(ops: Vec<OperationSpec>, tag: &str) -> (r: Vec<OperationSpec>)
    ensures
        Seq::new(r@.len(), |i: int| r@[i].found()) == tagged(
            Seq::new(ops@.len(), |i: int| ops@[i].found()),
            Some(tag@),
        ),
{
    let ghost all = Seq::new(ops@.len(), |i: int| ops@[i].found());
    let ghost orig = ops@;
    let mut rest = ops;
    let n = rest.len();
    let mut out: Vec<OperationSpec> = Vec::new();
    let mut j: usize = 0;
    assert(rest@.skip(0) =~= rest@);
    assert(all.take(0) =~= Seq::<OpFound>::empty());
    assert(Seq::new(out@.len(), |i: int| out@[i].found()) =~= Seq::<OpFound>::empty());
    while j < n
        invariant
            all == Seq::new(orig.len(), |i: int| orig[i].found()),
            n == orig.len(),
            j <= n,
            rest@ == orig.skip(j as int),
            Seq::new(out@.len(), |i: int| out@[i].found()) == tagged(all.take(j as int), Some(tag@)),
        decreases n - j,
    {
        let op = rest.remove(0);
        assert(op == orig[j as int]);
        assert(all.take(j + 1).drop_last() =~= all.take(j as int));
        assert(all.take(j + 1).last() == op.found());
        let ghost before = Seq::new(out@.len(), |i: int| out@[i].found());
        let found = has_tag(&op.tags, tag);
        if found {
            out.push(op);
            assert(Seq::new(out@.len(), |i: int| out@[i].found()) =~= before.push(op.found()));
        }
        assert(rest@ =~= orig.skip(j + 1));
        j = j + 1;
    }
    assert(all.take(n as int) =~= all);
    out
}

/// Copies of a list of texts.
fn copy_texts(v: &Vec<String>) -> (r: Vec<String>)
    ensures
        text_views(r@) == text_views(v@),
{
    let mut out: Vec<String> = Vec::new();
    let mut i: usize = 0;
    while i < v.len()
        invariant
            i <= v@.len(),
            out@.len() == i,
            forall|k: int| 0 <= k < i ==> (#[trigger] out@[k])@ == v@[k]@,
        decreases v@.len() - i,
    {
        out.push(v[i].clone());
        i = i + 1;
    }
    assert(text_views(out@) =~= text_views(v@));
    out
}

/// Places an operation's command under its segments (see `tree_insert`).
fn insert_operation(commands: &mut Dict<Command>, op: OperationSpec)
    ensures
        cmds_found(final(commands).entries@) == tree_insert(
            cmds_found(old(commands).entries@),
            op.found().static_segments,
            op.found().command_name,
            op_command(op.found()),
        ),
{
    let segs = copy_texts(&op.static_segments);
    let key = op.command_name.clone();
    let ghost f = op.found();
    let leaf = op.to_command();
    insert_at_segments(commands, &segs, 0, key, leaf);
    assert(Seq::new(segs@.len(), |i: int| segs@[i]@).skip(0) =~= f.static_segments);
}

/// Places the operations, in order, in a command tree.
fn build_command_tree(operations: Vec<OperationSpec>) -> (r: Dict<Command>)
    ensures
        cmds_found(r.entries@) == build_tree(Seq::new(operations@.len(), |i: int| operations@[i].found())),
{
    let ghost all = Seq::new(operations@.len(), |i: int| operations@[i].found());
    let ghost orig = operations@;
    let mut rest = operations;
    let n = rest.len();
    let mut commands: Dict<Command> = Dict::new();
    let mut j: usize = 0;
    assert(rest@.skip(0) =~= rest@);
    assert(all.take(0) =~= Seq::<OpFound>::empty());
    assert(cmds_found(commands.entries@) =~= Seq::<(Seq<char>, CmdFound)>::empty());
    while j < n
        invariant
            all == Seq::new(orig.len(), |i: int| orig[i].found()),
            n == orig.len(),
            j <= n,
            rest@ == orig.skip(j as int),
            cmds_found(commands.entries@) == build_tree(all.take(j as int)),
        decreases n - j,
    {
        let op = rest.remove(0);
        assert(op == orig[j as int]);
        assert(all.take(j + 1).drop_last() =~= all.take(j as int));
        assert(all.take(j + 1).last() == op.found());
        insert_operation(&mut commands, op);
        assert(rest@ =~= orig.skip(j + 1));
        j = j + 1;
    }
    assert(all.take(n as int) =~= all);
    commands
}

/// The version a document declares: its `openapi` text, else its `swagger`
/// text, else empty.
pub fn openapi_version(doc: &JsonValue) -> (r: &str)
    ensures
        r@ == version_of(doc@),
{
    let version = match doc.get_key("openapi") {
        Some(x) => match x {
            JsonValue::Str(s) => s.as_str(),
            _ => "",
        },
        None => match doc.get_key("swagger") {
            Some(x) => match x {
                JsonValue::Str(s) => s.as_str(),
                _ => "",
            },
            None => "",
        },
    };
    proof {
        reveal_strlit("");
        assert(""@ =~= Seq::<char>::empty());
    }
    version
}

/// Builds the profile definition a document describes under `options`, without
/// validating it: commands nested by path (or tag), auth schemes and their
/// environment variables, API error messages, and GitHub defaults where the
/// preset asks for them.
pub fn build_openapi_definition(doc: &JsonValue, options: &OpenApiImportOptions) -> (r: Result<ApiDefinition, YcallrError>)
    requires
        starts_with(version_of(doc@), "3"@) ==> doc_params_end(doc@),
    ensures
        match imported(doc@, *options) {
            Err(m) => r matches Err(e) && e@ == ErrorModel::OpenApiParse(m),
            Ok(f) => r matches Ok(a) && api_found(a) == f && tables_ok(a.auth.entries@, a.env@),
        },
{
    let version = openapi_version(doc);
    if !starts_with_str(version, "3") {
        return Err(YcallrError::OpenApiParse(quoted("Unsupported OpenAPI version '", version, "' (expected 3.x)")));
    }
    assert(doc_params_end(doc@));
    proof {
        reveal_strlit("");
        assert(""@ =~= Seq::<char>::empty());
    }
    let title = info_field(doc, "title", "api");
    let version_text = info_field(doc, "version", "1.0.0");
    let description_text = info_field(doc, "description", "");
    let description = match first_line_of(description_text) {
        Some(l) => trim_str(l.as_str()),
        None => trim_str(""),
    };
    let name = match &options.name {
        Some(n) => n.clone(),
        None => slugify_name(title),
    };
    let base_url = match &options.base_url {
        Some(b) => b.clone(),
        None => extract_base_url(doc),
    };
    let (auth, env) = extract_auth(doc);
    let api_errors = extract_api_errors(doc);
    let errs_ref = api_errors.as_ref();
    let ghost errs = api_errors_found(doc@);
    assert(errors_found(errs_ref) == errs);
    let mut operations: Vec<OperationSpec> = Vec::new();
    match doc.get_key("paths") {
        Some(paths) => match as_object(paths) {
            Some(ms) => {
                let ghost vs = Seq::new(ms@.len(), |i: int| (ms@[i].0@, ms@[i].1@));
                let mut i: usize = 0;
                assert(vs.take(0) =~= Seq::<(Seq<char>, Json)>::empty());
                assert(Seq::new(operations@.len(), |k: int| operations@[k].found()) =~= Seq::<OpFound>::empty());
                while i < ms.len()
                    invariant
                        vs == Seq::new(ms@.len(), |i: int| (ms@[i].0@, ms@[i].1@)),
                        get_key(doc@, "paths"@) == Some(Json::Object(vs)),
                        doc_params_end(doc@),
                        errs == errors_found(errs_ref),
                        i <= ms@.len(),
                        Seq::new(operations@.len(), |k: int| operations@[k].found()) == paths_ops(
                            vs.take(i as int),
                            doc@,
                            errs,
                        ),
                    decreases ms@.len() - i,
                {
                    assert(vs.take(i + 1).drop_last() =~= vs.take(i as int));
                    assert(vs.take(i + 1).last() == vs[i as int]);
                    let item = resolve_value(&ms[i].1, doc);
                    assert(item_params_end(resolved(vs[i as int].1, doc@), doc@));
                    collect_path_operations(item, doc, ms[i].0.as_str(), errs_ref, &mut operations);
                    i = i + 1;
                }
                assert(vs.take(ms@.len() as int) =~= vs);
            },
            None => {},
        },
        None => {},
    }
    let ghost all = Seq::new(operations@.len(), |k: int| operations@[k].found());
    assert(all == doc_ops(doc@, errs));
    let operations = match &options.tag {
        Some(tag) => retain_tagged(operations, tag.as_str()),
        None => operations,
    };
    if operations.len() == 0 {
        return Err(YcallrError::OpenApiParse(owned("No operations found to import (check paths and --tag filter)")));
    }
    let use_short_names = options.short_names || options.nest_by == OpenApiNestBy::Tag;
    let ghost picked = Seq::new(operations@.len(), |k: int| operations@[k].found());
    let mut ops = operations;
    let mut k: usize = 0;
    while k < ops.len()
        invariant
            ops@.len() == picked.len(),
            k <= ops@.len(),
            forall|q: int| 0 <= q < k ==> (#[trigger] ops@[q]).found() == nested(picked[q], options.nest_by, use_short_names),
            forall|q: int| k <= q < ops@.len() ==> (#[trigger] ops@[q]).found() == picked[q],
        decreases ops@.len() - k,
    {
        let mut op = ops.remove(k);
        apply_nesting(&mut op, options.nest_by, use_short_names);
        ops.insert(k, op);
        k = k + 1;
    }
    let ghost placed = Seq::new(ops@.len(), |q: int| ops@[q].found());
    assert(placed =~= Seq::new(picked.len(), |q: int| nested(picked[q], options.nest_by, use_short_names)));
    let commands = build_command_tree(ops);
    let mut auth = auth;
    let mut env = env;
    let commands = apply_vendor_presets(doc, title, base_url.as_str(), options.preset, &mut auth, &mut env, commands);
    Ok(
        ApiDefinition {
            name,
            version: owned(version_text),
            description,
            base_url,
            env,
            auth,
            commands,
            errors: api_errors,
        },
    )
}

/// Converts a parsed OpenAPI 3.x document into a profile definition, checked
/// for use by a client: it succeeds exactly when the built definition passes
/// the client checks.
pub fn import_openapi(doc: &JsonValue, options: &OpenApiImportOptions) -> (r: Result<ApiDefinition, YcallrError>)
    requires
        starts_with(version_of(doc@), "3"@) ==> doc_params_end(doc@),
    ensures
        match imported(doc@, *options) {
            Err(m) => r matches Err(e) && e@ == ErrorModel::OpenApiParse(m),
            Ok(f) => (r is Ok <==> found_ok(f)) && match r {
                Ok(a) => api_found(a) == f && api_ok(a, false) && all_required(a.env@),
                Err(e) => exists|a: ApiDefinition|
                    #![trigger api_found(a)]
                    api_found(a) == f && crate::models::validation::problem_result(
                        crate::models::validation::api_problem(a, false),
                    ) == Err::<(), ErrorModel>(e@),
            },
        },
{
    let api = match build_openapi_definition(doc, options) {
        Ok(a) => a,
        Err(e) => {
            return Err(e);
        },
    };
    proof {
        crate::openapi_importer::checks::lemma_found_ok(api);
    }
    match api.validate_for_client() {
        Ok(()) => Ok(api),
        Err(e) => {
            assert(api_found(api) == api_found(api));
            Err(e)
        },
    }
}

/// Whether following `$ref` from a `parameters` value reaches a list within `fuel` steps.
fn param_list_ends_within(v: &JsonValue, root: &JsonValue, fuel: usize) -> (r: bool)
    ensures
        r == param_list(v@, root@, fuel as nat) is Some,
    decreases fuel,
{
    match v {
        JsonValue::Object(_) => {
            if v.get_key("$ref").is_some() {
                proof {
                    assert(has_member(v@->Object_0, "$ref"@));
                }
                if fuel == 0 {
                    false
                } else {
                    param_list_ends_within(resolve_value(v, root), root, fuel - 1)
                }
            } else {
                proof {
                    assert(!has_member(v@->Object_0, "$ref"@));
                }
                true
            }
        },
        _ => true,
    }
}

/// Whether the `parameters` value of `v` reaches a list within a few `$ref` steps.
fn params_end_within(v: &JsonValue, root: &JsonValue) -> (r: bool)
    ensures
        r == param_list(params_value(v@), root@, 8) is Some,
        r ==> param_list_ends(params_value(v@), root@),
{
    let null = JsonValue::Null;
    let p = match v.get_key("parameters") {
        Some(p) => p,
        None => &null,
    };
    let r = param_list_ends_within(p, root, 8);
    proof {
        if r {
            assert(param_list(params_value(v@), root@, 8) is Some);
        }
    }
    r
}

/// Whether every `parameters` value of the document's paths and operations
/// reaches a list within 8 `$ref` steps; a document that passes can be
/// imported without following references forever.
pub fn openapi_params_end(doc: &JsonValue) -> (r: bool)
    ensures
        r == doc_params_within(doc@, 8),
        r ==> doc_params_end(doc@),
{
    let paths = match doc.get_key("paths") {
        Some(p) => p,
        None => {
            return true;
        },
    };
    let ms = match as_object(paths) {
        Some(ms) => ms,
        None => {
            return true;
        },
    };
    let ghost vs = Seq::new(ms@.len(), |i: int| (ms@[i].0@, ms@[i].1@));
    let methods: [&str; 5] = ["get", "post", "put", "patch", "delete"];
    proof {
        reveal_strlit("get");
        reveal_strlit("post");
        reveal_strlit("put");
        reveal_strlit("patch");
        reveal_strlit("delete");
        assert(methods@[0]@ == http_methods()[0]);
        assert(methods@[1]@ == http_methods()[1]);
        assert(methods@[2]@ == http_methods()[2]);
        assert(methods@[3]@ == http_methods()[3]);
        assert(methods@[4]@ == http_methods()[4]);
    }
    let mut i: usize = 0;
    while i < ms.len()
        invariant
            vs == Seq::new(ms@.len(), |i: int| (ms@[i].0@, ms@[i].1@)),
            get_key(doc@, "paths"@) == Some(Json::Object(vs)),
            forall|j: int| 0 <= j < 5 ==> (#[trigger] methods@[j])@ == http_methods()[j],
            i <= ms@.len(),
            forall|q: int| 0 <= q < i ==> item_params_end(resolved(#[trigger] vs[q].1, doc@), doc@),
            forall|q: int| 0 <= q < i ==> item_params_within(resolved(#[trigger] vs[q].1, doc@), doc@, 8),
        decreases ms@.len() - i,
    {
        let item = resolve_value(&ms[i].1, doc);
        assert(item@ == resolved(vs[i as int].1, doc@));
        if !params_end_within(item, doc) {
            assert(!item_params_within(resolved(vs[i as int].1, doc@), doc@, 8));
            return false;
        }
        let mut k: usize = 0;
        while k < 5
            invariant
                forall|j: int| 0 <= j < 5 ==> (#[trigger] methods@[j])@ == http_methods()[j],
                k <= 5,
                forall|j: int|
                    0 <= j < k ==> (get_key(item@, #[trigger] http_methods()[j]) matches Some(op0)
                        ==> param_list_ends(params_value(resolved(op0, doc@)), doc@)),
                forall|j: int|
                    0 <= j < k ==> (get_key(item@, #[trigger] http_methods()[j]) matches Some(op0)
                        ==> param_list(params_value(resolved(op0, doc@)), doc@, 8) is Some),
                i < vs.len(),
                item@ == resolved(vs[i as int].1, doc@),
                vs == Seq::new(ms@.len(), |i: int| (ms@[i].0@, ms@[i].1@)),
                get_key(doc@, "paths"@) == Some(Json::Object(vs)),
            decreases 5 - k,
        {
            match item.get_key(methods[k]) {
                Some(op0) => {
                    let op = resolve_value(op0, doc);
                    if !params_end_within(op, doc) {
                        proof {
                            assert(get_key(item@, http_methods()[k as int]) == Some(op0@));
                            assert(!item_params_within(resolved(vs[i as int].1, doc@), doc@, 8));
                        }
                        return false;
                    }
                },
                None => {},
            }
            k = k + 1;
        }
        assert(item_params_end(item@, doc@));
        assert(item_params_within(item@, doc@, 8));
        i = i + 1;
    }
    true
}

} // verus!
