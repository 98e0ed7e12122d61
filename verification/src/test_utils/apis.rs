//! Sample profiles for tests.

use vstd::prelude::*;
use crate::dict::Dict;
use crate::models::types::{
    ApiDefinition, Command, EnvVar, HttpMethod, ParamType, Parameter, ResponseConfig,
    ResponseEntry,
};
use crate::text::owned;

use crate::dict::pair_views;
use crate::openapi_importer::auth::{auth_shapes, env_names};
use crate::openapi_importer::import::{api_found, ApiFound};

use crate::openapi_importer::params::{param_views, ParamFound};
use crate::openapi_importer::responses::ResponsesFound;
use crate::openapi_importer::tree::{cmd_found, cmds_found, CmdFound};

verus! {

/// A string parameter, as values.
pub open spec fn text_param_found(description: Seq<char>, required: bool) -> ParamFound {
    ParamFound { description, param_type: ParamType::String, required }
}

/// The `owner` and `repo` path parameters, as values.
pub open spec fn owner_repo_found() -> Seq<(Seq<char>, ParamFound)> {
    seq![
        ("owner"@, text_param_found("Repository owner"@, true)),
        ("repo"@, text_param_found("Repository name"@, true)),
    ]
}

/// A command without auth, body or responses, as values.
pub open spec fn plain_command(
    description: Seq<char>,
    endpoint: Seq<char>,
    method: HttpMethod,
    headers: Seq<(Seq<char>, Seq<char>)>,
    params: Seq<(Seq<char>, ParamFound)>,
    commands: Option<Seq<(Seq<char>, CmdFound)>>,
) -> CmdFound {
    CmdFound {
        description: Some(description),
        endpoint: Some(endpoint),
        method: Some(method),
        auth: None,
        headers,
        params,
        body: None,
        responses: None,
        commands,
    }
}

/// A profile with version `1.0.0`, no auth schemes and no API errors, as values.
pub open spec fn plain_api(
    name: Seq<char>,
    description: Seq<char>,
    base_url: Seq<char>,
    env: Seq<Seq<char>>,
    commands: Seq<(Seq<char>, CmdFound)>,
) -> ApiFound {
    ApiFound { name, version: "1.0.0"@, description, base_url, env, auth: Seq::empty(), commands, errors: None }
}

/// The GitHub-like sample profile, as values.
pub open spec fn github_api_found() -> ApiFound {
    let accept = "application/vnd.github.v3+json"@;
    let issues = "/repos/{owner}/{repo}/issues"@;
    plain_api(
        "github"@,
        "GitHub REST API"@,
        "https://api.github.com"@,
        Seq::empty(),
        seq![
            ("get-repo"@, plain_command("Get a repository"@, "/repos/{owner}/{repo}"@, HttpMethod::GET, seq![("Accept"@, accept)], owner_repo_found(), None)),
            ("create-issue"@, plain_command("Create a new issue"@, issues, HttpMethod::POST, seq![("Accept"@, accept), ("Content-Type"@, "application/json"@)], owner_repo_found().push(("title"@, text_param_found("Issue title"@, true))), None)),
            ("list-issues"@, plain_command("List issues"@, issues, HttpMethod::GET, seq![("Accept"@, accept)], owner_repo_found().push(("state"@, text_param_found("Filter by state (open, closed, all)"@, false))), None)),
        ],
    )
}

/// The small sample profile, as values.
pub open spec fn simple_api_found() -> ApiFound {
    plain_api(
        "simple"@,
        "Simple test API"@,
        "https://api.example.com"@,
        Seq::empty(),
        seq![
            ("get-item"@, plain_command("Get an item"@, "/items/{id}"@, HttpMethod::GET, seq![("Accept"@, "application/json"@)], seq![("id"@, text_param_found("Resource ID"@, true))], None)),
            ("create-item"@, plain_command("Create an item"@, "/items"@, HttpMethod::POST, Seq::empty(), Seq::empty(), None)),
        ],
    )
}

/// The nested sample profile, as values.
pub open spec fn nested_github_api_found() -> ApiFound {
    let issues_path = "/repos/{owner}/{repo}/issues"@;
    let create = plain_command("Create an issue"@, issues_path, HttpMethod::POST, Seq::empty(), Seq::empty(), None);
    let list = plain_command("List issues"@, issues_path, HttpMethod::GET, Seq::empty(), Seq::empty(), None);
    let issues = plain_command("Issues operations"@, issues_path, HttpMethod::GET, Seq::empty(), Seq::empty(), Some(seq![("create"@, create), ("list"@, list)]));
    let get_repo = plain_command("Get a repository"@, "/repos/{owner}/{repo}"@, HttpMethod::GET, Seq::empty(), Seq::empty(), None);
    let repos = plain_command("Repository operations"@, "/repos"@, HttpMethod::GET, Seq::empty(), Seq::empty(), Some(seq![("issues"@, issues), ("get"@, get_repo)]));
    let get_user = plain_command("Get a user"@, "/users/{username}"@, HttpMethod::GET, Seq::empty(), Seq::empty(), None);
    let users = plain_command("User operations"@, "/users"@, HttpMethod::GET, Seq::empty(), Seq::empty(), Some(seq![("get"@, get_user)]));
    plain_api(
        "github-nested"@,
        "GitHub REST API with nested commands"@,
        "https://api.github.com"@,
        seq!["GITHUB_TOKEN"@],
        seq![("repos"@, repos), ("users"@, users)],
    )
}

/// The sample profile with environment references, as values.
pub open spec fn env_api_found() -> ApiFound {
    let headers = seq![("Authorization"@, "Bearer ${GITHUB_TOKEN}"@), ("Accept"@, "application/vnd.github+json"@)];
    plain_api(
        "github-env"@,
        "GitHub API with env vars"@,
        "https://api.github.com"@,
        seq!["GITHUB_TOKEN"@, "API_VERSION"@],
        seq![("get-repo"@, plain_command("Get a repository"@, "/repos/{owner}/{repo}"@, HttpMethod::GET, headers, Seq::empty(), None))],
    )
}

/// The sample profile with response messages, as values.
pub open spec fn response_api_found() -> ApiFound {
    let responses = ResponsesFound {
        success: Some("Created {output.name}"@),
        failure: Some("Failed to create item"@),
        warn: None,
        codes: seq![("404"@, "{input.owner} not found"@)],
    };
    let create_item = CmdFound { responses: Some(responses), ..plain_command("Create an item"@, "/items"@, HttpMethod::POST, Seq::empty(), Seq::empty(), None) };
    plain_api(
        "response-api"@,
        "API with response configs"@,
        "https://api.example.com"@,
        Seq::empty(),
        seq![("create-item"@, create_item)],
    )
}

/// A string parameter.
fn text_param(description: &str, required: bool) -> (r: Parameter)
    ensures
        r.description@ == description@,
        r.param_type == ParamType::String,
        r.required == required,
{
    Parameter { description: owned(description), param_type: ParamType::String, required }
}

/// A command with the given parts and no body, responses or auth.
fn sample_command(
    description: &str,
    endpoint: &str,
    method: HttpMethod,
    headers: Dict<String>,
    params: Dict<Parameter>,
    commands: Option<Dict<Command>>,
) -> (r: Command)
    ensures
        r.description matches Some(d) && d@ == description@,
        r.endpoint matches Some(e) && e@ == endpoint@,
        r.method == Some(method),
        r.headers == headers,
        r.params == params,
        r.commands == commands,
        r.auth is None,
        r.body is None,
        r.responses is None,
        cmd_found(r) == plain_command(
            description@,
            endpoint@,
            method,
            pair_views(headers.entries@),
            param_views(params.entries@),
            match commands {
                Some(d) => Some(cmds_found(d.entries@)),
                None => None,
            },
        ),
{
    let r = Command {
        description: Some(owned(description)),
        endpoint: Some(owned(endpoint)),
        method: Some(method),
        auth: None,
        headers,
        params,
        body: None,
        responses: None,
        commands,
    };
    proof {
        if r.commands is Some {
            crate::openapi_importer::tree::lemma_sub_found(r);
        }
    }
    r
}

/// A profile with the given parts and no auth schemes or API errors.
fn sample_api(name: &str, description: &str, base_url: &str, env: Vec<EnvVar>, commands: Dict<Command>) -> (r: ApiDefinition)
    ensures
        r.name@ == name@,
        r.version@ == "1.0.0"@,
        r.description@ == description@,
        r.base_url@ == base_url@,
        r.env == env,
        r.auth.entries@.len() == 0,
        r.commands == commands,
        r.errors is None,
        api_found(r) == plain_api(name@, description@, base_url@, env_names(env@), cmds_found(commands.entries@)),
{
    let r = ApiDefinition {
        name: owned(name),
        version: owned("1.0.0"),
        description: owned(description),
        base_url: owned(base_url),
        env,
        auth: Dict::new(),
        commands,
        errors: None,
    };
    assert(auth_shapes(r.auth.entries@) =~= Seq::<(Seq<char>, crate::runtime_auth::RuntimeAuth)>::empty());
    r
}

fn owner_repo_params() -> (r: Vec<(String, Parameter)>)
    ensures
        param_views(r@) == owner_repo_found(),
{
    vec![
        (owned("owner"), text_param("Repository owner", true)),
        (owned("repo"), text_param("Repository name", true)),
    ]
}

/// An empty header table.
fn no_headers() -> (r: Dict<String>)
    ensures
        pair_views(r.entries@) == Seq::<(Seq<char>, Seq<char>)>::empty(),
{
    let r = Dict::new();
    assert(pair_views(r.entries@) =~= Seq::<(Seq<char>, Seq<char>)>::empty());
    r
}

/// An empty parameter table.
fn no_params() -> (r: Dict<Parameter>)
    ensures
        param_views(r.entries@) == Seq::<(Seq<char>, ParamFound)>::empty(),
{
    let r = Dict::new();
    assert(param_views(r.entries@) =~= Seq::<(Seq<char>, ParamFound)>::empty());
    r
}

/// A command without headers or parameters.
fn bare_command(description: &str, endpoint: &str, method: HttpMethod, commands: Option<Dict<Command>>) -> (r: Command)
    ensures
        cmd_found(r) == plain_command(
            description@,
            endpoint@,
            method,
            Seq::empty(),
            Seq::empty(),
            match commands {
                Some(d) => Some(cmds_found(d.entries@)),
                None => None,
            },
        ),
{
    sample_command(description, endpoint, method, no_headers(), no_params(), commands)
}

/// GitHub-like profile: `get-repo`, `create-issue`, `list-issues`.
pub fn github_api() -> (r: ApiDefinition)
    ensures
        api_found(r) == github_api_found(),
{
    let accept = "application/vnd.github.v3+json";
    let ghost av = accept@;
    let h1 = Dict { entries: vec![(owned("Accept"), owned(accept))] };
    assert(pair_views(h1.entries@) =~= seq![("Accept"@, av)]);
    let get_repo = sample_command("Get a repository", "/repos/{owner}/{repo}", HttpMethod::GET, h1, Dict { entries: owner_repo_params() }, None);
    let ghost g1 = cmd_found(get_repo);
    let mut create_params = owner_repo_params();
    let ghost c0 = param_views(create_params@);
    create_params.push((owned("title"), text_param("Issue title", true)));
    assert(param_views(create_params@) =~= c0.push(("title"@, text_param_found("Issue title"@, true))));
    let h2 = Dict { entries: vec![(owned("Accept"), owned(accept)), (owned("Content-Type"), owned("application/json"))] };
    assert(pair_views(h2.entries@) =~= seq![("Accept"@, av), ("Content-Type"@, "application/json"@)]);
    let create_issue = sample_command("Create a new issue", "/repos/{owner}/{repo}/issues", HttpMethod::POST, h2, Dict { entries: create_params }, None);
    let ghost g2 = cmd_found(create_issue);
    let mut list_params = owner_repo_params();
    let ghost l0 = param_views(list_params@);
    list_params.push((owned("state"), text_param("Filter by state (open, closed, all)", false)));
    assert(param_views(list_params@) =~= l0.push(("state"@, text_param_found("Filter by state (open, closed, all)"@, false))));
    let h3 = Dict { entries: vec![(owned("Accept"), owned(accept))] };
    assert(pair_views(h3.entries@) =~= seq![("Accept"@, av)]);
    let list_issues = sample_command("List issues", "/repos/{owner}/{repo}/issues", HttpMethod::GET, h3, Dict { entries: list_params }, None);
    let ghost g3 = cmd_found(list_issues);
    let commands = Dict {
        entries: vec![
            (owned("get-repo"), get_repo),
            (owned("create-issue"), create_issue),
            (owned("list-issues"), list_issues),
        ],
    };
    assert(cmds_found(commands.entries@) =~= seq![("get-repo"@, g1), ("create-issue"@, g2), ("list-issues"@, g3)]);
    let no_env: Vec<EnvVar> = Vec::new();
    assert(env_names(no_env@) =~= Seq::<Seq<char>>::empty());
    sample_api("github", "GitHub REST API", "https://api.github.com", no_env, commands)
}

/// A small profile: `get-item` and `create-item`.
pub fn simple_api() -> (r: ApiDefinition)
    ensures
        api_found(r) == simple_api_found(),
{
    let h1 = Dict { entries: vec![(owned("Accept"), owned("application/json"))] };
    assert(pair_views(h1.entries@) =~= seq![("Accept"@, "application/json"@)]);
    let p1 = Dict { entries: vec![(owned("id"), text_param("Resource ID", true))] };
    assert(param_views(p1.entries@) =~= seq![("id"@, text_param_found("Resource ID"@, true))]);
    let get_item = sample_command("Get an item", "/items/{id}", HttpMethod::GET, h1, p1, None);
    let ghost g1 = cmd_found(get_item);
    let h2: Dict<String> = Dict::new();
    let p2: Dict<Parameter> = Dict::new();
    assert(pair_views(h2.entries@) =~= Seq::<(Seq<char>, Seq<char>)>::empty());
    assert(param_views(p2.entries@) =~= Seq::<(Seq<char>, ParamFound)>::empty());
    let create_item = sample_command("Create an item", "/items", HttpMethod::POST, h2, p2, None);
    let ghost g2 = cmd_found(create_item);
    let commands = Dict { entries: vec![(owned("get-item"), get_item), (owned("create-item"), create_item)] };
    assert(cmds_found(commands.entries@) =~= seq![("get-item"@, g1), ("create-item"@, g2)]);
    let no_env: Vec<EnvVar> = Vec::new();
    assert(env_names(no_env@) =~= Seq::<Seq<char>>::empty());
    sample_api("simple", "Simple test API", "https://api.example.com", no_env, commands)
}

/// A profile with nested commands: `repos` (`issues` with `create` and
/// `list`, and `get`) and `users` (`get`).
pub fn nested_github_api() -> (r: ApiDefinition)
    ensures
        api_found(r) == nested_github_api_found(),
        r.env@.len() == 1 && r.env@[0].required,
{
    let issues_path = "/repos/{owner}/{repo}/issues";
    let create = bare_command("Create an issue", issues_path, HttpMethod::POST, None);
    let ghost gc = cmd_found(create);
    let list = bare_command("List issues", issues_path, HttpMethod::GET, None);
    let ghost gl = cmd_found(list);
    let issue_cmds = Dict { entries: vec![(owned("create"), create), (owned("list"), list)] };
    assert(cmds_found(issue_cmds.entries@) =~= seq![("create"@, gc), ("list"@, gl)]);
    let issues = bare_command("Issues operations", issues_path, HttpMethod::GET, Some(issue_cmds));
    let ghost gi = cmd_found(issues);
    let get_repo = bare_command("Get a repository", "/repos/{owner}/{repo}", HttpMethod::GET, None);
    let ghost gr = cmd_found(get_repo);
    let repo_cmds = Dict { entries: vec![(owned("issues"), issues), (owned("get"), get_repo)] };
    assert(cmds_found(repo_cmds.entries@) =~= seq![("issues"@, gi), ("get"@, gr)]);
    let repos = bare_command("Repository operations", "/repos", HttpMethod::GET, Some(repo_cmds));
    let ghost grs = cmd_found(repos);
    let get_user = bare_command("Get a user", "/users/{username}", HttpMethod::GET, None);
    let ghost gu = cmd_found(get_user);
    let user_cmds = Dict { entries: vec![(owned("get"), get_user)] };
    assert(cmds_found(user_cmds.entries@) =~= seq![("get"@, gu)]);
    let users = bare_command("User operations", "/users", HttpMethod::GET, Some(user_cmds));
    let ghost gus = cmd_found(users);
    let env = vec![EnvVar { name: owned("GITHUB_TOKEN"), required: true }];
    assert(env_names(env@) =~= seq!["GITHUB_TOKEN"@]);
    let commands = Dict { entries: vec![(owned("repos"), repos), (owned("users"), users)] };
    assert(cmds_found(commands.entries@) =~= seq![("repos"@, grs), ("users"@, gus)]);
    sample_api("github-nested", "GitHub REST API with nested commands", "https://api.github.com", env, commands)
}

/// A profile whose `get-repo` headers reference `${GITHUB_TOKEN}`; it
/// declares `GITHUB_TOKEN` (required) and `API_VERSION` (optional).
pub fn env_api() -> (r: ApiDefinition)
    ensures
        api_found(r) == env_api_found(),
        r.env@.len() == 2,
        r.env@[0].required,
        !r.env@[1].required,
{
    let headers = Dict {
        entries: vec![
            (owned("Authorization"), owned("Bearer ${GITHUB_TOKEN}")),
            (owned("Accept"), owned("application/vnd.github+json")),
        ],
    };
    assert(pair_views(headers.entries@) =~= seq![("Authorization"@, "Bearer ${GITHUB_TOKEN}"@), ("Accept"@, "application/vnd.github+json"@)]);
    let get_repo = sample_command("Get a repository", "/repos/{owner}/{repo}", HttpMethod::GET, headers, no_params(), None);
    let ghost g = cmd_found(get_repo);
    let env = vec![
        EnvVar { name: owned("GITHUB_TOKEN"), required: true },
        EnvVar { name: owned("API_VERSION"), required: false },
    ];
    assert(env_names(env@) =~= seq!["GITHUB_TOKEN"@, "API_VERSION"@]);
    let commands = Dict { entries: vec![(owned("get-repo"), get_repo)] };
    assert(cmds_found(commands.entries@) =~= seq![("get-repo"@, g)]);
    sample_api("github-env", "GitHub API with env vars", "https://api.github.com", env, commands)
}

/// A profile whose `create-item` has response messages: success, failure
/// and one for `404`.
pub fn response_api() -> (r: ApiDefinition)
    ensures
        api_found(r) == response_api_found(),
{
    let responses = ResponseConfig {
        success: Some(ResponseEntry { message: owned("Created {output.name}") }),
        failure: Some(ResponseEntry { message: owned("Failed to create item") }),
        warn: None,
        codes: Dict { entries: vec![(owned("404"), ResponseEntry { message: owned("{input.owner} not found") })] },
    };
    assert(crate::openapi_importer::responses::message_views(responses.codes.entries@) =~= seq![("404"@, "{input.owner} not found"@)]);
    let create_item = Command {
        description: Some(owned("Create an item")),
        endpoint: Some(owned("/items")),
        method: Some(HttpMethod::POST),
        auth: None,
        headers: no_headers(),
        params: no_params(),
        body: None,
        responses: Some(responses),
        commands: None,
    };
    let ghost g = cmd_found(create_item);
    let commands = Dict { entries: vec![(owned("create-item"), create_item)] };
    assert(cmds_found(commands.entries@) =~= seq![("create-item"@, g)]);
    let no_env: Vec<EnvVar> = Vec::new();
    assert(env_names(no_env@) =~= Seq::<Seq<char>>::empty());
    sample_api("response-api", "API with response configs", "https://api.example.com", no_env, commands)
}

} // verus!
