//! Fail-fast configuration: everything is validated up front and all problems
//! are reported in one error — a clear "missing GITHUB_APP_ID" beats a cryptic
//! JWT signing failure three layers deep.

use vstd::prelude::*;

use crate::anthropic::{AnthropicConfig, DEFAULT_BASE_URL as ANTHROPIC_URL};
use crate::autumn::{AutumnConfig, DEFAULT_BASE_URL as AUTUMN_URL};
use crate::github::GithubConfig;
use crate::text::{
    begins_with, clone_option, contains_text, debug_of, debug_text, holds_text, is_blank, join,
    joined, law_joining_separates, law_parts_of_a_text, lemma_holds_in_more, lemma_joined_shows,
    lemma_shown_between, lemma_views_push, option_view, parse_u64, parsed_u64, strip_prefix, trim, trimmed, views,
};

verus! {

/// The environment variables that configure the server, as far as they are set.
#[derive(Debug)]
pub struct Environment {
    pub bind_addr: Option<String>,
    pub database_url: Option<String>,
    pub github_webhook_secret: Option<String>,
    pub github_app_id: Option<String>,
    pub github_private_key: Option<String>,
    pub github_private_key_path: Option<String>,
    pub github_base_url: Option<String>,
    pub anthropic_api_key: Option<String>,
    pub anthropic_model: Option<String>,
    pub anthropic_base_url: Option<String>,
    pub autumn_secret_key: Option<String>,
    pub autumn_base_url: Option<String>,
}

pub struct ServerConfig {
    pub bind_addr: String,
    pub database_url: String,
    pub webhook_secret: String,
    pub github_app_id: u64,
    pub github_private_key_pem: String,
    pub github_base_url: Option<String>,
    pub anthropic_api_key: String,
    pub anthropic_model: Option<String>,
    pub anthropic_base_url: Option<String>,
    pub autumn_secret_key: String,
    pub autumn_base_url: Option<String>,
}

/// A variable, where it is set to more than blanks.
pub open spec fn set_value(value: Option<Seq<char>>) -> Option<Seq<char>> {
    match value {
        Some(v) => if trimmed(v).len() > 0 {
            Some(v)
        } else {
            None
        },
        None => None,
    }
}

/// A variable, where it is set to more than blanks.
pub fn optional(value: &Option<String>) -> (set: Option<String>)
    ensures
        option_view(set) == set_value(option_view(*value)),
{
    match value {
        Some(v) => if is_blank(v.as_str()) {
            None
        } else {
            Some(v.clone())
        },
        None => None,
    }
}

/// What is said of a variable that is missing.
pub open spec fn missing(key: Seq<char>) -> Seq<char> {
    "missing required env var "@ + key
}

/// The problems of a required variable.
pub open spec fn required_problems(key: Seq<char>, value: Option<Seq<char>>) -> Seq<Seq<char>> {
    if set_value(value) is Some {
        Seq::empty()
    } else {
        seq![missing(key)]
    }
}

fn require(problems: &mut Vec<String>, key: &str, value: &Option<String>) -> (set: Option<String>)
    ensures
        option_view(set) == set_value(option_view(*value)),
        views(final(problems)@) == views(old(problems)@) + required_problems(
            key@,
            option_view(*value),
        ),
{
    let set = optional(value);
    if set.is_none() {
        let mut problem = String::from_str("missing required env var ");
        problem.append(key);
        proof {
            lemma_views_push(problems@, problem);
        }
        problems.push(problem);
    }
    proof {
        assert(views(problems@) =~= views(old(problems)@) + required_problems(
            key@,
            option_view(*value),
        ));
    }
    set
}

/// The App id that a text gives.
pub open spec fn app_id_of(value: Option<Seq<char>>) -> Option<u64> {
    match value {
        Some(raw) => parsed_u64(trimmed(raw)),
        None => None,
    }
}

/// The problems of the App id.
pub open spec fn app_id_problems(value: Option<Seq<char>>) -> Seq<Seq<char>> {
    match value {
        Some(raw) => if parsed_u64(trimmed(raw)) is Some {
            Seq::empty()
        } else {
            seq!["GITHUB_APP_ID must be the numeric App ID, got "@ + debug_text(raw)]
        },
        None => seq!["missing required env var GITHUB_APP_ID"@],
    }
}

/// What is said of an App id that is no number, from its quoted form.
pub fn not_numeric(quoted: &str) -> (problem: String)
    ensures
        problem@ == "GITHUB_APP_ID must be the numeric App ID, got "@ + quoted@,
{
    let mut problem = String::from_str("GITHUB_APP_ID must be the numeric App ID, got ");
    problem.append(quoted);
    problem
}

fn app_id(problems: &mut Vec<String>, value: &Option<String>) -> (id: Option<u64>)
    ensures
        id == app_id_of(option_view(*value)),
        views(final(problems)@) == views(old(problems)@) + app_id_problems(option_view(*value)),
{
    let ghost before = views(problems@);
    let problem = match value {
        Some(raw) => match parse_u64(trim(raw.as_str()).as_str()) {
            Some(id) => {
                proof {
                    assert(before =~= before + app_id_problems(option_view(*value)));
                }
                return Some(id);
            },
            None => not_numeric(debug_of(raw.as_str()).as_str()),
        },
        None => String::from_str("missing required env var GITHUB_APP_ID"),
    };
    proof {
        lemma_views_push(problems@, problem);
    }
    problems.push(problem);
    proof {
        assert(views(problems@) =~= before + app_id_problems(option_view(*value)));
    }
    None
}

/// Where the App's private key comes from.
#[derive(Debug)]
pub enum KeySource {
    /// The key itself.
    Inline(String),
    /// The file at this path.
    File(String),
    /// Nowhere, and why.
    Problem(String),
}

/// A source's model.
pub enum KeySourceView {
    Inline(Seq<char>),
    File(Seq<char>),
    Problem(Seq<char>),
}

impl View for KeySource {
    type V = KeySourceView;

    open spec fn view(&self) -> KeySourceView {
        match self {
            KeySource::Inline(s) => KeySourceView::Inline(s@),
            KeySource::File(s) => KeySourceView::File(s@),
            KeySource::Problem(s) => KeySourceView::Problem(s@),
        }
    }
}

/// Whether a text looks like a PEM private key.
pub open spec fn looks_like_key(text: Seq<char>) -> bool {
    holds_text(text, "PRIVATE KEY"@)
}

/// A path with a leading `~/` replaced by the home directory, where it is known.
pub open spec fn expanded(path: Seq<char>, home: Option<Seq<char>>) -> Seq<char> {
    if begins_with(path, "~/"@) && home is Some {
        home->0 + "/"@ + path.skip("~/"@.len() as int)
    } else {
        path
    }
}

/// Reading a file does not expand `~` — an entry like
/// `GITHUB_PRIVATE_KEY_PATH=~/.secrets/key.pem` would otherwise fail as a
/// relative path literally named `~`.
pub fn expand_tilde(path: &str, home: &Option<String>) -> (s: String)
    ensures
        s@ == expanded(path@, option_view(*home)),
{
    if let Some(rest) = strip_prefix(path, "~/") {
        if let Some(home) = home {
            let mut s = home.clone();
            s.append("/");
            s.append(rest.as_str());
            return s;
        }
    }
    String::from_str(path)
}

/// Where the key comes from: an inline PEM wins if set; else the path,
/// tilde-expanded.
pub open spec fn key_source_of(
    inline: Option<Seq<char>>,
    path: Option<Seq<char>>,
    home: Option<Seq<char>>,
) -> KeySourceView {
    match set_value(inline) {
        Some(key) => if looks_like_key(key) {
            KeySourceView::Inline(key)
        } else {
            KeySourceView::Problem(
                "GITHUB_PRIVATE_KEY is set but does not look like a PEM private key"@,
            )
        },
        None => match set_value(path) {
            Some(raw) => KeySourceView::File(expanded(raw, home)),
            None => KeySourceView::Problem(
                "set GITHUB_PRIVATE_KEY (inline PEM) or GITHUB_PRIVATE_KEY_PATH"@,
            ),
        },
    }
}

/// Resolve where the GitHub App private key comes from.
pub fn load_private_key(env: &Environment, home: &Option<String>) -> (source: KeySource)
    ensures
        source@ == key_source_of(
            option_view(env.github_private_key),
            option_view(env.github_private_key_path),
            option_view(*home),
        ),
{
    if let Some(inline) = optional(&env.github_private_key) {
        if contains_text(inline.as_str(), "PRIVATE KEY") {
            return KeySource::Inline(inline);
        }
        return KeySource::Problem(
            String::from_str("GITHUB_PRIVATE_KEY is set but does not look like a PEM private key"),
        );
    }
    match optional(&env.github_private_key_path) {
        Some(raw) => KeySource::File(expand_tilde(raw.as_str(), home)),
        None => KeySource::Problem(
            String::from_str("set GITHUB_PRIVATE_KEY (inline PEM) or GITHUB_PRIVATE_KEY_PATH"),
        ),
    }
}

/// The key in a file, or the problem with it.
pub open spec fn key_in_file(path: Seq<char>, read: Result<Seq<char>, Seq<char>>) -> Result<
    Seq<char>,
    Seq<char>,
> {
    match read {
        Ok(pem) => if looks_like_key(pem) {
            Ok(pem)
        } else {
            Err(
                "GITHUB_PRIVATE_KEY_PATH ("@ + path
                    + ") is readable but does not contain a PEM private key"@,
            )
        },
        Err(e) => Err("GITHUB_PRIVATE_KEY_PATH ("@ + path + ") is not readable: "@ + e),
    }
}

/// The model of a text or a problem.
pub open spec fn texts(r: Result<String, String>) -> Result<Seq<char>, Seq<char>> {
    match r {
        Ok(s) => Ok(s@),
        Err(e) => Err(e@),
    }
}

/// The key in a file as it was read, or the problem with it.
pub fn key_from_file(path: &str, read: Result<String, String>) -> (key: Result<String, String>)
    ensures
        texts(key) == key_in_file(path@, texts(read)),
{
    let mut problem = String::from_str("GITHUB_PRIVATE_KEY_PATH (");
    problem.append(path);
    match read {
        Ok(pem) => {
            if contains_text(pem.as_str(), "PRIVATE KEY") {
                return Ok(pem);
            }
            problem.append(") is readable but does not contain a PEM private key");
        },
        Err(e) => {
            problem.append(") is not readable: ");
            problem.append(e.as_str());
        },
    }
    Err(problem)
}

/// The problems of a key.
pub open spec fn key_problems(key: Result<Seq<char>, Seq<char>>) -> Seq<Seq<char>> {
    match key {
        Ok(_) => Seq::empty(),
        Err(problem) => seq![problem],
    }
}

/// Every problem of a configuration, in the order in which they are reported.
pub open spec fn problems_of(env: Environment, key: Result<Seq<char>, Seq<char>>) -> Seq<Seq<char>> {
    required_problems("DATABASE_URL"@, option_view(env.database_url)) + required_problems(
        "GITHUB_WEBHOOK_SECRET"@,
        option_view(env.github_webhook_secret),
    ) + required_problems("ANTHROPIC_API_KEY"@, option_view(env.anthropic_api_key))
        + required_problems("AUTUMN_SECRET_KEY"@, option_view(env.autumn_secret_key))
        + app_id_problems(option_view(env.github_app_id)) + key_problems(key)
}

/// The error that lists all problems.
pub open spec fn invalid_configuration(problems: Seq<Seq<char>>) -> Seq<char> {
    "configuration invalid:\n  - "@ + joined(problems, "\n  - "@)
}

/// The address to bind where none is set.
pub const DEFAULT_BIND_ADDR: &'static str = "0.0.0.0:8080";

/// Whether a configuration holds what the environment and the key say.
pub open spec fn configured(
    config: ServerConfig,
    env: Environment,
    key: Result<Seq<char>, Seq<char>>,
) -> bool {
    &&& config.bind_addr@ == (match env.bind_addr {
        Some(addr) => addr@,
        None => DEFAULT_BIND_ADDR@,
    })
    &&& set_value(option_view(env.database_url)) == Some(config.database_url@)
    &&& set_value(option_view(env.github_webhook_secret)) == Some(config.webhook_secret@)
    &&& app_id_of(option_view(env.github_app_id)) == Some(config.github_app_id)
    &&& key == Ok::<Seq<char>, Seq<char>>(config.github_private_key_pem@)
    &&& option_view(config.github_base_url) == set_value(option_view(env.github_base_url))
    &&& set_value(option_view(env.anthropic_api_key)) == Some(config.anthropic_api_key@)
    &&& option_view(config.anthropic_model) == set_value(option_view(env.anthropic_model))
    &&& option_view(config.anthropic_base_url) == set_value(option_view(env.anthropic_base_url))
    &&& set_value(option_view(env.autumn_secret_key)) == Some(config.autumn_secret_key@)
    &&& option_view(config.autumn_base_url) == set_value(option_view(env.autumn_base_url))
}

impl ServerConfig {
    /// Validate. Collects every problem before failing so one run surfaces the
    /// complete list.
    pub fn load(env: &Environment, key: Result<String, String>) -> (config: Result<Self, String>)
        ensures
            config is Ok <==> problems_of(*env, texts(key)).len() == 0,
            config matches Ok(c) ==> configured(c, *env, texts(key)),
            config matches Err(e) ==> e@ == invalid_configuration(problems_of(*env, texts(key))),
    {
        let mut problems: Vec<String> = Vec::new();
        proof {
            assert(views(problems@) =~= Seq::<Seq<char>>::empty());
        }
        let database_url = require(&mut problems, "DATABASE_URL", &env.database_url);
        proof {
            assert(views(problems@) =~= required_problems(
                "DATABASE_URL"@,
                option_view(env.database_url),
            ));
        }
        let webhook_secret = require(
            &mut problems,
            "GITHUB_WEBHOOK_SECRET",
            &env.github_webhook_secret,
        );
        let anthropic_api_key = require(&mut problems, "ANTHROPIC_API_KEY", &env.anthropic_api_key);
        let autumn_secret_key = require(&mut problems, "AUTUMN_SECRET_KEY", &env.autumn_secret_key);
        let github_app_id = app_id(&mut problems, &env.github_app_id);
        let ghost before = views(problems@);
        let pem = match key {
            Ok(pem) => {
                proof {
                    assert(before =~= before + key_problems(texts(key)));
                }
                Some(pem)
            },
            Err(problem) => {
                proof {
                    lemma_views_push(problems@, problem);
                    assert(before.push(problem@) =~= before + key_problems(texts(key)));
                }
                problems.push(problem);
                None
            },
        };
        proof {
            assert(views(problems@) == problems_of(*env, texts(key)));
        }
        if problems.is_empty() {
            if let (
                Some(database_url),
                Some(webhook_secret),
                Some(anthropic_api_key),
                Some(autumn_secret_key),
                Some(github_app_id),
                Some(github_private_key_pem),
            ) = (
                database_url,
                webhook_secret,
                anthropic_api_key,
                autumn_secret_key,
                github_app_id,
                pem,
            ) {
                return Ok(
                    ServerConfig {
                        bind_addr: match &env.bind_addr {
                            Some(addr) => addr.clone(),
                            None => String::from_str(DEFAULT_BIND_ADDR),
                        },
                        database_url,
                        webhook_secret,
                        github_app_id,
                        github_private_key_pem,
                        github_base_url: optional(&env.github_base_url),
                        anthropic_api_key,
                        anthropic_model: optional(&env.anthropic_model),
                        anthropic_base_url: optional(&env.anthropic_base_url),
                        autumn_secret_key,
                        autumn_base_url: optional(&env.autumn_base_url),
                    },
                );
            }
        }
        let mut message = String::from_str("configuration invalid:\n  - ");
        let list = join(&problems, "\n  - ");
        message.append(list.as_str());
        Err(message)
    }

    /// The model's client configuration: a default model, and the overrides
    /// that are set.
    pub fn anthropic(&self, default_model: &str) -> (config: AnthropicConfig)
        ensures
            config.api_key@ == self.anthropic_api_key@,
            config.model@ == (match self.anthropic_model {
                Some(model) => model@,
                None => default_model@,
            }),
            config.base_url@ == (match self.anthropic_base_url {
                Some(base) => base@,
                None => ANTHROPIC_URL@,
            }),
    {
        let mut config = AnthropicConfig::new(
            self.anthropic_api_key.as_str(),
            default_model,
        );
        if let Some(model) = &self.anthropic_model {
            config.model = model.clone();
        }
        if let Some(base) = &self.anthropic_base_url {
            config.base_url = base.clone();
        }
        config
    }

    /// The billing client's configuration, with the override that is set.
    pub fn autumn(&self) -> (config: AutumnConfig)
        ensures
            config.secret_key@ == self.autumn_secret_key@,
            config.base_url@ == (match self.autumn_base_url {
                Some(base) => base@,
                None => AUTUMN_URL@,
            }),
    {
        let mut config = AutumnConfig::new(self.autumn_secret_key.as_str());
        if let Some(base) = &self.autumn_base_url {
            config.base_url = base.clone();
        }
        config
    }

    /// The host client's configuration.
    pub fn github(&self) -> (config: GithubConfig)
        ensures
            config.app_id == self.github_app_id,
            config.private_key_pem@ == self.github_private_key_pem@,
            option_view(config.base_url) == option_view(self.github_base_url),
    {
        GithubConfig {
            app_id: self.github_app_id,
            private_key_pem: self.github_private_key_pem.clone(),
            base_url: clone_option(&self.github_base_url),
        }
    }
}

/// Every variable that is missing or wrong is reported, whatever else is, and
/// nothing is where nothing is wrong.
pub proof fn law_every_problem_is_reported(env: Environment, key: Result<Seq<char>, Seq<char>>)
    ensures
        problems_of(env, key).contains(missing("DATABASE_URL"@)) <== set_value(
            option_view(env.database_url),
        ) is None,
        problems_of(env, key).contains(missing("GITHUB_WEBHOOK_SECRET"@)) <== set_value(
            option_view(env.github_webhook_secret),
        ) is None,
        problems_of(env, key).contains(missing("ANTHROPIC_API_KEY"@)) <== set_value(
            option_view(env.anthropic_api_key),
        ) is None,
        problems_of(env, key).contains(missing("AUTUMN_SECRET_KEY"@)) <== set_value(
            option_view(env.autumn_secret_key),
        ) is None,
        problems_of(env, key).contains("missing required env var GITHUB_APP_ID"@)
            <== env.github_app_id is None,
        env.github_app_id matches Some(raw) ==> parsed_u64(trimmed(raw@)) is None ==> problems_of(
            env,
            key,
        ).contains("GITHUB_APP_ID must be the numeric App ID, got "@ + debug_text(raw@)),
        key matches Err(problem) ==> problems_of(env, key).contains(problem),
        problems_of(env, key).len() == 0 <==> {
            &&& set_value(option_view(env.database_url)) is Some
            &&& set_value(option_view(env.github_webhook_secret)) is Some
            &&& set_value(option_view(env.anthropic_api_key)) is Some
            &&& set_value(option_view(env.autumn_secret_key)) is Some
            &&& app_id_of(option_view(env.github_app_id)) is Some
            &&& key is Ok
        },
{
    let a = required_problems("DATABASE_URL"@, option_view(env.database_url));
    let b = required_problems("GITHUB_WEBHOOK_SECRET"@, option_view(env.github_webhook_secret));
    let c = required_problems("ANTHROPIC_API_KEY"@, option_view(env.anthropic_api_key));
    let d = required_problems("AUTUMN_SECRET_KEY"@, option_view(env.autumn_secret_key));
    let e = app_id_problems(option_view(env.github_app_id));
    let f = key_problems(key);
    let all = problems_of(env, key);
    if a.len() > 0 {
        assert(all[0] == a[0]);
    }
    if b.len() > 0 {
        assert(all[a.len() as int] == b[0]);
    }
    if c.len() > 0 {
        assert(all[(a.len() + b.len()) as int] == c[0]);
    }
    if d.len() > 0 {
        assert(all[(a.len() + b.len() + c.len()) as int] == d[0]);
    }
    if e.len() > 0 {
        assert(all[(a.len() + b.len() + c.len() + d.len()) as int] == e[0]);
    }
    if f.len() > 0 {
        assert(all[(a.len() + b.len() + c.len() + d.len() + e.len()) as int] == f[0]);
    }
}

/// A variable counts as set exactly where it holds more than blanks, and is then
/// taken as it is.
pub proof fn law_a_variable_is_taken_as_it_is(v: Seq<char>)
    ensures
        trimmed(v).len() > 0 ==> set_value(Some(v)) == Some(v),
        trimmed(v).len() == 0 ==> set_value(Some(v)) is None,
        set_value(None) is None,
{
}

/// The error of a configuration shows every problem, each on a line of its own.
pub proof fn law_the_error_shows_every_problem(
    env: Environment,
    key: Result<Seq<char>, Seq<char>>,
    i: int,
)
    ensures
        begins_with(
            invalid_configuration(problems_of(env, key)),
            "configuration invalid:\n  - "@,
        ),
        0 <= i < problems_of(env, key).len() ==> holds_text(
            invalid_configuration(problems_of(env, key)),
            problems_of(env, key)[i],
        ),
        option_view(env.database_url) is None ==> holds_text(
            invalid_configuration(problems_of(env, key)),
            "missing required env var "@ + "DATABASE_URL"@,
        ),
        option_view(env.github_webhook_secret) is None ==> holds_text(
            invalid_configuration(problems_of(env, key)),
            "missing required env var "@ + "GITHUB_WEBHOOK_SECRET"@,
        ),
        option_view(env.anthropic_api_key) is None ==> holds_text(
            invalid_configuration(problems_of(env, key)),
            "missing required env var "@ + "ANTHROPIC_API_KEY"@,
        ),
        option_view(env.autumn_secret_key) is None ==> holds_text(
            invalid_configuration(problems_of(env, key)),
            "missing required env var "@ + "AUTUMN_SECRET_KEY"@,
        ),
        env.github_app_id is None ==> holds_text(
            invalid_configuration(problems_of(env, key)),
            "missing required env var GITHUB_APP_ID"@,
        ),
        key matches Err(problem) ==> holds_text(
            invalid_configuration(problems_of(env, key)),
            problem,
        ),
{
    let all = problems_of(env, key);
    let text = invalid_configuration(all);
    let head = "configuration invalid:\n  - "@;
    law_parts_of_a_text(text, head);
    assert(text == head + joined(all, "\n  - "@));
    law_every_problem_is_reported(env, key);
    assert forall|p: Seq<char>| #[trigger] all.contains(p) implies holds_text(text, p) by {
        let k = choose|k: int| 0 <= k < all.len() && all[k] == p;
        lemma_joined_shows(all, "\n  - "@, k);
        lemma_holds_in_more(head, joined(all, "\n  - "@), Seq::empty(), p);
        assert(text =~= head + joined(all, "\n  - "@) + Seq::<char>::empty());
    }
    if 0 <= i < all.len() {
        assert(all.contains(all[i]));
    }
}

/// One problem more is put behind the others, on a line of its own.
pub proof fn law_a_problem_more(problems: Seq<Seq<char>>, problem: Seq<char>)
    ensures
        problems.len() > 0 ==> invalid_configuration(problems.push(problem))
            == invalid_configuration(problems) + "\n  - "@ + problem,
        problems.len() == 0 ==> invalid_configuration(problems.push(problem))
            == "configuration invalid:\n  - "@ + problem,
{
    law_joining_separates(problems, problem, "\n  - "@);
    assert(problems.len() == 0 ==> problems.push(problem) =~= seq![problem]);
    assert(problems.len() > 0 ==> invalid_configuration(problems.push(problem))
        =~= invalid_configuration(problems) + "\n  - "@ + problem);
}

/// Each part of a configuration comes from its own variable: what must be set is
/// the variable's text as it is, what may be set is so too or is left out, and
/// the address has a default.
pub proof fn law_each_setting_comes_from_its_variable(
    config: ServerConfig,
    env: Environment,
    key: Result<Seq<char>, Seq<char>>,
)
    requires
        configured(config, env, key),
    ensures
        env.database_url matches Some(v) && config.database_url@ == v@ && trimmed(v@).len() > 0,
        env.github_webhook_secret matches Some(v) && config.webhook_secret@ == v@ && trimmed(v@).len() > 0,
        env.anthropic_api_key matches Some(v) && config.anthropic_api_key@ == v@ && trimmed(v@).len() > 0,
        env.autumn_secret_key matches Some(v) && config.autumn_secret_key@ == v@ && trimmed(v@).len() > 0,
        env.github_app_id matches Some(v) && parsed_u64(trimmed(v@)) == Some(config.github_app_id),
        key matches Ok(pem) && config.github_private_key_pem@ == pem,
        env.bind_addr matches Some(v) ==> config.bind_addr@ == v@,
        env.bind_addr is None ==> config.bind_addr@ == "0.0.0.0:8080"@,
        config.github_base_url matches Some(u) ==> (env.github_base_url matches Some(v) && u@
            == v@ && trimmed(v@).len() > 0),
        config.anthropic_model matches Some(u) ==> (env.anthropic_model matches Some(v) && u@
            == v@ && trimmed(v@).len() > 0),
        config.anthropic_base_url matches Some(u) ==> (env.anthropic_base_url matches Some(v) && u@
            == v@ && trimmed(v@).len() > 0),
        config.autumn_base_url matches Some(u) ==> (env.autumn_base_url matches Some(v) && u@
            == v@ && trimmed(v@).len() > 0),
        config.github_base_url is None ==> (env.github_base_url matches Some(v) ==> trimmed(
            v@,
        ).len() == 0),
        config.anthropic_model is None ==> (env.anthropic_model matches Some(v) ==> trimmed(
            v@,
        ).len() == 0),
        config.anthropic_base_url is None ==> (env.anthropic_base_url matches Some(v) ==> trimmed(
            v@,
        ).len() == 0),
        config.autumn_base_url is None ==> (env.autumn_base_url matches Some(v) ==> trimmed(
            v@,
        ).len() == 0),
{
}

/// A path that begins with a tilde and a slash lies in the home directory, where
/// that is known; any other path is taken as it is.
pub proof fn law_a_tilde_is_the_home_directory(rest: Seq<char>, path: Seq<char>, home: Seq<char>)
    ensures
        expanded("~/"@ + rest, Some(home)) == home + "/"@ + rest,
        expanded("~/"@ + rest, None) == "~/"@ + rest,
        !begins_with(path, "~/"@) ==> expanded(path, Some(home)) == path,
{
    law_parts_of_a_text("~/"@ + rest, "~/"@);
    assert(("~/"@ + rest).skip("~/"@.len() as int) =~= rest);
}

/// The key is the inline one where one is set, whatever the path says; without
/// it, it is in the file at the path. A text without a private key is refused.
pub proof fn law_the_inline_key_wins(
    inline: Seq<char>,
    path: Option<Seq<char>>,
    raw: Seq<char>,
    home: Option<Seq<char>>,
    e: Seq<char>,
)
    ensures
        trimmed(inline).len() > 0 && holds_text(inline, "PRIVATE KEY"@) ==> key_source_of(
            Some(inline),
            path,
            home,
        ) == KeySourceView::Inline(inline),
        trimmed(inline).len() > 0 && !holds_text(inline, "PRIVATE KEY"@) ==> key_source_of(
            Some(inline),
            path,
            home,
        ) is Problem,
        trimmed(raw).len() > 0 ==> key_source_of(None, Some(raw), home) == KeySourceView::File(
            expanded(raw, home),
        ),
        trimmed(inline).len() == 0 ==> key_source_of(Some(inline), path, home) == key_source_of(
            None,
            path,
            home,
        ),
        key_source_of(None, None, home) is Problem,
        holds_text(inline, "PRIVATE KEY"@) ==> key_in_file(raw, Ok(inline)) == Ok::<
            Seq<char>,
            Seq<char>,
        >(inline),
        !holds_text(inline, "PRIVATE KEY"@) ==> (key_in_file(raw, Ok(inline)) matches Err(p)
            && holds_text(p, raw)),
        key_in_file(raw, Err(e)) matches Err(p) && holds_text(p, raw) && holds_text(p, e),
{
    let open = "GITHUB_PRIVATE_KEY_PATH ("@;
    let refused = ") is readable but does not contain a PEM private key"@;
    let unread = ") is not readable: "@;
    lemma_shown_between(open, raw, refused);
    lemma_shown_between(open, raw, unread + e);
    lemma_shown_between(open + raw + unread, e, Seq::empty());
    assert(open + raw + unread + e =~= open + raw + (unread + e));
    assert(open + raw + unread + e =~= (open + raw + unread) + e + Seq::<char>::empty());
}

} // verus!
