//! The command line of the proxy, and how it goes together with the settings
//! in `proxy.toml`.
use crate::catalog::ModelCatalog;
use crate::config::{router_error_text, ModelEntry, ModelEntryView, RouterError};
use crate::models::opt_text;
use crate::proxy_config::{
    default_settings, CatalogConfig, ProxyConfig, ProxyConfigView, ServerConfig,
};
use crate::text::{
    chars_of, concat, copy_texts, decimal, decimal_text, join, joined, opt_str, same, strip_prefix, texts,
    without_prefix,
};
use clap::builder::{NonEmptyStringValueParser, ValueParserFactory};
use clap::{Arg, ArgAction, Command};
use vstd::prelude::*;

verus! {

/// The version of the proxy.
pub const VERSION: &'static str = "0.1.0";

/// What clap says instead of reading a command line: that it is wrong, or what
/// the line asked to be told.
#[derive(Debug)]
pub struct Notice {
    pub is_error: bool,
    pub text: String,
}

/// An option that takes a value: its name, and the words for its value and for
/// what it does.
#[derive(Clone, Copy, Debug)]
pub struct CliOption {
    pub name: &'static str,
    pub value_name: &'static str,
    pub help: &'static str,
}

/// An option as a value.
pub struct OptionView {
    pub name: Seq<char>,
    pub value_name: Seq<char>,
    pub help: Seq<char>,
}

impl View for CliOption {
    type V = OptionView;

    open spec fn view(&self) -> OptionView {
        OptionView { name: self.name@, value_name: self.value_name@, help: self.help@ }
    }
}

/// What clap finds on a command line: texts, a number, and a list of texts; or
/// whether it says that the line is wrong, and its words.
pub type Findings = Result<(Vec<Option<String>>, Option<u16>, Vec<String>), (bool, String)>;

/// What the options on a command line come to: the value of each single one, the
/// port, and the values of the one that takes several; or whether clap says that
/// the line is wrong, and its words.
pub type MatchedArgs = Result<
    (Seq<Option<Seq<char>>>, Option<u16>, Seq<Seq<char>>),
    (bool, Seq<char>),
>;

/// What `clap::Command::try_get_matches_from` makes of a command line, for a
/// program of this name and version with the given options in this order. Of
/// those, `singles` take one text each, which is not empty for `path`; `port`
/// takes one number of sixteen bits, and `many` takes texts, any number of times
/// and with a delimiter between several.
pub uninterp spec fn matched_args(
    program: Seq<char>,
    version: Seq<char>,
    options: Seq<OptionView>,
    path: Seq<char>,
    singles: Seq<Seq<char>>,
    port: Seq<char>,
    many: Seq<char>,
    delimiter: char,
    argv: Seq<Seq<char>>,
) -> MatchedArgs;

/// A list of fixed texts.
pub open spec fn names(list: Seq<&'static str>) -> Seq<Seq<char>> {
    list.map_values(|s: &'static str| s@)
}

/// Options as values.
pub open spec fn options_of(list: Seq<CliOption>) -> Seq<OptionView> {
    list.map_values(|o: CliOption| o@)
}

/// The names of options.
pub open spec fn option_names(options: Seq<OptionView>) -> Seq<Seq<char>> {
    options.map_values(|o: OptionView| o.name)
}

/// Whether clap takes options of these names: each is there once, and none is
/// empty or starts with a dash.
pub open spec fn fit_for_options(names: Seq<Seq<char>>) -> bool {
    &&& names.no_duplicates()
    &&& forall|i: int| 0 <= i < names.len() ==> (#[trigger] names[i]).len() > 0 && names[i][0] != '-'
}

/// Whether each of the names is that of one option, and none stands twice.
pub open spec fn named_once(names: Seq<Seq<char>>, options: Seq<OptionView>) -> bool {
    &&& names.no_duplicates()
    &&& forall|i: int|
        0 <= i < names.len() ==> option_names(options).contains(#[trigger] names[i])
}

/// What clap returned, as a value.
pub open spec fn matched_outcome(r: Findings) -> MatchedArgs {
    match r {
        Ok(found) => Ok(
            (
                found.0@.map_values(|s: Option<String>| opt_text(s)),
                found.1,
                texts(found.2@),
            ),
        ),
        Err((is_error, text)) => Err((is_error, text@)),
    }
}

/// `clap::Command::try_get_matches_from` on a command with these options, each
/// of them long and optional, its `remove_one` and `remove_many`, and
/// `use_stderr` and the text of its error: what comes out is a function of the
/// command and of the command line, and there is one value for each single
/// option. clap does not take two options of one name, one that is named like its
/// own `help` and `version`, or one with a dash in front, and it panics where an
/// option that it does not have is asked for.
#[verifier::external_body]
fn match_args(
    program: &'static str,
    version: &'static str,
    options: &Vec<CliOption>,
    path: &'static str,
    singles: &Vec<&'static str>,
    port: &'static str,
    many: &'static str,
    delimiter: char,
    argv: &Vec<String>,
) -> (r: Findings)
    requires
        fit_for_options(option_names(options_of(options@)).push("help"@).push("version"@)),
        named_once(names(singles@).push(port@).push(many@), options_of(options@)),
        names(singles@).contains(path@),
    ensures
        matched_outcome(r) == matched_args(
            program@,
            version@,
            options_of(options@),
            path@,
            names(singles@),
            port@,
            many@,
            delimiter,
            texts(argv@),
        ),
        r matches Ok(found) ==> found.0@.len() == singles@.len(),
{
    let mut found = Command::new(program)
        .version(version)
        .args(options.iter().map(|o| Arg::new(o.name).long(o.name).value_name(o.value_name).help(o.help)))
        .mut_arg(path, |a| a.value_parser(NonEmptyStringValueParser::new()))
        .mut_arg(port, |a| a.value_parser(u16::value_parser()))
        .mut_arg(many, |a| a.action(ArgAction::Append).value_delimiter(delimiter))
        .try_get_matches_from(argv)
        .map_err(|e| (e.use_stderr(), e.to_string()))?;
    Ok((
        singles.iter().map(|name| found.remove_one(name)).collect(),
        found.remove_one(port),
        found.remove_many(many).unwrap_or_default().collect(),
    ))
}

/// The command line of the proxy.
#[derive(Clone, Debug)]
pub struct Args {
    /// Path of `proxy.toml`.
    pub config: Option<String>,
    /// In place of `server.host`.
    pub host: Option<String>,
    /// In place of `server.port`.
    pub port: Option<u16>,
    /// In place of `catalog.models_dir`.
    pub models_dir: Option<String>,
    /// In place of `catalog.proxy_default_model`.
    pub proxy_default_model: Option<String>,
    /// In place of `catalog.pool`, in order of priority.
    pub pool: Vec<String>,
}

/// A command line as a value.
pub struct ArgsView {
    pub config: Option<Seq<char>>,
    pub host: Option<Seq<char>>,
    pub port: Option<u16>,
    pub models_dir: Option<Seq<char>>,
    pub proxy_default_model: Option<Seq<char>>,
    pub pool: Seq<Seq<char>>,
}

impl View for Args {
    type V = ArgsView;

    open spec fn view(&self) -> ArgsView {
        ArgsView {
            config: opt_text(self.config),
            host: opt_text(self.host),
            port: self.port,
            models_dir: opt_text(self.models_dir),
            proxy_default_model: opt_text(self.proxy_default_model),
            pool: texts(self.pool@),
        }
    }
}

/// What the option `--config` does.
pub const CONFIG_HELP: &'static str = "Path to `proxy.toml`. Search order: 1. `--config <path>` (if provided) 2. `./proxy.toml` 3. `~/.latte/proxy.toml`";

/// What the option `--host` does.
pub const HOST_HELP: &'static str = "Override `server.host` from proxy.toml";

/// What the option `--port` does.
pub const PORT_HELP: &'static str = "Override `server.port` from proxy.toml";

/// What the option `--models-dir` does.
pub const MODELS_DIR_HELP: &'static str = "Override `catalog.models_dir` from proxy.toml";

/// What the option `--proxy-default-model` does.
pub const DEFAULT_MODEL_HELP: &'static str = "Override `catalog.proxy_default_model` from proxy.toml. The client sends this name in `model` to trigger silent priority selection";

/// What the option `--pool` does.
pub const POOL_HELP: &'static str = "Override `catalog.pool` from proxy.toml. Comma-separated candidate ids in priority order (first = highest)";

/// An option of this name, with the words for its value and for what it does.
pub open spec fn option(
    name: &'static str,
    value_name: &'static str,
    help: &'static str,
) -> OptionView {
    OptionView { name: name@, value_name: value_name@, help: help@ }
}

/// The options of the proxy.
pub open spec fn proxy_options() -> Seq<OptionView> {
    seq![
        option("config", "CONFIG", CONFIG_HELP),
        option("host", "HOST", HOST_HELP),
        option("port", "PORT", PORT_HELP),
        option("models-dir", "MODELS_DIR", MODELS_DIR_HELP),
        option("proxy-default-model", "PROXY_DEFAULT_MODEL", DEFAULT_MODEL_HELP),
        option("pool", "POOL", POOL_HELP),
    ]
}

/// The options of the proxy that take one text.
pub open spec fn single_options() -> Seq<Seq<char>> {
    seq!["config"@, "host"@, "models-dir"@, "proxy-default-model"@]
}

/// A command line, or what clap says instead, as a value.
pub open spec fn args_outcome(r: Result<Args, Notice>) -> Result<ArgsView, (bool, Seq<char>)> {
    match r {
        Ok(args) => Ok(args@),
        Err(notice) => Err((notice.is_error, notice.text@)),
    }
}

/// The command line that clap's findings come to.
pub open spec fn args_from(found: MatchedArgs) -> Result<ArgsView, (bool, Seq<char>)> {
    match found {
        Ok((one, port, pool)) => Ok(
            ArgsView {
                config: one[0],
                host: one[1],
                port,
                models_dir: one[2],
                proxy_default_model: one[3],
                pool,
            },
        ),
        Err(notice) => Err(notice),
    }
}

/// A file that may be there.
#[derive(Debug)]
pub struct Place {
    pub path: String,
    pub exists: bool,
}

/// Where a settings file may be: in the working directory and in the home
/// directory, each where there is one.
#[derive(Debug)]
pub struct ConfigPlaces {
    pub cwd: Option<Place>,
    pub home: Option<Place>,
}

/// The path of the settings: the given one, else that in the working directory
/// if it is there, else that in the home directory if it is there.
pub open spec fn config_path(config: Option<Seq<char>>, places: ConfigPlaces) -> Option<Seq<char>> {
    match config {
        Some(path) => Some(path),
        None => match places.cwd {
            Some(cwd) if cwd.exists => Some(cwd.path@),
            _ => match places.home {
                Some(home) if home.exists => Some(home.path@),
                _ => None,
            },
        },
    }
}

/// The path of the settings: the given one, or else where they are found.
pub fn find_config(given: Option<&str>, places: &ConfigPlaces) -> (path: Option<String>)
    ensures
        opt_text(path) == config_path(opt_str(given), *places),
{
    if let Some(path) = given {
        return Some(path.to_owned());
    }
    if let Some(cwd) = &places.cwd {
        if cwd.exists {
            return Some(cwd.path.clone());
        }
    }
    if let Some(home) = &places.home {
        if home.exists {
            return Some(home.path.clone());
        }
    }
    None
}

/// The first of the two that is given.
pub open spec fn given_or(given: Option<Seq<char>>, other: Seq<char>) -> Seq<char> {
    match given {
        Some(text) => text,
        None => other,
    }
}

/// Settings with what a command line gives in place of what they say. A list of
/// models counts as given where it has a model.
pub open spec fn overridden(base: ProxyConfigView, args: ArgsView) -> ProxyConfigView {
    ProxyConfigView {
        host: given_or(args.host, base.host),
        port: match args.port {
            Some(port) => port,
            None => base.port,
        },
        api_key: base.api_key,
        models_dir: given_or(args.models_dir, base.models_dir),
        proxy_default_model: given_or(args.proxy_default_model, base.proxy_default_model),
        pool: if args.pool.len() > 0 {
            args.pool
        } else {
            base.pool
        },
    }
}

fn pick(given: &Option<String>, other: String) -> (text: String)
    ensures
        text@ == given_or(opt_text(*given), other@),
{
    match given {
        Some(text) => text.clone(),
        None => other,
    }
}

impl Args {
    /// Puts together what clap found.
    pub fn from_found(found: Findings) -> (r: Result<Args, Notice>)
        requires
            found matches Ok(f) ==> f.0@.len() == 4,
        ensures
            args_outcome(r) == args_from(matched_outcome(found)),
    {
        match found {
            Ok((one, port, pool)) => {
                let args = Args {
                    config: one[0].clone(),
                    host: one[1].clone(),
                    port,
                    models_dir: one[2].clone(),
                    proxy_default_model: one[3].clone(),
                    pool,
                };
                Ok(args)
            },
            Err((is_error, text)) => Err(Notice { is_error, text }),
        }
    }

    /// Reads a command line, of which the first text is the program.
    pub fn parse_from(argv: &Vec<String>) -> (r: Result<Args, Notice>)
        ensures
            args_outcome(r) == args_from(
                matched_args(
                    "latte-model-proxy"@,
                    VERSION@,
                    proxy_options(),
                    "config"@,
                    single_options(),
                    "port"@,
                    "pool"@,
                    ',',
                    texts(argv@),
                ),
            ),
    {
        let options = vec![
            CliOption { name: "config", value_name: "CONFIG", help: CONFIG_HELP },
            CliOption { name: "host", value_name: "HOST", help: HOST_HELP },
            CliOption { name: "port", value_name: "PORT", help: PORT_HELP },
            CliOption { name: "models-dir", value_name: "MODELS_DIR", help: MODELS_DIR_HELP },
            CliOption {
                name: "proxy-default-model",
                value_name: "PROXY_DEFAULT_MODEL",
                help: DEFAULT_MODEL_HELP,
            },
            CliOption { name: "pool", value_name: "POOL", help: POOL_HELP },
        ];
        let singles: Vec<&'static str> = vec!["config", "host", "models-dir", "proxy-default-model"];
        proof {
            reveal_strlit("config");
            reveal_strlit("host");
            reveal_strlit("models-dir");
            reveal_strlit("proxy-default-model");
            reveal_strlit("port");
            reveal_strlit("pool");
            reveal_strlit("help");
            reveal_strlit("version");
            let all = seq![
                "config"@,
                "host"@,
                "port"@,
                "models-dir"@,
                "proxy-default-model"@,
                "pool"@,
                "help"@,
                "version"@,
            ];
            assert("host"@[0] == 'h' && "host"@[1] == 'o');
            assert("help"@[0] == 'h' && "help"@[1] == 'e');
            assert("port"@[0] == 'p' && "port"@[1] == 'o' && "port"@[2] == 'r');
            assert("pool"@[0] == 'p' && "pool"@[1] == 'o' && "pool"@[2] == 'o');
            assert(all[0].len() == 6 && all[1].len() == 4 && all[2].len() == 4);
            assert(all[3].len() == 10 && all[4].len() == 19 && all[5].len() == 4);
            assert(all[6].len() == 4 && all[7].len() == 7);
            assert forall|i: int, j: int| 0 <= i < j < 8 implies all[i] != all[j] by {
                assert(i == 0 || i == 1 || i == 2 || i == 3 || i == 4 || i == 5 || i == 6);
            }
            assert(options_of(options@) =~= proxy_options());
            assert(names(singles@) =~= single_options());
            let known = option_names(proxy_options());
            assert(known.push("help"@).push("version"@) =~= all);
            assert(single_options()[0] == "config"@);
            let used = single_options().push("port"@).push("pool"@);
            assert(used =~= seq![all[0], all[1], all[3], all[4], all[2], all[5]]);
            assert forall|i: int| 0 <= i < 6 implies known.contains(#[trigger] all[i]) by {
                assert(known[i] == all[i]);
            }
            assert forall|i: int| 0 <= i < used.len() implies known.contains(#[trigger] used[i]) by {
                assert(i == 0 || i == 1 || i == 2 || i == 3 || i == 4 || i == 5);
            }
        }
        Args::from_found(
            match_args(
                "latte-model-proxy",
                VERSION,
                &options,
                "config",
                &singles,
                "port",
                "pool",
                ',',
                argv,
            ),
        )
    }

    /// The path of `proxy.toml`.
    pub fn resolve_config_path(&self, places: &ConfigPlaces) -> (path: Option<String>)
        ensures
            opt_text(path) == config_path(self@.config, *places),
    {
        match &self.config {
            Some(path) => find_config(Some(path.as_str()), places),
            None => find_config(None, places),
        }
    }

    /// The settings: those that `load` reads from the path of `proxy.toml`, or
    /// the default ones where there is no such file, with what the command line
    /// gives in place of what they say.
    pub fn load_proxy_config<F: Fn(&str) -> Result<ProxyConfig, RouterError>>(
        &self,
        places: &ConfigPlaces,
        load: F,
    ) -> (r: Result<ProxyConfig, String>)
        requires
            forall|path: &str| call_requires(load, (path,)),
        ensures
            match config_path(self@.config, *places) {
                None => r is Ok && r->Ok_0@ == overridden(default_settings(), self@),
                Some(path) => exists|p: &str, read: Result<ProxyConfig, RouterError>|
                    {
                        &&& p@ == path
                        &&& #[trigger] call_ensures(load, (p,), read)
                        &&& match read {
                            Ok(config) => r is Ok && r->Ok_0@ == overridden(config@, self@),
                            Err(e) => r is Err && r->Err_0@ == "invalid config at "@ + path + ": "@
                                + router_error_text(e),
                        }
                    },
            },
    {
        match self.resolve_config_path(places) {
            Some(path) => {
                let p: &str = path.as_str();
                let read = load(p);
                assert(call_ensures(load, (p,), read));
                match read {
                    Ok(config) => Ok(self.override_config(config)),
                    Err(e) => {
                        let mut message = concat("invalid config at ", path.as_str());
                        message.append(": ");
                        message.append(e.message().as_str());
                        Err(message)
                    },
                }
            },
            None => Ok(self.override_config(ProxyConfig::default())),
        }
    }

    /// Settings with what the command line gives in place of what they say.
    pub fn override_config(&self, config: ProxyConfig) -> (set: ProxyConfig)
        ensures
            set@ == overridden(config@, self@),
    {
        assert(self@.pool.len() == self.pool@.len());
        ProxyConfig {
            server: ServerConfig {
                host: pick(&self.host, config.server.host),
                port: match self.port {
                    Some(port) => port,
                    None => config.server.port,
                },
                api_key: config.server.api_key,
            },
            catalog: CatalogConfig {
                models_dir: pick(&self.models_dir, config.catalog.models_dir),
                proxy_default_model: pick(
                    &self.proxy_default_model,
                    config.catalog.proxy_default_model,
                ),
                pool: if self.pool.len() > 0 {
                    copy_texts(&self.pool)
                } else {
                    config.catalog.pool
                },
            },
        }
    }
}

/// A path put behind a directory: an absolute one stands for itself.
pub open spec fn path_in(dir: Seq<char>, path: Seq<char>) -> Seq<char> {
    if dir.len() == 0 || (path.len() > 0 && path[0] == '/') {
        path
    } else if dir.last() == '/' {
        dir + path
    } else {
        dir + "/"@ + path
    }
}

fn join_path(dir: &str, path: &str) -> (r: String)
    ensures
        r@ == path_in(dir@, path@),
{
    let d = chars_of(dir);
    let p = chars_of(path);
    if d.len() == 0 || (p.len() > 0 && p[0] == '/') {
        return path.to_owned();
    }
    if d[d.len() - 1] == '/' {
        concat(dir, path)
    } else {
        let mut r = concat(dir, "/");
        r.append(path);
        r
    }
}

/// A path with a leading `~` resolved, where there is a home directory.
pub open spec fn tilde_resolved(path: Seq<char>, home: Option<Seq<char>>) -> Seq<char> {
    match home {
        None => path,
        Some(home) => match without_prefix(path, "~/"@) {
            Some(rest) => path_in(home, rest),
            None => if path == "~"@ {
                home
            } else {
                path
            },
        },
    }
}

/// A path with a leading `~` resolved, where there is a home directory.
pub fn resolve_tilde(path: &str, home: Option<&str>) -> (r: String)
    ensures
        r@ == tilde_resolved(path@, opt_str(home)),
{
    match home {
        None => path.to_owned(),
        Some(home) => match strip_prefix(path, "~/") {
            Some(rest) => join_path(home, rest),
            None => if same(path, "~") {
                home.to_owned()
            } else {
                path.to_owned()
            },
        },
    }
}

impl ProxyConfig {
    /// The address to listen on.
    pub fn bind_addr(&self) -> (addr: String)
        ensures
            addr@ == self@.host + ":"@ + decimal_text(self@.port as nat),
    {
        let mut addr = concat(self.server.host.as_str(), ":");
        addr.append(decimal(self.server.port as u64).as_str());
        addr
    }

    /// The directories of the catalog in the order in which they are loaded, the
    /// later one over the first: that of the project, and the one in the
    /// settings.
    pub fn catalog_dirs(&self, home: Option<&str>) -> (dirs: Vec<String>)
        ensures
            texts(dirs@) == seq![
                ".latte/models.d"@,
                tilde_resolved(self@.models_dir, opt_str(home)),
            ],
    {
        let dirs = vec![
            ".latte/models.d".to_owned(),
            resolve_tilde(self.catalog.models_dir.as_str(), home),
        ];
        assert(texts(dirs@) =~= seq![
            ".latte/models.d"@,
            tilde_resolved(self@.models_dir, opt_str(home)),
        ]);
        dirs
    }
}

/// The ids that a catalog does not know.
pub open spec fn unknown_to(catalog: Map<Seq<char>, ModelEntryView>) -> spec_fn(Seq<char>) -> bool {
    |id: Seq<char>| !catalog.contains_key(id)
}

/// The ids of a list that the catalog does not know, in their order.
pub fn unknown_ids(pool: &Vec<String>, catalog: &ModelCatalog) -> (ids: Vec<String>)
    requires
        catalog.wf(),
    ensures
        texts(ids@) == texts(pool@).filter(unknown_to(catalog@)),
{
    let ghost all = texts(pool@);
    let ghost keep = unknown_to(catalog@);
    let mut ids: Vec<String> = Vec::new();
    let mut i: usize = 0;
    assert(all.take(0) =~= Seq::empty());
    assert(texts(ids@) =~= all.take(0).filter(keep));
    while i < pool.len()
        invariant
            i <= pool@.len(),
            all == texts(pool@),
            catalog.wf(),
            keep == unknown_to(catalog@),
            texts(ids@) == all.take(i as int).filter(keep),
        decreases pool@.len() - i,
    {
        let ghost before = ids@;
        assert(all.take(i + 1) =~= all.take(i as int).push(pool@[i as int]@));
        proof {
            all.take(i as int).lemma_filter_push(pool@[i as int]@, keep);
        }
        if catalog.get(pool[i].as_str()).is_none() {
            ids.push(pool[i].clone());
            assert(texts(ids@) =~= texts(before).push(pool@[i as int]@));
        }
        i = i + 1;
    }
    assert(all.take(all.len() as int) =~= all);
    ids
}

/// Whether the proxy can start with this catalog and list of models, and if not
/// why: the catalog must have models, and all those of the list.
pub fn check_pool(pool: &Vec<String>, catalog: &ModelCatalog) -> (r: Result<(), String>)
    requires
        catalog.wf(),
    ensures
        match r {
            Ok(()) => catalog.spec_ids().len() > 0 && texts(pool@).filter(
                unknown_to(catalog@),
            ).len() == 0,
            Err(message) => {
                if catalog.spec_ids().len() == 0 {
                    message@
                        == "no models in catalog; create ~/.latte/models.d or ./.latte/models.d"@
                } else {
                    let unknown = texts(pool@).filter(unknown_to(catalog@));
                    &&& unknown.len() > 0
                    &&& message@ == "pool references unknown model(s): "@ + joined(unknown, ", "@)
                        + "; check ids in models.d/*.toml"@
                }
            },
        },
{
    if catalog.is_empty() {
        return Err(
            "no models in catalog; create ~/.latte/models.d or ./.latte/models.d".to_owned(),
        );
    }
    let unknown = unknown_ids(pool, catalog);
    assert(texts(unknown@).len() == unknown@.len());
    if unknown.len() > 0 {
        let mut message = concat(
            "pool references unknown model(s): ",
            join(unknown.as_slice(), ", ").as_str(),
        );
        message.append("; check ids in models.d/*.toml");
        return Err(message);
    }
    Ok(())
}

/// All models of a catalog, in the order in which they came.
pub fn router_pool(catalog: &ModelCatalog) -> (pool: Vec<ModelEntry>)
    requires
        catalog.wf(),
    ensures
        pool@.map_values(|entry: ModelEntry| entry@) == catalog.spec_ids().map_values(
            |id: Seq<char>| catalog@[id],
        ),
{
    let ids = catalog.ids();
    let mut pool: Vec<ModelEntry> = Vec::new();
    let mut i: usize = 0;
    proof {
        catalog.lemma_ids();
    }
    while i < ids.len()
        invariant
            i <= ids@.len(),
            catalog.wf(),
            texts(ids@) == catalog.spec_ids(),
            forall|id: Seq<char>|
                catalog.spec_ids().contains(id) <==> #[trigger] catalog@.contains_key(id),
            pool@.len() == i,
            forall|j: int|
                0 <= j < i ==> (#[trigger] pool@[j])@ == catalog@[catalog.spec_ids()[j]],
        decreases ids@.len() - i,
    {
        assert(texts(ids@)[i as int] == ids@[i as int]@);
        assert(catalog.spec_ids().contains(ids@[i as int]@));
        assert(catalog@.contains_key(ids@[i as int]@));
        if let Some(entry) = catalog.get(ids[i].as_str()) {
            pool.push(entry.clone());
        }
        i = i + 1;
    }
    assert(texts(ids@).len() == ids@.len());
    assert(pool@.map_values(|entry: ModelEntry| entry@) =~= catalog.spec_ids().map_values(
        |id: Seq<char>| catalog@[id],
    ));
    pool
}

} // verus!
