//! What settings, catalogs and vendors come to, in terms of what was given.
use crate::catalog::{entry_resolved, is_catalog_file};
use crate::cli::{
    args_from, config_path, overridden, proxy_options, single_options, tilde_resolved, unknown_to,
    ArgsView, ConfigPlaces,
};
use crate::config::{route_to, router_error_text, ModelEntryView, RouterError};
use crate::env::resolved;
use crate::json::JsonTree;
use crate::models::opt_text;
use crate::proxy_config::{default_settings, ProxyConfigView};
use crate::text::decimal_text;
use crate::vendor::{
    anthropic_reading, models_in, openai_reading, read_reply, reply_in, vendor_error_text,
    BearerProvider, DescriptorView, DiscoveryReplyView, EnvRefresher, VendorErrorView, VendorResult,
};
use crate::vendor_status::{feature_name, tells, HealthReply, VendorStatus};
use crate::vendor_toml::{
    as_set, discovery_by, gave_token, opt_check, DiscoveryField, DiscoveryView, HealthCheck,
    HealthCheckToml, HealthCheckView, VendorAuth, VendorAuthToml, VendorConfig, VendorConfigToml,
    VendorDiscoveryToml, VendorFeature,
};
use vstd::prelude::*;

verus! {

// ---------------------------------------------------------------------------
// The environment and the catalog

/// A value that is the name of a variable between `${` and `}` is what the
/// variable holds, where it is set. Any other value is what it is.
pub proof fn variables_are_filled_in(name: Seq<char>, text: Seq<char>, env: Map<Seq<char>, String>)
    ensures
        name.len() > 0 && env.contains_key(name) ==> resolved("${"@ + name + "}"@, env)
            == env[name]@,
        !env.contains_key(name) ==> resolved("${"@ + name + "}"@, env) == "${"@ + name + "}"@,
        text.len() < 4 || text[0] != '$' || text[1] != '{' || text.last() != '}' ==> resolved(
            text,
            env,
        ) == text,
{
    reveal_strlit("${");
    reveal_strlit("}");
    let whole = "${"@ + name + "}"@;
    assert(whole.subrange(2, whole.len() - 1) =~= name);
    assert("${"@.is_prefix_of(whole)) by {
        assert(whole.subrange(0, 2) =~= "${"@);
    }
    assert(whole.last() == '}');
    if text.len() >= 4 && "${"@.is_prefix_of(text) {
        assert(text.subrange(0, 2)[0] == text[0]);
        assert(text.subrange(0, 2)[1] == text[1]);
    }
}

/// Only the key and the address of an entry are filled in from the environment.
pub proof fn only_key_and_address_are_filled_in(
    entry: ModelEntryView,
    env: Map<Seq<char>, String>,
)
    ensures
        ({
            let out = entry_resolved(entry, env);
            &&& out.id == entry.id
            &&& out.name == entry.name
            &&& out.api == entry.api
            &&& out.provider == entry.provider
            &&& out.base_url == resolved(entry.base_url, env)
            &&& out.api_key == resolved(entry.api_key, env)
            &&& out.context_window == entry.context_window
            &&& out.max_tokens == entry.max_tokens
            &&& out.rate_limit_refresh_anchor == entry.rate_limit_refresh_anchor
            &&& out.rate_limit_refresh_interval_secs == entry.rate_limit_refresh_interval_secs
            &&& out.retry_count_5xx == entry.retry_count_5xx
            &&& out.cooldown_5xx_secs == entry.cooldown_5xx_secs
            &&& out.retry_on == entry.retry_on
            &&& out.retry_on_count == entry.retry_on_count
            &&& out.retry_on_cooldown_secs == entry.retry_on_cooldown_secs
            &&& out.supports_vision == entry.supports_vision
        }),
{
}

/// The files of a catalog are those whose names end in `.toml` and are more than
/// that.
pub proof fn catalog_files_end_in_toml(name: Seq<char>, stem: Seq<char>)
    ensures
        stem.len() > 0 ==> is_catalog_file(stem + ".toml"@),
        !is_catalog_file(".toml"@),
        is_catalog_file(name) ==> name.len() > 5 && name == name.take(name.len() - 5) + ".toml"@,
{
    reveal_strlit(".toml");
    let whole = stem + ".toml"@;
    assert(whole.skip(whole.len() - 5) =~= ".toml"@);
    if is_catalog_file(name) {
        assert(name =~= name.take(name.len() - 5) + name.skip(name.len() - 5));
    }
}

/// A route leads to the model of its entry, over its API, at its address and with
/// its key.
pub proof fn route_is_that_of_its_entry(entry: ModelEntryView)
    ensures
        route_to(entry).model_id == entry.id,
        route_to(entry).api == entry.api,
        route_to(entry).base_url == entry.base_url,
        route_to(entry).api_key == entry.api_key,
{
}

/// The router says which model it does not know, how long until one is there
/// again, and which file could not be read or understood.
pub proof fn router_errors_say_what_is_wrong(a: String, b: String, secs: u64)
    ensures
        router_error_text(RouterError::UnknownModel(a)) == "model '"@ + a@ + "' not in pool"@,
        router_error_text(RouterError::AllUnavailable { retry_after_secs: secs })
            == "all upstream models in cooldown (next available in "@ + decimal_text(secs as nat)
            + "s)"@,
        router_error_text(RouterError::CatalogIo(a, b)) == "failed to read catalog file "@ + a@
            + ": "@ + b@,
        router_error_text(RouterError::CatalogParse(a, b)) == "failed to parse catalog file "@ + a@
            + ": "@ + b@,
{
}

// ---------------------------------------------------------------------------
// The command line

/// The values that are found for options go where the options say: each of the
/// four single ones to its own setting, the port to the port, and the list to the
/// pool.
pub proof fn options_go_to_their_settings(
    one: Seq<Option<Seq<char>>>,
    port: Option<u16>,
    pool: Seq<Seq<char>>,
    is_error: bool,
    text: Seq<char>,
)
    ensures
        match args_from(Ok((one, port, pool))) {
            Ok(args) => {
                &&& single_options().len() == 4
                &&& single_options()[0] == "config"@ && args.config == one[0]
                &&& single_options()[1] == "host"@ && args.host == one[1]
                &&& single_options()[2] == "models-dir"@ && args.models_dir == one[2]
                &&& single_options()[3] == "proxy-default-model"@ && args.proxy_default_model
                    == one[3]
                &&& args.port == port
                &&& args.pool == pool
            },
            Err(_) => false,
        },
        args_from(Err((is_error, text))) == Err::<ArgsView, (bool, Seq<char>)>((is_error, text)),
        proxy_options().len() == 6,
        proxy_options()[0].name == "config"@,
        proxy_options()[1].name == "host"@,
        proxy_options()[2].name == "port"@,
        proxy_options()[3].name == "models-dir"@,
        proxy_options()[4].name == "proxy-default-model"@,
        proxy_options()[5].name == "pool"@,
{
}

/// The configuration is read from the path that is given, whether or not anything
/// is there; else from the working directory where there is one, and else from
/// the home directory where there is one.
pub proof fn configuration_is_looked_for_in_order(
    given: Option<Seq<char>>,
    places: ConfigPlaces,
)
    ensures
        given is Some ==> config_path(given, places) == given,
        given is None && places.cwd is Some && places.cwd->0.exists ==> config_path(given, places)
            == Some(places.cwd->0.path@),
        given is None && (places.cwd is None || !places.cwd->0.exists) && places.home is Some
            && places.home->0.exists ==> config_path(given, places) == Some(places.home->0.path@),
        given is None && (places.cwd is None || !places.cwd->0.exists) && (places.home is None
            || !places.home->0.exists) ==> config_path(given, places) is None,
{
}

/// What the command line gives counts, and what it does not give stays as the
/// configuration has it. The key comes from the configuration alone.
pub proof fn command_line_overrides_the_configuration(base: ProxyConfigView, args: ArgsView)
    ensures
        ({
            let set = overridden(base, args);
            &&& args.host is Some ==> set.host == args.host->0
            &&& args.host is None ==> set.host == base.host
            &&& args.port is Some ==> set.port == args.port->0
            &&& args.port is None ==> set.port == base.port
            &&& args.models_dir is Some ==> set.models_dir == args.models_dir->0
            &&& args.models_dir is None ==> set.models_dir == base.models_dir
            &&& args.proxy_default_model is Some ==> set.proxy_default_model
                == args.proxy_default_model->0
            &&& args.proxy_default_model is None ==> set.proxy_default_model
                == base.proxy_default_model
            &&& args.pool.len() > 0 ==> set.pool == args.pool
            &&& args.pool.len() == 0 ==> set.pool == base.pool
            &&& set.api_key == base.api_key
        }),
        default_settings().host == "127.0.0.1"@,
        default_settings().port == 11434,
        default_settings().api_key is None,
        default_settings().models_dir == "~/.latte/models.d"@,
        default_settings().proxy_default_model == "proxy-default"@,
        default_settings().pool.len() == 0,
{
}

/// A path in the home directory is one below it, and any other path is what it
/// is. Where no home directory is known, nothing changes.
pub proof fn tilde_is_the_home_directory(home: Seq<char>, path: Seq<char>)
    ensures
        tilde_resolved(path, None) == path,
        tilde_resolved("~"@, Some(home)) == home,
        home.len() > 0 && home.last() != '/' && (path.len() == 0 || path[0] != '/')
            ==> tilde_resolved("~/"@ + path, Some(home)) == home + "/"@ + path,
        home.len() > 0 && home.last() == '/' && (path.len() == 0 || path[0] != '/')
            ==> tilde_resolved("~/"@ + path, Some(home)) == home + path,
        path.len() > 0 && path[0] != '~' ==> tilde_resolved(path, Some(home)) == path,
        path.len() > 1 && path[1] != '/' ==> tilde_resolved(path, Some(home)) == path,
{
    reveal_strlit("~/");
    reveal_strlit("~");
    let whole = "~/"@ + path;
    assert(whole.skip(2) =~= path);
    assert("~/"@.is_prefix_of(whole)) by {
        assert(whole.subrange(0, 2) =~= "~/"@);
    }
    assert(!("~/"@.is_prefix_of("~"@)));
    if "~/"@.is_prefix_of(path) {
        assert(path.subrange(0, 2)[0] == path[0]);
        assert(path.subrange(0, 2)[1] == path[1]);
    }
}

/// Ids of a list are unknown where the catalog has no entry for them, and only
/// there.
pub proof fn unknown_ids_are_those_without_an_entry(
    pool: Seq<Seq<char>>,
    catalog: Map<Seq<char>, ModelEntryView>,
    id: Seq<char>,
)
    ensures
        pool.filter(unknown_to(catalog)).contains(id) <==> pool.contains(id)
            && !catalog.contains_key(id),
{
    broadcast use Seq::lemma_filter_contains_rev;

    pool.filter_lemma(unknown_to(catalog));
    if pool.contains(id) && !catalog.contains_key(id) {
        assert(unknown_to(catalog)(id));
    }
}

// ---------------------------------------------------------------------------
// Vendors

/// What a list of models says of one, the Anthropic way: its id, the name to show
/// where there is one and the id where there is none, and its type.
pub open spec fn is_anthropic_model(model: DescriptorView, tree: JsonTree) -> bool {
    &&& tree.field("id"@) == Some(JsonTree::Text(model.id))
    &&& match tree.field("display_name"@) {
        Some(JsonTree::Text(name)) => model.display_name == name,
        _ => model.display_name == model.id,
    }
    &&& model.context_window is None
    &&& match tree.field("type"@) {
        Some(JsonTree::Text(kind)) => model.vendor_specific == map!["type"@ => kind],
        _ => model.vendor_specific == Map::<Seq<char>, Seq<char>>::empty(),
    }
}

/// What a list of models says of one, the OpenAI way: its id, which is its name
/// too, and its owner, OpenAI where none is told.
pub open spec fn is_openai_model(model: DescriptorView, tree: JsonTree) -> bool {
    &&& tree.field("id"@) == Some(JsonTree::Text(model.id))
    &&& model.display_name == model.id
    &&& model.context_window is None
    &&& match tree.field("owned_by"@) {
        Some(JsonTree::Text(owner)) => model.vendor_specific == map!["owned_by"@ => owner],
        _ => model.vendor_specific == map!["owned_by"@ => "openai"@],
    }
}

/// Whether something has an id.
pub open spec fn has_id(tree: JsonTree) -> bool {
    tree.field("id"@) matches Some(JsonTree::Text(_))
}

proof fn lemma_models_in(trees: Seq<JsonTree>)
    ensures
        models_in(trees, anthropic_reading()) is Some <==> forall|i: int|
            0 <= i < trees.len() ==> has_id(#[trigger] trees[i]),
        models_in(trees, openai_reading()) is Some <==> forall|i: int|
            0 <= i < trees.len() ==> has_id(#[trigger] trees[i]),
        models_in(trees, anthropic_reading()) matches Some(list) ==> list.len() == trees.len()
            && forall|i: int|
            0 <= i < trees.len() ==> is_anthropic_model(#[trigger] list[i], trees[i]),
        models_in(trees, openai_reading()) matches Some(list) ==> list.len() == trees.len()
            && forall|i: int|
            0 <= i < trees.len() ==> is_openai_model(#[trigger] list[i], trees[i]),
    decreases trees.len(),
{
    if trees.len() > 0 {
        let front = trees.drop_last();
        let n = front.len() as int;
        lemma_models_in(front);
        assert(trees[n] == trees.last());
        if forall|i: int| 0 <= i < trees.len() ==> has_id(#[trigger] trees[i]) {
            assert forall|i: int| 0 <= i < front.len() implies has_id(#[trigger] front[i]) by {
                assert(has_id(trees[i]));
            }
            assert(has_id(trees[n]));
        }
        if models_in(trees, anthropic_reading()) is Some {
            let list = models_in(trees, anthropic_reading())->0;
            let before = models_in(front, anthropic_reading())->0;
            assert forall|i: int| 0 <= i < trees.len() implies is_anthropic_model(
                #[trigger] list[i],
                trees[i],
            ) by {
                if i < n {
                    assert(is_anthropic_model(before[i], front[i]));
                }
            }
            assert forall|i: int| 0 <= i < trees.len() implies has_id(#[trigger] trees[i]) by {
                assert(is_anthropic_model(list[i], trees[i]));
            }
        }
        if models_in(trees, openai_reading()) is Some {
            let list = models_in(trees, openai_reading())->0;
            let before = models_in(front, openai_reading())->0;
            assert forall|i: int| 0 <= i < trees.len() implies is_openai_model(
                #[trigger] list[i],
                trees[i],
            ) by {
                if i < n {
                    assert(is_openai_model(before[i], front[i]));
                }
            }
            assert forall|i: int| 0 <= i < trees.len() implies has_id(#[trigger] trees[i]) by {
                assert(is_openai_model(list[i], trees[i]));
            }
        }
    }
}

/// The models of a vendor are those that it lists, one for one; a list in which
/// one has no id, or that is none, is an error, and so is no answer, each told in
/// its own words.
pub proof fn discovered_models_are_those_listed(
    protocol: Seq<char>,
    tree: JsonTree,
    items: Seq<JsonTree>,
    text: Seq<char>,
)
    ensures
        tree.field("data"@) == Some(JsonTree::List(items)) && (forall|i: int|
            0 <= i < items.len() ==> has_id(#[trigger] items[i])) ==> {
            &&& read_reply(protocol, DiscoveryReplyView::Body(tree), anthropic_reading()) matches Ok(
                list,
            ) && list.len() == items.len() && forall|i: int|
                0 <= i < items.len() ==> is_anthropic_model(#[trigger] list[i], items[i])
            &&& read_reply(protocol, DiscoveryReplyView::Body(tree), openai_reading()) matches Ok(
                list,
            ) && list.len() == items.len() && forall|i: int|
                0 <= i < items.len() ==> is_openai_model(#[trigger] list[i], items[i])
        },
        tree.field("data"@) == Some(JsonTree::List(items)) && (exists|i: int|
            0 <= i < items.len() && !has_id(#[trigger] items[i])) ==> {
            &&& read_reply(protocol, DiscoveryReplyView::Body(tree), anthropic_reading()) == Err::<
                Seq<DescriptorView>,
                VendorErrorView,
            >(VendorErrorView::RefreshFailed("missing 'id'"@))
            &&& read_reply(protocol, DiscoveryReplyView::Body(tree), openai_reading()) == Err::<
                Seq<DescriptorView>,
                VendorErrorView,
            >(VendorErrorView::RefreshFailed("missing 'id'"@))
        },
        !(tree.field("data"@) matches Some(JsonTree::List(_))) ==> read_reply(
            protocol,
            DiscoveryReplyView::Body(tree),
            openai_reading(),
        ) == Err::<Seq<DescriptorView>, VendorErrorView>(
            VendorErrorView::RefreshFailed("missing 'data' field"@),
        ),
        read_reply(protocol, DiscoveryReplyView::NotSent(text), openai_reading()) == Err::<
            Seq<DescriptorView>,
            VendorErrorView,
        >(VendorErrorView::Network(text)),
        read_reply(protocol, DiscoveryReplyView::Refused(text), openai_reading()) == Err::<
            Seq<DescriptorView>,
            VendorErrorView,
        >(VendorErrorView::Network(protocol + " /v1/models returned "@ + text)),
        read_reply(protocol, DiscoveryReplyView::Unreadable(text), openai_reading()) == Err::<
            Seq<DescriptorView>,
            VendorErrorView,
        >(VendorErrorView::RefreshFailed("json parse: "@ + text)),
        reply_in(Ok(tree)) == DiscoveryReplyView::Body(tree),
        reply_in(Err(text)) == DiscoveryReplyView::Unreadable("error decoding response body"@),
{
    lemma_models_in(items);
}

/// An error of a vendor says what kind it is before what went wrong.
pub proof fn vendor_errors_say_what_they_are(text: Seq<char>)
    ensures
        vendor_error_text(VendorErrorView::RefreshFailed(text)) == "token refresh failed: "@ + text,
        vendor_error_text(VendorErrorView::Network(text)) == "network error: "@ + text,
        vendor_error_text(VendorErrorView::EnvMissing(text)) == "env var not set: "@ + text,
        vendor_error_text(VendorErrorView::NotImplemented(text)) == "not implemented: "@ + text,
{
}

/// A vendor is what its settings say: its address, its key or its token with the
/// time that the token is good for, where its models are listed, how its health
/// is checked, and what it cannot do.
pub proof fn vendors_are_as_they_are_set(vendor: VendorConfig, set: VendorConfigToml, now: u128)
    requires
        as_set(vendor, set, now),
    ensures
        vendor.id@ == set.id@,
        vendor.base_url@ == set.base_url@,
        vendor.disabled_features@ == set.disabled_features@,
        match (set.auth, vendor.auth) {
            (VendorAuthToml::ApiKey { key }, VendorAuth::ApiKey(p)) => p.key@ == key@
                && p.vendor_id@ == set.id@,
            (
                VendorAuthToml::Bearer { token, interval_secs, refresh_env },
                VendorAuth::Bearer(p),
            ) => {
                &&& p.token@ == token@
                &&& p.vendor_id@ == set.id@
                &&& p.started_at == now
                &&& p.interval == interval_secs * 1_000_000_000
                &&& opt_text(p.refresher.variable) == opt_text(refresh_env)
            },
            _ => false,
        },
        match set.discovery {
            None => vendor.discovery@ == DiscoveryView::Manual(Seq::empty()),
            Some(DiscoveryField::Shortcut(word)) => vendor.discovery@ == discovery_by(word@),
            Some(DiscoveryField::Full(VendorDiscoveryToml::AnthropicModelsApi)) => vendor.discovery@
                == DiscoveryView::Anthropic,
            Some(DiscoveryField::Full(VendorDiscoveryToml::OpenAiModelsApi)) => vendor.discovery@
                == DiscoveryView::OpenAi,
            Some(DiscoveryField::Full(VendorDiscoveryToml::Manual { models })) => {
                match vendor.discovery@ {
                    DiscoveryView::Manual(list) => {
                        &&& list.len() == models@.len()
                        &&& forall|i: int|
                            0 <= i < list.len() ==> {
                                &&& (#[trigger] list[i]).id == models@[i].id@
                                &&& list[i].display_name == models@[i].display_name@
                                &&& list[i].context_window == models@[i].context_window
                            }
                    },
                    _ => false,
                }
            },
        },
        match set.health_check {
            None => vendor.health_check is None,
            Some(HealthCheckToml::Http { path }) => opt_check(vendor.health_check) == Some(
                HealthCheckView::Http(path@),
            ),
            Some(HealthCheckToml::Tcp) => opt_check(vendor.health_check) == Some(
                HealthCheckView::Tcp,
            ),
            Some(HealthCheckToml::Off) => opt_check(vendor.health_check) == Some(
                HealthCheckView::Off,
            ),
        },
{
}

/// A word for where models are listed is one of the two for each API, or else the
/// one model that there is.
pub proof fn discovery_is_set_by_a_word(word: Seq<char>)
    ensures
        word == "anthropic"@ || word == "anthropic_models_api"@ ==> discovery_by(word)
            == DiscoveryView::Anthropic,
        word == "openai"@ || word == "openai_models_api"@ ==> discovery_by(word)
            == DiscoveryView::OpenAi,
        word != "anthropic"@ && word != "anthropic_models_api"@ && word != "openai"@ && word
            != "openai_models_api"@ ==> match discovery_by(word) {
            DiscoveryView::Manual(list) => list.len() == 1 && list[0].id == word
                && list[0].display_name == word && list[0].context_window is None,
            _ => false,
        },
{
    reveal_strlit("anthropic");
    reveal_strlit("anthropic_models_api");
    reveal_strlit("openai");
    reveal_strlit("openai_models_api");
    assert("anthropic"@[0] == 'a' && "anthropic_models_api"@[0] == 'a');
    assert("openai"@[0] == 'o' && "openai_models_api"@[0] == 'o');
}

/// The token of a vendor is the one at hand while it is good. After that it is
/// what the variable of the vendor holds, good for as long from then on, and
/// nothing where there is no such variable. A key is always good, and may stand
/// in a variable.
pub proof fn tokens_are_given_while_they_are_good(
    before: VendorConfig,
    after: VendorConfig,
    now: u128,
    env: Map<Seq<char>, String>,
    r: VendorResult<String>,
)
    requires
        gave_token(before, after, now, env, r),
    ensures
        r is Ok,
        match before.auth {
            VendorAuth::ApiKey(p) => after == before && r->Ok_0@ == resolved(p.key@, env),
            VendorAuth::Bearer(p) => {
                &&& now <= p.started_at + p.interval ==> after == before && r->Ok_0@ == p.token@
                &&& now > p.started_at + p.interval ==> {
                    &&& p.refresher.variable is Some && env.contains_key(
                        p.refresher.variable->0@,
                    ) ==> r->Ok_0@ == env[p.refresher.variable->0@]@
                    &&& p.refresher.variable is None || !env.contains_key(
                        p.refresher.variable->0@,
                    ) ==> r->Ok_0@.len() == 0
                    &&& match after.auth {
                        VendorAuth::Bearer(q) => {
                            &&& q.token@ == r->Ok_0@
                            &&& q.started_at == now
                            &&& q.interval == p.interval
                            &&& q.vendor_id == p.vendor_id
                            &&& q.refresher == p.refresher
                        },
                        _ => false,
                    }
                }
            },
        },
        after.id == before.id,
        after.base_url == before.base_url,
        after.discovery == before.discovery,
        after.health_check == before.health_check,
        after.disabled_features == before.disabled_features,
{
}

/// A token is good until its span is over, and so long remains of it.
pub proof fn tokens_last_for_their_span(p: BearerProvider<EnvRefresher>, now: u128)
    ensures
        p.expired(now) <==> now > p.started_at + p.interval,
        now <= p.started_at ==> p.spec_remaining(now) == p.interval,
        p.started_at <= now <= p.started_at + p.interval ==> now + p.spec_remaining(now)
            == p.started_at + p.interval,
        now >= p.started_at + p.interval ==> p.spec_remaining(now) == 0,
{
}

/// The state of a vendor tells how it is paid for, whether its token is good and
/// for how many whole seconds, and whether it answered: with a status of success,
/// or by taking the connection.
pub proof fn vendor_state_is_told_as_it_is(
    status: VendorStatus,
    vendor: VendorConfig,
    now: u128,
    health: Option<HealthReply>,
)
    requires
        tells(status, vendor, now, health),
    ensures
        status.vendor@ == vendor.id@,
        match vendor.auth {
            VendorAuth::ApiKey(_) => {
                &&& status.auth_kind@ == "api_key"@
                &&& status.auth_valid
                &&& status.token_remaining_secs is None
            },
            VendorAuth::Bearer(p) => {
                &&& status.auth_kind@ == "bearer"@
                &&& status.auth_valid == (now <= p.started_at + p.interval)
                &&& status.token_remaining_secs is Some
                &&& now >= p.started_at + p.interval ==> status.token_remaining_secs == Some(0u64)
                &&& p.started_at <= now < p.started_at + p.interval
                    && status.token_remaining_secs->0 < u64::MAX ==> {
                    let left = p.started_at + p.interval - now;
                    let secs = status.token_remaining_secs->0;
                    secs * 1_000_000_000 <= left < (secs + 1) * 1_000_000_000
                }
            },
        },
        match health {
            Some(HealthReply::Status { status: code, latency_ms }) => {
                &&& status.health_ok == (code >= 200 && code <= 299)
                &&& status.health_latency_ms == Some(latency_ms)
            },
            Some(HealthReply::Connected { latency_ms }) => {
                &&& status.health_ok
                &&& status.health_latency_ms == Some(latency_ms)
            },
            Some(HealthReply::Silent) => !status.health_ok && status.health_latency_ms is None,
            None => {
                &&& status.health_latency_ms is None
                &&& vendor.health_check is None ==> status.health_ok
                &&& vendor.health_check matches Some(HealthCheck::Off) ==> status.health_ok
                &&& vendor.health_check matches Some(HealthCheck::Tcp) ==> !status.health_ok
                &&& vendor.health_check matches Some(HealthCheck::Http { .. }) ==> !status.health_ok
            },
        },
{
}

/// What a vendor can do has one word for each.
pub proof fn features_have_their_words(feature: VendorFeature)
    ensures
        feature_name(feature) == (match feature {
            VendorFeature::PromptCaching => "promptcaching"@,
            VendorFeature::ExtendedCacheTtl => "extendedcachettl"@,
            VendorFeature::ToolUse => "tooluse"@,
            VendorFeature::Thinking => "thinking"@,
            VendorFeature::Vision => "vision"@,
            VendorFeature::Stream => "stream"@,
            VendorFeature::Reasoning => "reasoning"@,
        }),
{
}

} // verus!
