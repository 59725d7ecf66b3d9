//! The plugin handler: what the host process sees of this plugin — its
//! identity, its configuration resolution, and the `format` entry point
//! backed by the worker pool.

use vstd::prelude::*;
use vstd::string::StringExecFns;

use crate::channel::format_post;
use crate::channel::Channel;
use crate::channel::CreateChannelOptions;
use crate::channel::FormatRequest;
use crate::channel::FormatResult;
use crate::config::find_key;
use crate::config::json_map_view;
use crate::config::lemma_json_entries_view;
use crate::config::lemma_vkey_index_matches;
use crate::config::resolve_config;
use crate::config::resolve_config_matches;
use crate::config::vhas_key;
use crate::config::ConfigKeyMap;
use crate::config::ConfigurationDiagnostic;
use crate::config::GlobalConfiguration;
use crate::config::JsonMap;
use crate::config::JsonValue;
use crate::config::JsonView;
use crate::config::PrettierConfig;
use crate::config::diagnostics_view;
use crate::formatter::Formatter;

verus! {

/// The plugin's identity card, as the host asks for it.
pub struct PluginInfo {
    pub name: String,
    pub version: String,
    pub config_key: String,
    pub file_extensions: Vec<String>,
    pub file_names: Vec<String>,
    pub help_url: String,
    pub config_schema_url: String,
    pub update_url: Option<String>,
}

/// Which files the plugin formats.
pub struct FileMatchingInfo {
    pub file_extensions: Vec<String>,
    pub file_names: Vec<String>,
}

/// A resolved configuration, its diagnostics, and the file matching it
/// implies.
pub struct PluginResolveConfigurationResult<T> {
    pub config: T,
    pub diagnostics: Vec<ConfigurationDiagnostic>,
    pub file_matching: FileMatchingInfo,
}

/// The character sequences of a list of strings.
pub open spec fn strings_view(strings: Seq<String>) -> Seq<Seq<char>> {
    Seq::new(strings.len(), |i: int| strings[i]@)
}

/// The file extensions the plugin always handles.
pub open spec fn default_extensions_view() -> Seq<Seq<char>> {
    seq!["js"@, "ts"@]
}

/// The file extensions the plugin always handles.
pub fn default_file_extensions() -> (extensions: Vec<String>)
    ensures
        strings_view(extensions@) == default_extensions_view(),
{
    let mut extensions: Vec<String> = Vec::new();
    extensions.push(String::from_str("js"));
    extensions.push(String::from_str("ts"));
    proof {
        assert(strings_view(extensions@) =~= default_extensions_view());
    }
    extensions
}

/// The extensions of the override objects that pick their own parser: such
/// an override makes the plugin handle files of that extension too.
pub open spec fn parser_override_keys(overrides: Seq<(Seq<char>, JsonView)>) -> Seq<Seq<char>>
    decreases overrides.len(),
{
    if overrides.len() == 0 {
        Seq::empty()
    } else {
        let head: Seq<Seq<char>> = if match overrides[0].1 {
            JsonView::Object(entries) => vhas_key(entries, "parser"@),
            _ => false,
        } {
            seq![overrides[0].0]
        } else {
            Seq::empty()
        };
        head + parser_override_keys(overrides.drop_first())
    }
}

/// The file extensions a resolved configuration makes the plugin handle:
/// every extension whose override object picks a parser, then the default
/// extensions.
pub fn get_file_extensions(extension_overrides: &JsonMap) -> (extensions: Vec<String>)
    ensures
        strings_view(extensions@) == parser_override_keys(json_map_view(extension_overrides@))
            + default_extensions_view(),
{
    let mut extensions: Vec<String> = Vec::new();
    let mut i: usize = 0;
    proof {
        lemma_json_entries_view(extension_overrides@);
    }
    while i < extension_overrides.len()
        invariant
            0 <= i <= extension_overrides@.len(),
            json_map_view(extension_overrides@).len() == extension_overrides@.len(),
            forall|j: int|
                0 <= j < extension_overrides@.len() ==> json_map_view(extension_overrides@)[j] == (
                    extension_overrides@[j].0@,
                    crate::config::json_view(extension_overrides@[j].1),
                ),
            strings_view(extensions@) =~= parser_override_keys(
                json_map_view(extension_overrides@).take(i as int),
            ),
        decreases extension_overrides@.len() - i,
    {
        let entry = &extension_overrides[i];
        let picks_parser: bool = match &entry.1 {
            JsonValue::Object(object_entries) => {
                proof {
                    lemma_vkey_index_matches(object_entries@, "parser"@);
                }
                let position = find_key(object_entries, "parser");
                match position {
                    Some(_) => true,
                    None => false,
                }
            },
            _ => false,
        };
        if picks_parser {
            extensions.push(entry.0.clone());
        }
        proof {
            lemma_parser_override_keys_snoc(json_map_view(extension_overrides@), i as int);
            assert(strings_view(extensions@) =~= parser_override_keys(
                json_map_view(extension_overrides@).take(i + 1),
            ));
        }
        i = i + 1;
    }
    proof {
        assert(json_map_view(extension_overrides@).take(extension_overrides@.len() as int)
            =~= json_map_view(extension_overrides@));
    }
    extensions.push(String::from_str("js"));
    extensions.push(String::from_str("ts"));
    proof {
        assert(strings_view(extensions@) =~= parser_override_keys(
            json_map_view(extension_overrides@),
        ) + default_extensions_view());
    }
    extensions
}

/// Taking one more override into account appends its key exactly when its
/// object picks a parser.
proof fn lemma_parser_override_keys_snoc(overrides: Seq<(Seq<char>, JsonView)>, i: int)
    requires
        0 <= i < overrides.len(),
    ensures
        parser_override_keys(overrides.take(i + 1)) == parser_override_keys(overrides.take(i))
            + (if match overrides[i].1 {
            JsonView::Object(entries) => vhas_key(entries, "parser"@),
            _ => false,
        } {
            seq![overrides[i].0]
        } else {
            Seq::<Seq<char>>::empty()
        }),
    decreases i,
{
    if i == 0 {
        assert(overrides.take(0) =~= Seq::<(Seq<char>, JsonView)>::empty());
        assert(overrides.take(1).drop_first() =~= Seq::<(Seq<char>, JsonView)>::empty());
        assert(parser_override_keys(overrides.take(1)) =~= parser_override_keys(overrides.take(0))
            + (if match overrides[0].1 {
            JsonView::Object(entries) => vhas_key(entries, "parser"@),
            _ => false,
        } {
            seq![overrides[0].0]
        } else {
            Seq::<Seq<char>>::empty()
        }));
    } else {
        lemma_parser_override_keys_snoc(overrides.drop_first(), i - 1);
        assert(overrides.take(i + 1).drop_first() =~= overrides.drop_first().take(i));
        assert(overrides.take(i).drop_first() =~= overrides.drop_first().take(i - 1));
        assert(parser_override_keys(overrides.take(i + 1)) == seq_head_of(overrides.take(i + 1))
            + parser_override_keys(overrides.drop_first().take(i)));
        assert(parser_override_keys(overrides.take(i)) == seq_head_of(overrides.take(i))
            + parser_override_keys(overrides.drop_first().take(i - 1)));
        assert(seq_head_of(overrides.take(i + 1)) == seq_head_of(overrides.take(i)));
        assert(parser_override_keys(overrides.take(i + 1)) =~= parser_override_keys(
            overrides.take(i),
        ) + (if match overrides[i].1 {
            JsonView::Object(entries) => vhas_key(entries, "parser"@),
            _ => false,
        } {
            seq![overrides[i].0]
        } else {
            Seq::<Seq<char>>::empty()
        }));
    }
}

/// The key of the first override, when its object picks a parser.
pub open spec fn seq_head_of(overrides: Seq<(Seq<char>, JsonView)>) -> Seq<Seq<char>> {
    if overrides.len() > 0 && (match overrides[0].1 {
        JsonView::Object(entries) => vhas_key(entries, "parser"@),
        _ => false,
    }) {
        seq![overrides[0].0]
    } else {
        Seq::empty()
    }
}

/// A raw configuration paired with the global one, for a host that hands
/// both over and resolves them later.
pub struct Configuration(pub ConfigKeyMap, pub GlobalConfiguration);

/// The plugin handler: one worker pool serving every format call.
pub struct PrettierPluginHandler<F: Formatter> {
    pub channel: Channel<F>,
}

impl<F: Formatter> PrettierPluginHandler<F> {
    pub open spec fn wf(self) -> bool {
        self.channel.wf()
    }

    /// A new handler with an empty pool; the first format call spawns the
    /// first worker.
    pub fn new() -> (handler: PrettierPluginHandler<F>)
        ensures
            handler.wf(),
            handler.channel.stats.total_workers == 0,
            handler.channel.stats.pending_workers == 0,
            handler.channel.queue@.len() == 0,
            handler.channel.workers@.len() == 0,
            !handler.channel.disposed,
            handler.channel.options.avg_isolate_memory_usage == 600_000_000,
    {
        PrettierPluginHandler {
            channel: Channel::new(CreateChannelOptions { avg_isolate_memory_usage: 600_000_000 }),
        }
    }

    /// The plugin's identity card.
    pub fn plugin_info(&self) -> (info: PluginInfo)
        ensures
            info.name@ == "dprint-plugin-prettier"@,
            info.version@ == "0.1.0"@,
            info.config_key@ == "prettier"@,
            strings_view(info.file_extensions@) == default_extensions_view(),
            info.file_names@.len() == 0,
            info.help_url@ == "https://dprint.dev/plugins/prettier"@,
            info.config_schema_url@.len() == 0,
            info.update_url matches Some(url) && url@
                == "https://plugins.dprint.dev/dprint/dprint-plugin-prettier/latest.json"@,
    {
        PluginInfo {
            name: String::from_str("dprint-plugin-prettier"),
            version: String::from_str("0.1.0"),
            config_key: String::from_str("prettier"),
            file_extensions: default_file_extensions(),
            file_names: Vec::new(),
            help_url: String::from_str("https://dprint.dev/plugins/prettier"),
            config_schema_url: String::new(),
            update_url: Some(
                String::from_str(
                    "https://plugins.dprint.dev/dprint/dprint-plugin-prettier/latest.json",
                ),
            ),
        }
    }

    /// The license the plugin is offered under.
    pub fn license_text(&self) -> (text: String)
        ensures
            text@ == crate::wasm_plugin::mit_license_text(),
    {
        crate::wasm_plugin::get_plugin_license_text()
    }

    /// Resolves the raw configuration and derives which files the plugin
    /// then matches: the default extensions plus every extension whose
    /// override picks its own parser.
    pub fn resolve_config(
        &self,
        config: ConfigKeyMap,
        global_config: GlobalConfiguration,
        platform_crlf: bool,
    ) -> (result: PluginResolveConfigurationResult<PrettierConfig>)
        ensures
            resolve_config_matches(
                config@,
                global_config,
                platform_crlf,
                json_map_view(result.config.main@),
                json_map_view(result.config.extension_overrides@),
                diagnostics_view(result.diagnostics@),
            ),
            strings_view(result.file_matching.file_extensions@) == parser_override_keys(
                json_map_view(result.config.extension_overrides@),
            ) + default_extensions_view(),
            result.file_matching.file_names@.len() == 0,
    {
        let resolved = resolve_config(config, global_config, platform_crlf);
        let file_extensions = get_file_extensions(&resolved.config.extension_overrides);
        PluginResolveConfigurationResult {
            config: resolved.config,
            diagnostics: resolved.diagnostics,
            file_matching: FileMatchingInfo { file_extensions, file_names: Vec::new() },
        }
    }

    /// Formats one request through the pool. A request that asks for a
    /// sub-range is answered with no change — range formatting is not
    /// supported — and leaves the pool untouched.
    pub fn format(&mut self, request: FormatRequest, available_memory: u64) -> (result:
        FormatResult)
        requires
            old(self).wf(),
            old(self).channel.stats.total_workers < usize::MAX,
        ensures
            final(self).wf(),
            request.range is Some ==> (result matches Ok(None)) && *final(self) == *old(self),
            request.range is None ==> format_post(
                old(self).channel,
                final(self).channel,
                request,
                available_memory,
                result,
            ),
    {
        if request.range.is_some() {
            return Ok(None);
        }
        self.channel.format(request, available_memory)
    }
}

} // verus!
