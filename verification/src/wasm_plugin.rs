//! The plugin's static facts: its configuration key, the file extensions it
//! claims, its help pages, and its license.

use vstd::prelude::*;
use vstd::string::StringExecFns;

use crate::config::PrettierConfig;
use crate::handler::default_file_extensions;
use crate::handler::default_extensions_view;
use crate::handler::strings_view;

verus! {

/// The configuration key under which the host addresses this plugin.
pub fn get_plugin_config_key() -> (key: String)
    ensures
        key@ == "prettier"@,
{
    String::from_str("prettier")
}

/// The file extensions this plugin formats by default.
pub fn get_plugin_file_extensions() -> (extensions: Vec<String>)
    ensures
        strings_view(extensions@) == default_extensions_view(),
{
    default_file_extensions()
}

/// Where the plugin's documentation lives.
pub fn get_plugin_help_url() -> (url: String)
    ensures
        url@ == "https://dprint.dev/plugins/prettier"@,
{
    String::from_str("https://dprint.dev/plugins/prettier")
}

/// The plugin publishes no configuration schema.
pub fn get_plugin_config_schema_url() -> (url: String)
    ensures
        url@.len() == 0,
{
    String::new()
}

/// The text of the MIT license the plugin is offered under.
pub open spec fn mit_license_text() -> Seq<char> {
    "The MIT License (MIT)\n\nPermission is hereby granted, free of charge, to any person obtaining a copy of this software and associated documentation files (the \"Software\"), to deal in the Software without restriction, including without limitation the rights to use, copy, modify, merge, publish, distribute, sublicense, and/or sell copies of the Software, and to permit persons to whom the Software is furnished to do so, subject to the following conditions:\n\nThe above copyright notice and this permission notice shall be included in all copies or substantial portions of the Software.\n\nTHE SOFTWARE IS PROVIDED \"AS IS\", WITHOUT WARRANTY OF ANY KIND, EXPRESS OR IMPLIED, INCLUDING BUT NOT LIMITED TO THE WARRANTIES OF MERCHANTABILITY, FITNESS FOR A PARTICULAR PURPOSE AND NONINFRINGEMENT. IN NO EVENT SHALL THE AUTHORS OR COPYRIGHT HOLDERS BE LIABLE FOR ANY CLAIM, DAMAGES OR OTHER LIABILITY, WHETHER IN AN ACTION OF CONTRACT, TORT OR OTHERWISE, ARISING FROM, OUT OF OR IN CONNECTION WITH THE SOFTWARE OR THE USE OR OTHER DEALINGS IN THE SOFTWARE.\n"@
}

/// The license text the plugin reports.
pub fn get_plugin_license_text() -> (text: String)
    ensures
        text@ == mit_license_text(),
{
    String::from_str(
        "The MIT License (MIT)\n\nPermission is hereby granted, free of charge, to any person obtaining a copy of this software and associated documentation files (the \"Software\"), to deal in the Software without restriction, including without limitation the rights to use, copy, modify, merge, publish, distribute, sublicense, and/or sell copies of the Software, and to permit persons to whom the Software is furnished to do so, subject to the following conditions:\n\nThe above copyright notice and this permission notice shall be included in all copies or substantial portions of the Software.\n\nTHE SOFTWARE IS PROVIDED \"AS IS\", WITHOUT WARRANTY OF ANY KIND, EXPRESS OR IMPLIED, INCLUDING BUT NOT LIMITED TO THE WARRANTIES OF MERCHANTABILITY, FITNESS FOR A PARTICULAR PURPOSE AND NONINFRINGEMENT. IN NO EVENT SHALL THE AUTHORS OR COPYRIGHT HOLDERS BE LIABLE FOR ANY CLAIM, DAMAGES OR OTHER LIABILITY, WHETHER IN AN ACTION OF CONTRACT, TORT OR OTHERWISE, ARISING FROM, OUT OF OR IN CONNECTION WITH THE SOFTWARE OR THE USE OR OTHER DEALINGS IN THE SOFTWARE.\n",
    )
}

/// Formats one file's text with the plugin's embedded script engine.
pub fn format_text(file_path: &str, file_text: &str, config: &PrettierConfig) -> (result: Result<
    String,
    String,
>)
    ensures
        result matches Err(m) ==> m@ == crate::format_text::engine_unavailable_message(),
{
    crate::format_text::format_text(file_text, config)
}

} // verus!
