//! Failure kinds of the plugin registry and the text of their messages.

use vstd::prelude::*;
use vstd::string::*;

verus! {

/// The kinds of failure the registry reports.
#[derive(Debug, PartialEq, Eq, Structural, Clone, Copy)]
pub enum PluginErrorId {
    /// The name to load is already in the registry.
    AlreadyLoaded,
    /// The loader could not open the library.
    FileNotFound,
    /// No plugin of that name is loaded.
    NotReady,
    /// The plugin is active but does not export the symbol.
    SymbolNotFound,
    /// The plugin is loaded but disabled.
    PluginDisable,
}

/// A failure kind together with its human-readable message.
#[derive(Debug, Clone)]
pub struct PluginError {
    id: PluginErrorId,
    msg: String,
}

/// Message of an `AlreadyLoaded` error for `lib_name`, resolved to `full_path`.
pub open spec fn already_loaded_message(lib_name: Seq<char>, full_path: Seq<char>) -> Seq<char> {
    "指定されたファイル名:"@ + lib_name + "\nフルパス:"@ + full_path
        + "\nその他情報: ロード済みのプラグインのためスキップします"@
}

/// Message of a `FileNotFound` error: the requested name, the resolved path
/// and the loader's own description of the failure.
pub open spec fn file_not_found_message(
    lib_name: Seq<char>,
    full_path: Seq<char>,
    detail: Seq<char>,
) -> Seq<char> {
    "指定されたファイル名:"@ + lib_name + "\nフルパス:"@ + full_path + "\nその他情報: "@ + detail
}

/// Message of a `NotReady` error for `plugin_name`.
pub open spec fn not_ready_message(plugin_name: Seq<char>) -> Seq<char> {
    "\""@ + plugin_name + "\" はロードされていません"@
}

/// Message of a `PluginDisable` error for `plugin_name`.
pub open spec fn plugin_disabled_message(plugin_name: Seq<char>) -> Seq<char> {
    "\""@ + plugin_name + "\" は読み込まれていますが、ユーザにより無効化されています"@
}

/// Message of a `SymbolNotFound` error for `function_name`.
pub open spec fn symbol_not_found_message(function_name: Seq<char>) -> Seq<char> {
    "\""@ + function_name + "\" が見つかりません"@
}

impl PluginError {
    /// The failure kind.
    pub closed spec fn id(&self) -> PluginErrorId {
        self.id
    }

    /// The message text.
    pub closed spec fn message(&self) -> Seq<char> {
        self.msg@
    }

    /// An error of kind `id` with the message `msg`.
    pub fn new(id: PluginErrorId, msg: String) -> (e: Self)
        ensures
            e.id() == id,
            e.message() == msg@,
    {
        PluginError { id, msg }
    }

    /// The failure kind.
    pub fn plugin_error_id(&self) -> (id: PluginErrorId)
        ensures
            id == self.id(),
    {
        self.id
    }

    /// The message text, as an owned string.
    pub fn to_string(&self) -> (s: String)
        ensures
            s@ == self.message(),
    {
        self.msg.clone()
    }

    /// The error for loading a name that is already present.
    pub fn already_loaded(lib_name: &str, full_path: &str) -> (e: Self)
        ensures
            e.id() == PluginErrorId::AlreadyLoaded,
            e.message() == already_loaded_message(lib_name@, full_path@),
    {
        let mut msg = String::from_str("指定されたファイル名:");
        msg.append(lib_name);
        msg.append("\nフルパス:");
        msg.append(full_path);
        msg.append("\nその他情報: ロード済みのプラグインのためスキップします");
        PluginError { id: PluginErrorId::AlreadyLoaded, msg }
    }

    /// The error for a library that the loader could not open; `detail` is
    /// the loader's description of the failure.
    pub fn file_not_found(lib_name: &str, full_path: &str, detail: &str) -> (e: Self)
        ensures
            e.id() == PluginErrorId::FileNotFound,
            e.message() == file_not_found_message(lib_name@, full_path@, detail@),
    {
        let mut msg = String::from_str("指定されたファイル名:");
        msg.append(lib_name);
        msg.append("\nフルパス:");
        msg.append(full_path);
        msg.append("\nその他情報: ");
        msg.append(detail);
        PluginError { id: PluginErrorId::FileNotFound, msg }
    }

    /// The error for resolving on a name that has no entry.
    pub fn not_ready(plugin_name: &str) -> (e: Self)
        ensures
            e.id() == PluginErrorId::NotReady,
            e.message() == not_ready_message(plugin_name@),
    {
        let mut msg = String::from_str("\"");
        msg.append(plugin_name);
        msg.append("\" はロードされていません");
        PluginError { id: PluginErrorId::NotReady, msg }
    }

    /// The error for resolving on a plugin that is loaded but disabled.
    pub fn plugin_disabled(plugin_name: &str) -> (e: Self)
        ensures
            e.id() == PluginErrorId::PluginDisable,
            e.message() == plugin_disabled_message(plugin_name@),
    {
        let mut msg = String::from_str("\"");
        msg.append(plugin_name);
        msg.append("\" は読み込まれていますが、ユーザにより無効化されています");
        PluginError { id: PluginErrorId::PluginDisable, msg }
    }

    /// The error for a symbol that an active plugin does not export.
    pub fn symbol_not_found(function_name: &str) -> (e: Self)
        ensures
            e.id() == PluginErrorId::SymbolNotFound,
            e.message() == symbol_not_found_message(function_name@),
    {
        let mut msg = String::from_str("\"");
        msg.append(function_name);
        msg.append("\" が見つかりません");
        PluginError { id: PluginErrorId::SymbolNotFound, msg }
    }
}

} // verus!
