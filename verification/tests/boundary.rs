use plugin_manager::config::MasterConfig;
use plugin_manager::error::{PluginError, PluginErrorId};
use plugin_manager::result::{EncodedString, PluginResult};

#[test]
fn encoded_string_copies_its_bytes() {
    let bytes: [u8; 2] = [0x68, 0x69];
    let view = EncodedString::new(&bytes);
    assert_eq!(view.to_vec(), vec![0x68, 0x69]);
}

#[test]
fn encoded_string_decodes_utf8() {
    let bytes: [u8; 2] = [0x68, 0x69];
    let view = EncodedString::new(&bytes);
    assert_eq!(view.to_string().unwrap(), "hi");
}

#[test]
fn encoded_string_decodes_multibyte_text() {
    let text = "プラグイン";
    let view = EncodedString::new(text.as_bytes());
    assert_eq!(view.to_string().unwrap(), text);
    assert_eq!(view.to_vec(), text.as_bytes().to_vec());
}

#[test]
fn encoded_string_rejects_malformed_utf8() {
    let bytes: [u8; 1] = [0xFF];
    let view = EncodedString::new(&bytes);
    assert!(view.to_string().is_err());
    assert_eq!(view.to_vec(), vec![0xFF]);
}

#[test]
fn encoded_string_rejects_a_truncated_sequence() {
    let bytes: [u8; 3] = [0x68, 0xE3, 0x83];
    let view = EncodedString::new(&bytes);
    let err = view.to_string().unwrap_err();
    assert_eq!(err.utf8_error().valid_up_to(), 1);
    assert_eq!(view.to_vec(), vec![0x68, 0xE3, 0x83]);
}

#[test]
fn encoded_string_over_nothing_is_empty_text() {
    let bytes: [u8; 0] = [];
    let view = EncodedString::new(&bytes);
    assert!(view.to_vec().is_empty());
    assert_eq!(view.to_string().unwrap(), "");
}

#[test]
fn plugin_result_variants_are_distinct() {
    assert_eq!(PluginResult::Success, PluginResult::Success);
    assert_ne!(PluginResult::Success, PluginResult::NoChain);
    assert_ne!(PluginResult::NoChain, PluginResult::NoChainAndCancel);
    assert_ne!(PluginResult::Success, PluginResult::NoChainAndCancel);
}

#[test]
fn plugin_error_keeps_its_kind_and_message() {
    let e = PluginError::new(PluginErrorId::SymbolNotFound, "nothing here".to_string());
    assert_eq!(e.plugin_error_id(), PluginErrorId::SymbolNotFound);
    assert_eq!(e.to_string(), "nothing here");
    let copy = e.clone();
    assert_eq!(copy.plugin_error_id(), PluginErrorId::SymbolNotFound);
    assert_eq!(copy.to_string(), "nothing here");
}

#[test]
fn each_error_kind_has_its_message() {
    let e = PluginError::already_loaded("a.dll", "/p/a.dll");
    assert_eq!(e.plugin_error_id(), PluginErrorId::AlreadyLoaded);
    assert_eq!(
        e.to_string(),
        "指定されたファイル名:a.dll\nフルパス:/p/a.dll\nその他情報: ロード済みのプラグインのためスキップします"
    );
    let e = PluginError::file_not_found("a.dll", "/p/a.dll", "no such file");
    assert_eq!(e.plugin_error_id(), PluginErrorId::FileNotFound);
    assert_eq!(
        e.to_string(),
        "指定されたファイル名:a.dll\nフルパス:/p/a.dll\nその他情報: no such file"
    );
    let e = PluginError::not_ready("a.dll");
    assert_eq!(e.plugin_error_id(), PluginErrorId::NotReady);
    assert_eq!(e.to_string(), "\"a.dll\" はロードされていません");
    let e = PluginError::plugin_disabled("a.dll");
    assert_eq!(e.plugin_error_id(), PluginErrorId::PluginDisable);
    assert_eq!(
        e.to_string(),
        "\"a.dll\" は読み込まれていますが、ユーザにより無効化されています"
    );
    let e = PluginError::symbol_not_found("on_paste");
    assert_eq!(e.plugin_error_id(), PluginErrorId::SymbolNotFound);
    assert_eq!(e.to_string(), "\"on_paste\" が見つかりません");
}

#[test]
fn config_with_plugin_directory_keeps_it() {
    let c = MasterConfig::with_plugin_directory("/opt/host/plugins".to_string());
    assert_eq!(c.addon_name, "main_logic.dll");
    assert_eq!(c.plugin_directory, "/opt/host/plugins");
}

#[test]
fn config_default_resolves_the_plugin_subdirectory() {
    let c = MasterConfig::with_install_dir("/opt/host");
    assert_eq!(c.addon_name, "main_logic.dll");
    let expected = std::path::Path::new("/opt/host").join("multiline_paster_plugins");
    assert_eq!(c.plugin_directory, expected.to_str().unwrap());
    assert_ne!(c.plugin_directory, "/opt/host");
}
