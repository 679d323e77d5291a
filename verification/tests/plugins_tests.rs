use tourist_core::plugins::Plugin;
use tourist_core::plugins::PluginEntry;
use tourist_core::plugins::PluginManager;
use tourist_core::plugins::SummarizerPlugin;
use tourist_core::plugins::TranslatorPlugin;

#[test]
fn translator_marks_its_input() {
    let p = TranslatorPlugin::new(String::from("Spanish"));
    assert_eq!(p.name(), "Translator");
    assert!(p.is_enabled());
    let out = p.process("hola").expect("never fails");
    assert_eq!(out, "[Translated to Spanish]: hola");
}

#[test]
fn summarizer_truncates_long_input_only() {
    let p = SummarizerPlugin::new(5);
    assert_eq!(p.name(), "Summarizer");
    assert_eq!(p.process("abc").expect("ok"), "abc");
    assert_eq!(p.process("abcde").expect("ok"), "abcde");
    assert_eq!(p.process("abcdefgh").expect("ok"), "abcde...");
}

#[test]
fn manager_registers_and_lists_in_order() {
    let mut m = PluginManager::new();
    m.register_plugin(PluginEntry::Translator(TranslatorPlugin::new(String::from("Spanish"))));
    m.register_plugin(PluginEntry::Summarizer(SummarizerPlugin::new(500)));
    let names = m.get_plugin_names();
    assert_eq!(names, vec!["Translator", "Summarizer"]);
}

#[test]
fn registering_the_same_name_replaces_in_place() {
    let mut m = PluginManager::new();
    m.register_plugin(PluginEntry::Translator(TranslatorPlugin::new(String::from("Spanish"))));
    m.register_plugin(PluginEntry::Summarizer(SummarizerPlugin::new(500)));
    m.register_plugin(PluginEntry::Translator(TranslatorPlugin::new(String::from("French"))));
    assert_eq!(m.get_plugin_names(), vec!["Translator", "Summarizer"]);
    let out = m.process_with_plugins("x").expect("ok");
    assert_eq!(out, "[Translated to French]: x");
}

#[test]
fn chain_runs_enabled_stages_in_registry_order() {
    let mut m = PluginManager::new();
    m.register_plugin(PluginEntry::Translator(TranslatorPlugin::new(String::from("Spanish"))));
    m.register_plugin(PluginEntry::Summarizer(SummarizerPlugin::new(5)));
    let out = m.process_with_plugins("hi").expect("ok");
    assert_eq!(out, "[Tran...");
}

#[test]
fn disabled_stages_are_skipped() {
    let mut m = PluginManager::new();
    let mut t = TranslatorPlugin::new(String::from("Spanish"));
    t.enabled = false;
    m.register_plugin(PluginEntry::Translator(t));
    let out = m.process_with_plugins("hi").expect("ok");
    assert_eq!(out, "hi");
}

#[test]
fn empty_registry_is_the_identity() {
    let m = PluginManager::new();
    assert_eq!(m.process_with_plugins("anything").expect("ok"), "anything");
    assert!(m.get_plugin_names().is_empty());
}
