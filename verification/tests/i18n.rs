use aosc_exec_guard::i18n::Lang;

#[test]
fn locale_names_map_to_a_language() {
    assert_eq!(Lang::from_locale("zh_CN.UTF-8"), Lang::ZhCn);
    assert_eq!(Lang::from_locale("zh_TW"), Lang::ZhCn);
    assert_eq!(Lang::from_locale("en_US.UTF-8"), Lang::En);
    assert_eq!(Lang::from_locale("en"), Lang::En);
    assert_eq!(Lang::from_locale("C"), Lang::En);
    assert_eq!(Lang::from_locale("POSIX"), Lang::En);
    assert_eq!(Lang::from_locale("de_DE.UTF-8"), Lang::En);
}

#[test]
fn both_languages_have_text() {
    for lang in [Lang::ZhCn, Lang::En] {
        assert!(!lang.menu_run_once().is_empty());
        assert!(lang.cannot_run("/tmp/x", "why", "hint").contains("/tmp/x"));
    }
    assert!(Lang::ZhCn.ho_done().contains("让位"));
    assert!(Lang::En.ho_done().contains("handover"));
}
