//! Locales, engines, and where things are found.

use apple_translate_rs_sync::config::{
    assets_dir_candidates, find_assets_dir, find_worker_bin, first_candidate, locale_from,
    materialize_embedded_worker, temporary_worker_name, BinCandidate, BinSearch, InstallStep,
};
use apple_translate_rs_sync::{
    normalize_locale, set_worker_num_engines, worker_num_engines, WorkerConfig,
};

#[test]
fn listed_tags_have_their_locales() {
    let listed = [
        ("zh-Hans", "zh_CN"),
        ("zh-Hant", "zh_TW"),
        ("zh-HK", "zh_HK"),
        ("en", "en_US"),
        ("en-US", "en_US"),
        ("en-GB", "en_GB"),
        ("ja", "ja_JP"),
        ("ja-JP", "ja_JP"),
        ("ko", "ko_KR"),
        ("ko-KR", "ko_KR"),
        ("fr", "fr_FR"),
        ("fr-FR", "fr_FR"),
        ("de", "de_DE"),
        ("de-DE", "de_DE"),
        ("es", "es_ES"),
        ("es-ES", "es_ES"),
        ("pt", "pt_BR"),
        ("pt-BR", "pt_BR"),
        ("it", "it_IT"),
        ("it-IT", "it_IT"),
        ("ru", "ru_RU"),
        ("ru-RU", "ru_RU"),
        ("vi", "vi_VN"),
        ("vi-VN", "vi_VN"),
        ("th", "th_TH"),
        ("th-TH", "th_TH"),
        ("tr", "tr_TR"),
        ("tr-TR", "tr_TR"),
        ("ar", "ar_AE"),
        ("ar-AE", "ar_AE"),
        ("hi", "hi_IN"),
        ("hi-IN", "hi_IN"),
        ("id", "id_ID"),
        ("id-ID", "id_ID"),
        ("uk", "uk_UA"),
        ("uk-UA", "uk_UA"),
        ("pl", "pl_PL"),
        ("pl-PL", "pl_PL"),
        ("nl", "nl_NL"),
        ("nl-NL", "nl_NL"),
    ];
    for (tag, locale) in listed {
        assert_eq!(normalize_locale(tag), locale);
        assert_eq!(normalize_locale(locale), locale);
    }
}

#[test]
fn other_tags_are_repeated_in_upper_case() {
    assert_eq!(normalize_locale("sv"), "sv_SV");
    assert_eq!(normalize_locale("ß"), "ß_SS");
    assert_eq!(normalize_locale(""), "_");
    assert_eq!(locale_from("sv", "XX"), "sv_XX");
}

#[test]
fn other_tags_with_subtags_are_parted_by_underscores() {
    assert_eq!(normalize_locale("pt-PT"), "pt_PT");
    assert_eq!(normalize_locale("sv-SE"), "sv_SE");
    assert_eq!(normalize_locale("sr-Latn-RS"), "sr_Latn_RS");
    assert_eq!(normalize_locale("-é-"), "_é_");
    assert_eq!(normalize_locale("a-b_c"), "a-b_c");
    assert_eq!(locale_from("sv-SE", "XX"), "sv_SE");
    for tag in ["zh-Hans", "en-GB", "pt-PT", "sv", "sv-SE"] {
        assert!(!normalize_locale(tag).contains('-'));
    }
}

#[test]
fn a_locale_stays_as_it_is() {
    assert_eq!(normalize_locale("sv_SE"), "sv_SE");
    for tag in ["sv", "en", "", "a_b", "pt-PT"] {
        let locale = normalize_locale(tag);
        assert!(locale.contains('_'));
        assert_eq!(normalize_locale(&locale), locale);
    }
}

#[test]
fn engines_that_are_set_are_clamped() {
    let set = |n: usize| {
        let mut config = WorkerConfig::new();
        set_worker_num_engines(&mut config, n);
        worker_num_engines(&config, Some("7".to_owned()))
    };
    assert_eq!(set(0), 1);
    assert_eq!(set(1), 1);
    assert_eq!(set(4), 4);
    assert_eq!(set(32), 32);
    assert_eq!(set(33), 32);
    assert_eq!(set(usize::MAX), 32);
}

#[test]
fn engines_that_the_environment_asks_for_are_clamped() {
    let asked = |value: &str| worker_num_engines(&WorkerConfig::new(), Some(value.to_owned()));
    assert_eq!(asked("4"), 4);
    assert_eq!(asked("+4"), 4);
    assert_eq!(asked("0"), 1);
    assert_eq!(asked("100"), 32);
    assert_eq!(asked("four"), 1);
    assert_eq!(asked(" 4"), 1);
    assert_eq!(asked(""), 1);
    assert_eq!(asked("-4"), 1);
    assert_eq!(asked("99999999999999999999999"), 1);
    assert_eq!(worker_num_engines(&WorkerConfig::new(), None), 1);
}

#[test]
fn the_last_number_of_engines_counts() {
    let mut config = WorkerConfig::new();
    set_worker_num_engines(&mut config, 8);
    set_worker_num_engines(&mut config, 2);
    assert_eq!(worker_num_engines(&config, None), 2);
}

fn search(there: &[BinCandidate]) -> (Option<BinCandidate>, Vec<BinCandidate>) {
    let mut candidate = first_candidate();
    let mut probed = vec![candidate];
    loop {
        match find_worker_bin(candidate, there.contains(&candidate)) {
            BinSearch::Probe(next) => {
                probed.push(next);
                candidate = next;
            }
            BinSearch::Found(found) => return (Some(found), probed),
            BinSearch::Missing => return (None, probed),
        }
    }
}

#[test]
fn the_first_program_there_is_taken() {
    let all = [
        BinCandidate::EnvOverride,
        BinCandidate::Embedded,
        BinCandidate::BesideExecutable,
        BinCandidate::Generated,
    ];
    for i in 0..all.len() {
        let (found, probed) = search(&all[i..]);
        assert_eq!(found, Some(all[i]));
        assert_eq!(probed, &all[..=i]);
    }
    assert_eq!(search(&[]), (None, all.to_vec()));
}

#[test]
fn a_program_of_the_right_size_is_kept() {
    assert_eq!(materialize_embedded_worker(Some(10), 10), InstallStep::Installed);
    assert_eq!(materialize_embedded_worker(Some(9), 10), InstallStep::CreateDir);
    assert_eq!(materialize_embedded_worker(None, 10), InstallStep::CreateDir);
}

#[test]
fn a_program_is_extracted_step_by_step() {
    let steps = [
        InstallStep::CreateDir,
        InstallStep::WriteFile,
        InstallStep::SetMode,
        InstallStep::Rename,
        InstallStep::Installed,
    ];
    for i in 0..4 {
        assert_eq!(steps[i].next(true), steps[i + 1]);
        assert_eq!(steps[i].next(false), InstallStep::Unavailable);
    }
    assert_eq!(InstallStep::Installed.next(false), InstallStep::Installed);
    assert_eq!(InstallStep::Unavailable.next(true), InstallStep::Unavailable);
    assert_eq!(temporary_worker_name(4321), "translation-worker.tmp.4321");
}

#[test]
fn assets_are_looked_for_in_both_directions() {
    let dirs = assets_dir_candidates(Some("/home/u".to_owned()), "zh-Hans", "en");
    assert_eq!(
        dirs,
        [
            "/home/u/Library/Translation/AssetsV3/zh_CN-en_US",
            "/home/u/Library/Translation/AssetsV3/en_US-zh_CN",
        ]
    );
    let mut reverse = assets_dir_candidates(Some("/home/u".to_owned()), "en", "zh-Hans");
    reverse.reverse();
    assert_eq!(dirs, reverse);
    assert!(assets_dir_candidates(None, "zh-Hans", "en").is_empty());
    let absolute = assets_dir_candidates(Some("/home/u".to_owned()), "/a_b", "en");
    assert_eq!(absolute[0], "/a_b-en_US");
}

#[test]
fn the_first_assets_installed_are_taken() {
    let dirs = || vec!["a".to_owned(), "b".to_owned()];
    assert_eq!(find_assets_dir(dirs(), &[true, true]).as_deref(), Some("a"));
    assert_eq!(find_assets_dir(dirs(), &[false, true]).as_deref(), Some("b"));
    assert_eq!(find_assets_dir(dirs(), &[false, false]), None);
    assert_eq!(find_assets_dir(dirs(), &[]), None);
    assert_eq!(find_assets_dir(Vec::new(), &[true]), None);
}
