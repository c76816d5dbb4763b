//! Where a worker and a language pair's assets are found, and how a worker is
//! set up.
use crate::text;
use vstd::prelude::*;

verus! {

/// The most engines that a worker is started with.
pub const MAX_WORKER_NUM_ENGINES: usize = 32;

/// The number of engines of a worker where nothing else is asked for.
///
/// Each engine loads the whole model. More of them help only where one batch
/// holds many texts to spread over them.
pub const DEFAULT_WORKER_NUM_ENGINES: usize = 1;

/// The locale of the language tags that have one of their own.
pub open spec fn known_locale(tag: Seq<char>) -> Option<Seq<char>> {
    if tag == "zh-Hans"@ {
        Some("zh_CN"@)
    } else if tag == "zh-Hant"@ {
        Some("zh_TW"@)
    } else if tag == "zh-HK"@ {
        Some("zh_HK"@)
    } else if tag == "en"@ || tag == "en-US"@ {
        Some("en_US"@)
    } else if tag == "en-GB"@ {
        Some("en_GB"@)
    } else if tag == "ja"@ || tag == "ja-JP"@ {
        Some("ja_JP"@)
    } else if tag == "ko"@ || tag == "ko-KR"@ {
        Some("ko_KR"@)
    } else if tag == "fr"@ || tag == "fr-FR"@ {
        Some("fr_FR"@)
    } else if tag == "de"@ || tag == "de-DE"@ {
        Some("de_DE"@)
    } else if tag == "es"@ || tag == "es-ES"@ {
        Some("es_ES"@)
    } else if tag == "pt"@ || tag == "pt-BR"@ {
        Some("pt_BR"@)
    } else if tag == "it"@ || tag == "it-IT"@ {
        Some("it_IT"@)
    } else if tag == "ru"@ || tag == "ru-RU"@ {
        Some("ru_RU"@)
    } else if tag == "vi"@ || tag == "vi-VN"@ {
        Some("vi_VN"@)
    } else if tag == "th"@ || tag == "th-TH"@ {
        Some("th_TH"@)
    } else if tag == "tr"@ || tag == "tr-TR"@ {
        Some("tr_TR"@)
    } else if tag == "ar"@ || tag == "ar-AE"@ {
        Some("ar_AE"@)
    } else if tag == "hi"@ || tag == "hi-IN"@ {
        Some("hi_IN"@)
    } else if tag == "id"@ || tag == "id-ID"@ {
        Some("id_ID"@)
    } else if tag == "uk"@ || tag == "uk-UA"@ {
        Some("uk_UA"@)
    } else if tag == "pl"@ || tag == "pl-PL"@ {
        Some("pl_PL"@)
    } else if tag == "nl"@ || tag == "nl-NL"@ {
        Some("nl_NL"@)
    } else {
        None
    }
}

/// A tag with its subtags parted by underscores.
pub open spec fn underscored(tag: Seq<char>) -> Seq<char> {
    tag.map_values(
        |c: char|
            if c == '-' {
                '_'
            } else {
                c
            },
    )
}

/// The ICU locale of a language tag, given the tag in upper case: the one
/// listed for it; the tag itself where it is a locale already; where it has
/// subtags, the tag with its subtags parted by underscores; and else the tag
/// followed by its own upper case.
pub open spec fn locale_with(tag: Seq<char>, upper: Seq<char>) -> Seq<char> {
    match known_locale(tag) {
        Some(locale) => locale,
        None => if tag.contains('_') {
            tag
        } else if tag.contains('-') {
            underscored(tag)
        } else {
            tag + "_"@ + upper
        },
    }
}

/// The ICU locale of a language tag.
pub open spec fn icu_locale(tag: Seq<char>) -> Seq<char> {
    locale_with(tag, text::upper_case(tag))
}

/// Looks up the locale of a language tag that has one of its own.
fn look_up_locale(tag: &str) -> (locale: Option<&'static str>)
    ensures
        match locale {
            Some(l) => known_locale(tag@) == Some(l@),
            None => known_locale(tag@) is None,
        },
{
    if text::same_text(tag, "zh-Hans") {
        Some("zh_CN")
    } else if text::same_text(tag, "zh-Hant") {
        Some("zh_TW")
    } else if text::same_text(tag, "zh-HK") {
        Some("zh_HK")
    } else if text::same_text(tag, "en") || text::same_text(tag, "en-US") {
        Some("en_US")
    } else if text::same_text(tag, "en-GB") {
        Some("en_GB")
    } else if text::same_text(tag, "ja") || text::same_text(tag, "ja-JP") {
        Some("ja_JP")
    } else if text::same_text(tag, "ko") || text::same_text(tag, "ko-KR") {
        Some("ko_KR")
    } else if text::same_text(tag, "fr") || text::same_text(tag, "fr-FR") {
        Some("fr_FR")
    } else if text::same_text(tag, "de") || text::same_text(tag, "de-DE") {
        Some("de_DE")
    } else if text::same_text(tag, "es") || text::same_text(tag, "es-ES") {
        Some("es_ES")
    } else if text::same_text(tag, "pt") || text::same_text(tag, "pt-BR") {
        Some("pt_BR")
    } else if text::same_text(tag, "it") || text::same_text(tag, "it-IT") {
        Some("it_IT")
    } else if text::same_text(tag, "ru") || text::same_text(tag, "ru-RU") {
        Some("ru_RU")
    } else if text::same_text(tag, "vi") || text::same_text(tag, "vi-VN") {
        Some("vi_VN")
    } else if text::same_text(tag, "th") || text::same_text(tag, "th-TH") {
        Some("th_TH")
    } else if text::same_text(tag, "tr") || text::same_text(tag, "tr-TR") {
        Some("tr_TR")
    } else if text::same_text(tag, "ar") || text::same_text(tag, "ar-AE") {
        Some("ar_AE")
    } else if text::same_text(tag, "hi") || text::same_text(tag, "hi-IN") {
        Some("hi_IN")
    } else if text::same_text(tag, "id") || text::same_text(tag, "id-ID") {
        Some("id_ID")
    } else if text::same_text(tag, "uk") || text::same_text(tag, "uk-UA") {
        Some("uk_UA")
    } else if text::same_text(tag, "pl") || text::same_text(tag, "pl-PL") {
        Some("pl_PL")
    } else if text::same_text(tag, "nl") || text::same_text(tag, "nl-NL") {
        Some("nl_NL")
    } else {
        None
    }
}

/// Parts the subtags of a tag by underscores.
fn part_by_underscores(tag: &str) -> (parted: String)
    ensures
        parted@ == underscored(tag@),
{
    let n: usize = tag.unicode_len();
    let mut parted = String::new();
    let mut i: usize = 0;
    while i < n
        invariant
            i <= n == tag@.len(),
            parted@ == underscored(tag@).take(i as int),
        decreases n - i,
    {
        proof {
            reveal_strlit("_");
        }
        if tag.get_char(i) == '-' {
            parted.append("_");
        } else {
            parted.append(tag.substring_char(i, i + 1));
        }
        i += 1;
        assert(parted@ =~= underscored(tag@).take(i as int));
    }
    assert(underscored(tag@).take(n as int) =~= underscored(tag@));
    parted
}

/// The ICU locale of a language tag, given the tag in upper case.
pub fn locale_from(tag: &str, upper: &str) -> (locale: String)
    ensures
        locale@ == locale_with(tag@, upper@),
{
    match look_up_locale(tag) {
        Some(locale) => locale.to_owned(),
        None => if text::contains_char(tag, '_') {
            tag.to_owned()
        } else if text::contains_char(tag, '-') {
            part_by_underscores(tag)
        } else {
            let mut locale = tag.to_owned();
            locale.append("_");
            locale.append(upper);
            locale
        },
    }
}

/// Normalizes a BCP-47 language tag to the ICU locale by which the assets'
/// directories are named, as `zh-Hans` to `zh_CN`, `en` to `en_US` and `pt-PT`
/// to `pt_PT`.
pub fn normalize_locale(tag: &str) -> (locale: String)
    ensures
        locale@ == icu_locale(tag@),
        known_locale(tag@) is Some ==> locale@ == known_locale(tag@)->0,
        known_locale(tag@) is None && tag@.contains('_') ==> locale@ == tag@,
        known_locale(tag@) is None && !tag@.contains('_') && tag@.contains('-') ==> {
            &&& locale@ == underscored(tag@)
            &&& locale@.len() == tag@.len()
            &&& forall|i: int|
                0 <= i < tag@.len() ==> #[trigger] locale@[i] == (if tag@[i] == '-' {
                    '_'
                } else {
                    tag@[i]
                })
        },
        known_locale(tag@) is None && !tag@.contains('_') && !tag@.contains('-') ==> locale@
            == tag@ + seq!['_'] + text::upper_case(tag@),
        known_locale(tag@) is None && !tag@.contains('_') && !tag@.contains('-')
            && text::all_ascii(tag@) ==> locale@ == tag@ + "_"@ + tag@.map_values(|c: char| text::ascii_capital(c)),
{
    let upper = text::to_upper_case(tag);
    proof {
        reveal_strlit("_");
        assert("_"@ =~= seq!['_']);
    }
    locale_from(tag, upper.as_str())
}

/// No tag that has a locale of its own holds an underscore.
proof fn known_tags_have_no_underscore(tag: Seq<char>)
    requires
        known_locale(tag) is Some,
    ensures
        !tag.contains('_'),
{
    reveal_strlit("zh-Hans");
    reveal_strlit("zh-Hant");
    reveal_strlit("zh-HK");
    reveal_strlit("en");
    reveal_strlit("en-US");
    reveal_strlit("en-GB");
    reveal_strlit("ja");
    reveal_strlit("ja-JP");
    reveal_strlit("ko");
    reveal_strlit("ko-KR");
    reveal_strlit("fr");
    reveal_strlit("fr-FR");
    reveal_strlit("de");
    reveal_strlit("de-DE");
    reveal_strlit("es");
    reveal_strlit("es-ES");
    reveal_strlit("pt");
    reveal_strlit("pt-BR");
    reveal_strlit("it");
    reveal_strlit("it-IT");
    reveal_strlit("ru");
    reveal_strlit("ru-RU");
    reveal_strlit("vi");
    reveal_strlit("vi-VN");
    reveal_strlit("th");
    reveal_strlit("th-TH");
    reveal_strlit("tr");
    reveal_strlit("tr-TR");
    reveal_strlit("ar");
    reveal_strlit("ar-AE");
    reveal_strlit("hi");
    reveal_strlit("hi-IN");
    reveal_strlit("id");
    reveal_strlit("id-ID");
    reveal_strlit("uk");
    reveal_strlit("uk-UA");
    reveal_strlit("pl");
    reveal_strlit("pl-PL");
    reveal_strlit("nl");
    reveal_strlit("nl-NL");
}

/// Every listed locale holds an underscore.
proof fn known_locales_have_an_underscore(tag: Seq<char>)
    requires
        known_locale(tag) is Some,
    ensures
        known_locale(tag)->0.contains('_'),
{
    reveal_strlit("zh_CN");
    reveal_strlit("zh_TW");
    reveal_strlit("zh_HK");
    reveal_strlit("en_US");
    reveal_strlit("en_GB");
    reveal_strlit("ja_JP");
    reveal_strlit("ko_KR");
    reveal_strlit("fr_FR");
    reveal_strlit("de_DE");
    reveal_strlit("es_ES");
    reveal_strlit("pt_BR");
    reveal_strlit("it_IT");
    reveal_strlit("ru_RU");
    reveal_strlit("vi_VN");
    reveal_strlit("th_TH");
    reveal_strlit("tr_TR");
    reveal_strlit("ar_AE");
    reveal_strlit("hi_IN");
    reveal_strlit("id_ID");
    reveal_strlit("uk_UA");
    reveal_strlit("pl_PL");
    reveal_strlit("nl_NL");
    assert(known_locale(tag)->0[2] == '_');
}

/// No listed locale holds a hyphen.
proof fn known_locales_have_no_hyphen(tag: Seq<char>)
    requires
        known_locale(tag) is Some,
    ensures
        !known_locale(tag)->0.contains('-'),
{
    reveal_strlit("zh_CN");
    reveal_strlit("zh_TW");
    reveal_strlit("zh_HK");
    reveal_strlit("en_US");
    reveal_strlit("en_GB");
    reveal_strlit("ja_JP");
    reveal_strlit("ko_KR");
    reveal_strlit("fr_FR");
    reveal_strlit("de_DE");
    reveal_strlit("es_ES");
    reveal_strlit("pt_BR");
    reveal_strlit("it_IT");
    reveal_strlit("ru_RU");
    reveal_strlit("vi_VN");
    reveal_strlit("th_TH");
    reveal_strlit("tr_TR");
    reveal_strlit("ar_AE");
    reveal_strlit("hi_IN");
    reveal_strlit("id_ID");
    reveal_strlit("uk_UA");
    reveal_strlit("pl_PL");
    reveal_strlit("nl_NL");
}

/// Whatever the tag, its locale holds an underscore.
pub proof fn a_locale_holds_an_underscore(tag: Seq<char>, upper: Seq<char>)
    ensures
        locale_with(tag, upper).contains('_'),
{
    match known_locale(tag) {
        Some(_) => known_locales_have_an_underscore(tag),
        None => {
            reveal_strlit("_");
            assert((tag + "_"@ + upper)[tag.len() as int] == '_');
            if tag.contains('-') {
                let i = tag.index_of('-');
                assert(underscored(tag)[i] == '_');
            }
        },
    }
}

/// The locale of a tag that is not one already holds no hyphen, by which the
/// two locales in the name of an assets' directory are parted.
pub proof fn a_locale_holds_no_hyphen(tag: Seq<char>, upper: Seq<char>)
    requires
        !tag.contains('_'),
        !tag.contains('-') ==> !upper.contains('-'),
    ensures
        !locale_with(tag, upper).contains('-'),
{
    match known_locale(tag) {
        Some(_) => known_locales_have_no_hyphen(tag),
        None => {
            reveal_strlit("_");
            if !tag.contains('-') {
                let locale = tag + "_"@ + upper;
                assert forall|i: int| 0 <= i < locale.len() implies #[trigger] locale[i] != '-' by {
                    if i < tag.len() {
                        assert(tag.contains(tag[i]));
                    } else if i > tag.len() {
                        assert(upper.contains(upper[i - tag.len() - 1]));
                    }
                }
            }
        },
    }
}

/// Normalizing is idempotent: a locale is its own locale.
pub proof fn a_locale_is_its_own_locale(tag: Seq<char>)
    ensures
        icu_locale(icu_locale(tag)) == icu_locale(tag),
{
    a_locale_holds_an_underscore(tag, text::upper_case(tag));
    if known_locale(icu_locale(tag)) is Some {
        known_tags_have_no_underscore(icu_locale(tag));
    }
}

/// `n` brought into the range of engine counts.
pub open spec fn clamped_engines(n: nat) -> nat {
    if n < 1 {
        1
    } else if n > MAX_WORKER_NUM_ENGINES {
        MAX_WORKER_NUM_ENGINES as nat
    } else {
        n
    }
}

/// `n` brought into the range of engine counts.
fn clamp_engines(n: usize) -> (clamped: usize)
    ensures
        clamped as nat == clamped_engines(n as nat),
{
    if n < 1 {
        1
    } else if n > MAX_WORKER_NUM_ENGINES {
        MAX_WORKER_NUM_ENGINES
    } else {
        n
    }
}

/// What has been asked of the workers that are still to be started.
pub struct WorkerConfig {
    num_engines: Option<usize>,
}

impl WorkerConfig {
    #[verifier::type_invariant]
    spec fn within_range(self) -> bool {
        self.num_engines matches Some(n) ==> 1 <= n <= MAX_WORKER_NUM_ENGINES
    }

    /// The number of engines that has been set, if one has.
    pub closed spec fn engines_set(self) -> Option<nat> {
        match self.num_engines {
            Some(n) => Some(n as nat),
            None => None,
        }
    }

    /// A configuration in which nothing has been set.
    pub fn new() -> (config: WorkerConfig)
        ensures
            config.engines_set() is None,
    {
        WorkerConfig { num_engines: None }
    }
}

/// Sets the number of engines of each worker that is started from now on.
/// Values outside 1 to 32 are clamped.
pub fn set_worker_num_engines(config: &mut WorkerConfig, n: usize)
    ensures
        final(config).engines_set() == Some(clamped_engines(n as nat)),
        1 <= n <= 32 ==> final(config).engines_set() == Some(n as nat),
{
    config.num_engines = Some(clamp_engines(n));
}

/// The number of engines that a worker is started with, given what has been
/// set and what the environment asks for.
pub open spec fn engines_in_use(set: Option<nat>, asked: Option<Seq<char>>) -> nat {
    match set {
        Some(n) => n,
        None => match asked {
            Some(value) => match text::numeral(value) {
                Some(n) => if n <= usize::MAX {
                    clamped_engines(n)
                } else {
                    DEFAULT_WORKER_NUM_ENGINES as nat
                },
                None => DEFAULT_WORKER_NUM_ENGINES as nat,
            },
            None => DEFAULT_WORKER_NUM_ENGINES as nat,
        },
    }
}

/// The number of engines that a worker is started with: the one that has been
/// set; where none has, the clamped one that the value of the environment's
/// variable is a numeral of; and else the default.
pub fn worker_num_engines(config: &WorkerConfig, env_val: Option<String>) -> (n: usize)
    ensures
        n as nat == engines_in_use(config.engines_set(), text::text_of(env_val)),
        config.engines_set() matches Some(set) ==> n as nat == set,
        config.engines_set() is None && env_val is Some ==> forall|m: nat|
            1 <= m <= 32 && #[trigger] text::numeral(env_val->0@) == Some(m) ==> n as nat == m,
        config.engines_set() is None && env_val is None ==> n == 1,
        1 <= n <= MAX_WORKER_NUM_ENGINES,
{
    proof {
        use_type_invariant(config);
    }
    match config.num_engines {
        Some(n) => n,
        None => match env_val {
            Some(value) => match text::parse_usize(value.as_str()) {
                Ok(n) => clamp_engines(n),
                Err(_) => DEFAULT_WORKER_NUM_ENGINES,
            },
            None => DEFAULT_WORKER_NUM_ENGINES,
        },
    }
}

/// Whatever is set and asked for, a worker is started with 1 to 32 engines;
/// and what has been set prevails over what the environment asks for.
pub proof fn engines_are_within_range(n: nat, asked: Option<Seq<char>>)
    ensures
        1 <= clamped_engines(n) <= 32,
        1 <= n <= 32 ==> clamped_engines(n) == n,
        engines_in_use(Some(clamped_engines(n)), asked) == clamped_engines(n),
        1 <= engines_in_use(None, asked) <= 32,
{
}

/// Where a worker's program may be found.
#[derive(Debug, Clone, Copy, PartialEq, Eq, Structural)]
pub enum BinCandidate {
    /// The file that the environment names.
    EnvOverride,
    /// The program that is embedded here, extracted to a file.
    Embedded,
    /// The file beside the running executable.
    BesideExecutable,
    /// The file that a build leaves in its own directory.
    Generated,
}

/// How far the search for a worker's program has come.
#[derive(Debug, Clone, Copy, PartialEq, Eq, Structural)]
pub enum BinSearch {
    /// This candidate is to be looked at next.
    Probe(BinCandidate),
    /// The program is this candidate.
    Found(BinCandidate),
    /// There is no program.
    Missing,
}

impl BinCandidate {
    /// The place of a candidate in the order in which they are looked at.
    pub open spec fn rank(self) -> nat {
        match self {
            BinCandidate::EnvOverride => 0,
            BinCandidate::Embedded => 1,
            BinCandidate::BesideExecutable => 2,
            BinCandidate::Generated => 3,
        }
    }

    /// The search once this candidate has been looked at.
    pub open spec fn probed(self, found: bool) -> BinSearch {
        if found {
            BinSearch::Found(self)
        } else {
            match self {
                BinCandidate::EnvOverride => BinSearch::Probe(BinCandidate::Embedded),
                BinCandidate::Embedded => BinSearch::Probe(BinCandidate::BesideExecutable),
                BinCandidate::BesideExecutable => BinSearch::Probe(BinCandidate::Generated),
                BinCandidate::Generated => BinSearch::Missing,
            }
        }
    }

    /// Where the search ends from this candidate on, given which candidates
    /// are there.
    pub open spec fn search(self, there: spec_fn(BinCandidate) -> bool) -> BinSearch
        decreases 4 - self.rank(),
    {
        match self.probed(there(self)) {
            BinSearch::Probe(next) => next.search(there),
            ended => ended,
        }
    }
}

/// The candidate with which the search for a worker's program begins.
pub fn first_candidate() -> (candidate: BinCandidate)
    ensures
        candidate == BinCandidate::EnvOverride,
{
    BinCandidate::EnvOverride
}

/// Finds the worker's program: takes whether the candidate that was looked at
/// is there, and says what to look at next or how the search has ended.
pub fn find_worker_bin(probed: BinCandidate, found: bool) -> (search: BinSearch)
    ensures
        search == probed.probed(found),
{
    if found {
        BinSearch::Found(probed)
    } else {
        match probed {
            BinCandidate::EnvOverride => BinSearch::Probe(BinCandidate::Embedded),
            BinCandidate::Embedded => BinSearch::Probe(BinCandidate::BesideExecutable),
            BinCandidate::BesideExecutable => BinSearch::Probe(BinCandidate::Generated),
            BinCandidate::Generated => BinSearch::Missing,
        }
    }
}

/// The search ends with the first candidate that is there, in the order of
/// their ranks, and without one only where none is.
pub proof fn the_first_candidate_there_is_found(there: spec_fn(BinCandidate) -> bool)
    ensures
        match BinCandidate::EnvOverride.search(there) {
            BinSearch::Found(c) => there(c) && forall|d: BinCandidate|
                d.rank() < c.rank() ==> !#[trigger] there(d),
            BinSearch::Missing => forall|d: BinCandidate| !#[trigger] there(d),
            BinSearch::Probe(_) => false,
        },
{
    reveal_with_fuel(BinCandidate::search, 5);
    assert forall|d: BinCandidate| !there(BinCandidate::EnvOverride) && !there(
        BinCandidate::Embedded,
    ) && !there(BinCandidate::BesideExecutable) && !there(BinCandidate::Generated) implies !#[trigger] there(d) by {
        match d {
            BinCandidate::EnvOverride => {},
            BinCandidate::Embedded => {},
            BinCandidate::BesideExecutable => {},
            BinCandidate::Generated => {},
        }
    }
}

/// How far the extraction of the embedded worker has come.
#[derive(Debug, Clone, Copy, PartialEq, Eq, Structural)]
pub enum InstallStep {
    /// The directory is to be created, with those above it.
    CreateDir,
    /// The program is to be written to a temporary file.
    WriteFile,
    /// The temporary file is to be made executable.
    SetMode,
    /// The temporary file is to be renamed to the program's own name.
    Rename,
    /// The program is in place.
    Installed,
    /// The program could not be put in place.
    Unavailable,
}

/// The name of the worker's program.
pub const WORKER_FILE_NAME: &'static str = "translation-worker";

/// The step with which the extraction begins, given the size of the file that
/// is in place already: a file of the embedded program's size is kept.
pub fn materialize_embedded_worker(present_len: Option<u64>, embedded_len: u64) -> (step: InstallStep)
    ensures
        step == (if present_len == Some(embedded_len) {
            InstallStep::Installed
        } else {
            InstallStep::CreateDir
        }),
{
    match present_len {
        Some(len) => if len == embedded_len {
            InstallStep::Installed
        } else {
            InstallStep::CreateDir
        },
        None => InstallStep::CreateDir,
    }
}

impl InstallStep {
    /// The step that follows this one once it has succeeded or failed.
    pub open spec fn followed_by(self, succeeded: bool) -> InstallStep {
        match self {
            InstallStep::Installed => InstallStep::Installed,
            InstallStep::Unavailable => InstallStep::Unavailable,
            _ => if !succeeded {
                InstallStep::Unavailable
            } else {
                match self {
                    InstallStep::CreateDir => InstallStep::WriteFile,
                    InstallStep::WriteFile => InstallStep::SetMode,
                    InstallStep::SetMode => InstallStep::Rename,
                    _ => InstallStep::Installed,
                }
            },
        }
    }

    /// The step that follows this one once it has succeeded or failed.
    pub fn next(self, succeeded: bool) -> (step: InstallStep)
        ensures
            step == self.followed_by(succeeded),
    {
        match self {
            InstallStep::Installed => InstallStep::Installed,
            InstallStep::Unavailable => InstallStep::Unavailable,
            _ => if !succeeded {
                InstallStep::Unavailable
            } else {
                match self {
                    InstallStep::CreateDir => InstallStep::WriteFile,
                    InstallStep::WriteFile => InstallStep::SetMode,
                    InstallStep::SetMode => InstallStep::Rename,
                    _ => InstallStep::Installed,
                }
            },
        }
    }
}

/// An extraction that begins anew puts the program in place exactly where
/// creating the directory, writing, making executable and renaming all
/// succeed, in that order.
pub proof fn an_extraction_takes_every_step(created: bool, wrote: bool, moded: bool, renamed: bool)
    ensures
        InstallStep::CreateDir.followed_by(created).followed_by(wrote).followed_by(
            moded,
        ).followed_by(renamed) == (if created && wrote && moded && renamed {
            InstallStep::Installed
        } else {
            InstallStep::Unavailable
        }),
{
}

/// The name of the temporary file that the process `pid` extracts to.
pub fn temporary_worker_name(pid: u32) -> (name: String)
    ensures
        name@ == "translation-worker.tmp."@ + text::decimal(pid as nat),
{
    let mut name = "translation-worker.tmp.".to_owned();
    name.append(text::decimal_text(pid as u64).as_str());
    name
}

/// The path of `name` below the directory `base`; an absolute `name` stands
/// for itself.
pub open spec fn joined(base: Seq<char>, name: Seq<char>) -> Seq<char> {
    if name.len() > 0 && name[0] == '/' {
        name
    } else {
        base + "/"@ + name
    }
}

/// The directory that holds the assets of a pair of locales, below a user's
/// home directory.
pub open spec fn assets_dir(home: Seq<char>, from: Seq<char>, to: Seq<char>) -> Seq<char> {
    joined(home + "/Library/Translation/AssetsV3"@, from + "-"@ + to)
}

/// The directories that may hold the assets of a language pair: that of the
/// pair, and that of the reverse pair.
pub open spec fn assets_dirs(home: Seq<char>, src: Seq<char>, tgt: Seq<char>) -> Seq<Seq<char>> {
    seq![
        assets_dir(home, icu_locale(src), icu_locale(tgt)),
        assets_dir(home, icu_locale(tgt), icu_locale(src)),
    ]
}

/// The directory that holds the assets of a pair of locales.
fn assets_dir_of(home: &str, from: &str, to: &str) -> (dir: String)
    ensures
        dir@ == assets_dir(home@, from@, to@),
{
    let mut name = from.to_owned();
    name.append("-");
    name.append(to);
    if text::starts_with_char(name.as_str(), '/') {
        name
    } else {
        let mut dir = home.to_owned();
        dir.append("/Library/Translation/AssetsV3");
        dir.append("/");
        dir.append(name.as_str());
        dir
    }
}

/// The directories that may hold the assets of a language pair, in the order
/// in which they are preferred; none where the home directory is not known.
pub fn assets_dir_candidates(home: Option<String>, src: &str, tgt: &str) -> (dirs: Vec<String>)
    ensures
        text::texts_of(dirs@) == (match home {
            Some(h) => assets_dirs(h@, src@, tgt@),
            None => Seq::empty(),
        }),
        home is None ==> dirs@.len() == 0,
        home matches Some(h) ==> {
            &&& dirs@.len() == 2
            &&& dirs@[0]@ == assets_dir(h@, icu_locale(src@), icu_locale(tgt@))
            &&& dirs@[1]@ == assets_dir(h@, icu_locale(tgt@), icu_locale(src@))
        },
{
    let mut dirs: Vec<String> = Vec::new();
    match home {
        Some(home) => {
            let src_icu = normalize_locale(src);
            let tgt_icu = normalize_locale(tgt);
            dirs.push(assets_dir_of(home.as_str(), src_icu.as_str(), tgt_icu.as_str()));
            dirs.push(assets_dir_of(home.as_str(), tgt_icu.as_str(), src_icu.as_str()));
            assert(text::texts_of(dirs@) =~= assets_dirs(home@, src@, tgt@));
        },
        None => {
            assert(text::texts_of(dirs@) =~= Seq::empty());
        },
    }
    dirs
}

/// The first of some directories that is installed.
pub open spec fn first_installed(dirs: Seq<Seq<char>>, installed: Seq<bool>) -> Option<Seq<char>>
    decreases dirs.len(),
{
    if dirs.len() == 0 || installed.len() == 0 {
        None
    } else if installed[0] {
        Some(dirs[0])
    } else {
        first_installed(dirs.skip(1), installed.skip(1))
    }
}

/// Finds the directory of a language pair's assets: the first candidate that
/// is installed. `installed` says of each candidate whether it is; one of which
/// it says nothing is not.
pub fn find_assets_dir(candidates: Vec<String>, installed: &[bool]) -> (dir: Option<String>)
    ensures
        text::text_of(dir) == first_installed(text::texts_of(candidates@), installed@),
        match dir {
            Some(d) => exists|i: int|
                {
                    &&& 0 <= i < candidates@.len() && i < installed@.len()
                    &&& d@ == candidates@[i]@
                    &&& #[trigger] installed@[i]
                    &&& forall|j: int| 0 <= j < i ==> !#[trigger] installed@[j]
                },
            None => forall|i: int|
                0 <= i < candidates@.len() && i < installed@.len() ==> !#[trigger] installed@[i],
        },
{
    let mut i: usize = 0;
    let ghost dirs = text::texts_of(candidates@);
    assert(dirs.skip(0) =~= dirs);
    assert(installed@.skip(0) =~= installed@);
    while i < candidates.len() && i < installed.len()
        invariant
            i <= candidates@.len(),
            i <= installed@.len(),
            dirs == text::texts_of(candidates@),
            forall|j: int| 0 <= j < i ==> !#[trigger] installed@[j],
            first_installed(dirs, installed@) == first_installed(
                dirs.skip(i as int),
                installed@.skip(i as int),
            ),
        decreases candidates.len() - i,
    {
        assert(dirs.skip(i as int)[0] == candidates@[i as int]@);
        if installed[i] {
            return Some(candidates[i].clone());
        }
        assert(dirs.skip(i as int).skip(1) =~= dirs.skip(i + 1));
        assert(installed@.skip(i as int).skip(1) =~= installed@.skip(i + 1));
        i += 1;
    }
    None
}

/// A pair and its reverse share their assets: given which directories are
/// installed, one has assets exactly where the other has.
pub proof fn a_pair_and_its_reverse_share_assets(
    home: Seq<char>,
    src: Seq<char>,
    tgt: Seq<char>,
    installed: spec_fn(Seq<char>) -> bool,
)
    ensures
        assets_dirs(home, tgt, src) == assets_dirs(home, src, tgt).reverse(),
        first_installed(
            assets_dirs(home, src, tgt),
            assets_dirs(home, src, tgt).map_values(installed),
        ) is Some <==> first_installed(
            assets_dirs(home, tgt, src),
            assets_dirs(home, tgt, src).map_values(installed),
        ) is Some,
{
    reveal_with_fuel(first_installed, 3);
    assert(assets_dirs(home, tgt, src) =~= assets_dirs(home, src, tgt).reverse());
}

/// The subtags of a tag are parted by underscores where they were parted by
/// hyphens, and nothing else is changed.
pub proof fn only_hyphens_become_underscores(tag: Seq<char>, i: int)
    requires
        0 <= i < tag.len(),
    ensures
        underscored(tag).len() == tag.len(),
        tag[i] == '-' ==> underscored(tag)[i] == '_',
        tag[i] != '-' ==> underscored(tag)[i] == tag[i],
{
}

/// A tag without a locale of its own keeps its language: a locale stays as it
/// is, subtags are parted anew, and a bare language is followed by an
/// underscore and its upper case.
pub proof fn an_unlisted_tag_keeps_its_language(tag: Seq<char>, upper: Seq<char>, i: int)
    requires
        known_locale(tag) is None,
        0 <= i < tag.len(),
    ensures
        tag.contains('_') ==> locale_with(tag, upper) == tag,
        !tag.contains('_') && tag.contains('-') ==> locale_with(tag, upper).len() == tag.len(),
        !tag.contains('_') && !tag.contains('-') ==> locale_with(tag, upper) == tag + seq!['_']
            + upper,
        tag[i] != '-' ==> locale_with(tag, upper)[i] == tag[i],
        tag[i] == '-' && !tag.contains('_') ==> locale_with(tag, upper)[i] == '_',
{
    reveal_strlit("_");
    assert("_"@ =~= seq!['_']);
    if tag[i] == '-' {
        assert(tag.contains('-'));
    }
}

/// Where nothing has been set and the environment's value is a numeral of a
/// number from 1 to 32, there are as many engines; a larger number gives 32, and
/// zero, no numeral and no value give 1.
pub proof fn the_environment_is_given_the_engines_it_asks_for(n: nat, value: Seq<char>)
    ensures
        text::numeral(value) == Some(n) && 1 <= n <= 32 ==> engines_in_use(None, Some(value)) == n,
        text::numeral(value) == Some(n) && 32 < n <= usize::MAX ==> engines_in_use(
            None,
            Some(value),
        ) == 32,
        text::numeral(value) == Some(0nat) ==> engines_in_use(None, Some(value)) == 1,
        text::numeral(value) is None ==> engines_in_use(None, Some(value)) == 1,
        text::numeral(value) == Some(n) && n > usize::MAX ==> engines_in_use(None, Some(value))
            == 1,
        engines_in_use(None, None) == 1,
        1 <= n <= 32 ==> engines_in_use(None, Some(text::decimal(n))) == n,
        1 <= n <= 32 ==> engines_in_use(None, Some(seq!['+'] + text::decimal(n))) == n,
        n > 32 ==> clamped_engines(n) == 32,
        clamped_engines(0) == 1,
{
    text::decimal_is_a_numeral(n);
    text::a_numeral_is_made_of_digits(text::decimal(n));
    assert forall|i: int| 0 <= i < text::decimal(n).len() implies '0' <= #[trigger] text::decimal(
        n,
    )[i] <= '9' by {
        assert(text::is_digit(text::decimal(n)[i]));
    }
}

/// What has been set is what a worker is started with, whatever the
/// environment asks for.
pub proof fn what_was_set_prevails(n: nat, asked: Option<Seq<char>>)
    ensures
        engines_in_use(Some(n), asked) == n,
{
}

/// The file that the environment names comes before the embedded program, that
/// before the file beside the executable, and that before the one of a build;
/// each is taken only where those before it are not there.
pub proof fn the_candidates_are_tried_in_turn(there: spec_fn(BinCandidate) -> bool)
    ensures
        BinCandidate::EnvOverride.search(there) == (if there(BinCandidate::EnvOverride) {
            BinSearch::Found(BinCandidate::EnvOverride)
        } else if there(BinCandidate::Embedded) {
            BinSearch::Found(BinCandidate::Embedded)
        } else if there(BinCandidate::BesideExecutable) {
            BinSearch::Found(BinCandidate::BesideExecutable)
        } else if there(BinCandidate::Generated) {
            BinSearch::Found(BinCandidate::Generated)
        } else {
            BinSearch::Missing
        }),
        forall|c: BinCandidate| #[trigger] c.probed(true) == BinSearch::Found(c),
{
    reveal_with_fuel(BinCandidate::search, 5);
}

/// An extraction that has ended stays as it is, and one that fails has ended.
pub proof fn an_extraction_that_has_ended_stays(step: InstallStep, succeeded: bool)
    ensures
        InstallStep::Installed.followed_by(succeeded) == InstallStep::Installed,
        InstallStep::Unavailable.followed_by(succeeded) == InstallStep::Unavailable,
        step != InstallStep::Installed ==> step.followed_by(false) == InstallStep::Unavailable,
        step.followed_by(true) == InstallStep::Installed <==> step == InstallStep::Rename || step
            == InstallStep::Installed,
        step.followed_by(true) == InstallStep::Rename <==> step == InstallStep::SetMode,
        step.followed_by(true) == InstallStep::SetMode <==> step == InstallStep::WriteFile,
        step.followed_by(true) == InstallStep::WriteFile <==> step == InstallStep::CreateDir,
{
}

/// The assets of a pair of locales are in the directory that is named by the
/// first, a hyphen and the second, below the framework's own in the home
/// directory. A name that is a path from the root stands for itself.
pub proof fn assets_are_named_by_their_locales(home: Seq<char>, from: Seq<char>, to: Seq<char>)
    ensures
        from.len() > 0 && from[0] != '/' ==> assets_dir(home, from, to) == home
            + "/Library/Translation/AssetsV3"@ + seq!['/'] + from + seq!['-'] + to,
        from.len() > 0 && from[0] == '/' ==> assets_dir(home, from, to) == from + seq!['-'] + to,
{
    reveal_strlit("/");
    reveal_strlit("-");
    assert("/"@ =~= seq!['/']);
    assert("-"@ =~= seq!['-']);
    let name = from + "-"@ + to;
    if from.len() > 0 {
        assert(name[0] == from[0]);
        assert(joined(home + "/Library/Translation/AssetsV3"@, name) == assets_dir(home, from, to));
        if from[0] != '/' {
            assert(assets_dir(home, from, to) =~= home + "/Library/Translation/AssetsV3"@ + seq!['/']
                + from + seq!['-'] + to);
        }
    }
}

/// A pair's own directory is looked for before that of the reverse pair, and
/// there are no others.
pub proof fn a_pair_is_preferred_to_its_reverse(home: Seq<char>, src: Seq<char>, tgt: Seq<char>)
    ensures
        assets_dirs(home, src, tgt).len() == 2,
        assets_dirs(home, src, tgt)[0] == assets_dir(home, icu_locale(src), icu_locale(tgt)),
        assets_dirs(home, src, tgt)[1] == assets_dir(home, icu_locale(tgt), icu_locale(src)),
{
}

/// The directory that is found is installed and none before it is; and none is
/// found only where none is installed.
pub proof fn the_first_installed_directory_is_found(
    dirs: Seq<Seq<char>>,
    installed: Seq<bool>,
    i: int,
)
    ensures
        0 <= i < dirs.len() && i < installed.len() && installed[i] && (forall|j: int|
            0 <= j < i ==> !#[trigger] installed[j]) ==> first_installed(dirs, installed) == Some(
            dirs[i],
        ),
        (forall|j: int| 0 <= j < dirs.len() && j < installed.len() ==> !#[trigger] installed[j])
            <==> first_installed(dirs, installed) is None,
    decreases dirs.len(),
{
    if dirs.len() > 0 && installed.len() > 0 {
        let later = installed.skip(1);
        the_first_installed_directory_is_found(dirs.skip(1), later, i - 1);
        if !installed[0] {
            if 0 <= i < dirs.len() && i < installed.len() && installed[i] && (forall|j: int|
                0 <= j < i ==> !#[trigger] installed[j]) {
                assert(later[i - 1] == installed[i]);
                assert forall|j: int| 0 <= j < i - 1 implies !#[trigger] later[j] by {
                    assert(later[j] == installed[j + 1]);
                }
            }
            if first_installed(dirs, installed) is None {
                assert forall|j: int| 0 <= j < dirs.len() && j < installed.len() implies !#[trigger] installed[j] by {
                    if j > 0 {
                        assert(later[j - 1] == installed[j]);
                    }
                }
            }
            if forall|j: int| 0 <= j < dirs.len() && j < installed.len() ==> !#[trigger] installed[j] {
                assert forall|j: int| 0 <= j < dirs.skip(1).len() && j < later.len() implies !#[trigger] later[j] by {
                    assert(later[j] == installed[j + 1]);
                }
            }
        }
    }
}

/// These tags have a locale of their own, and no others.
pub proof fn the_listed_tags(tag: Seq<char>)
    ensures
        known_locale(tag) is Some <==> {
            ||| tag == "zh-Hans"@
            ||| tag == "zh-Hant"@
            ||| tag == "zh-HK"@
            ||| tag == "en"@
            ||| tag == "en-US"@
            ||| tag == "en-GB"@
            ||| tag == "ja"@
            ||| tag == "ja-JP"@
            ||| tag == "ko"@
            ||| tag == "ko-KR"@
            ||| tag == "fr"@
            ||| tag == "fr-FR"@
            ||| tag == "de"@
            ||| tag == "de-DE"@
            ||| tag == "es"@
            ||| tag == "es-ES"@
            ||| tag == "pt"@
            ||| tag == "pt-BR"@
            ||| tag == "it"@
            ||| tag == "it-IT"@
            ||| tag == "ru"@
            ||| tag == "ru-RU"@
            ||| tag == "vi"@
            ||| tag == "vi-VN"@
            ||| tag == "th"@
            ||| tag == "th-TH"@
            ||| tag == "tr"@
            ||| tag == "tr-TR"@
            ||| tag == "ar"@
            ||| tag == "ar-AE"@
            ||| tag == "hi"@
            ||| tag == "hi-IN"@
            ||| tag == "id"@
            ||| tag == "id-ID"@
            ||| tag == "uk"@
            ||| tag == "uk-UA"@
            ||| tag == "pl"@
            ||| tag == "pl-PL"@
            ||| tag == "nl"@
            ||| tag == "nl-NL"@
        },
{
}

/// A listed locale is the tag's language, an underscore and a region. The
/// region is the tag's own where it has one.
pub proof fn a_listed_locale_is_of_the_tags_language(tag: Seq<char>)
    requires
        known_locale(tag) is Some,
    ensures
        tag.len() >= 2,
        known_locale(tag)->0.len() == 5,
        known_locale(tag)->0[0] == tag[0],
        known_locale(tag)->0[1] == tag[1],
        known_locale(tag)->0[2] == '_',
        tag.len() == 5 ==> tag[2] == '-' && known_locale(tag)->0[3] == tag[3] && known_locale(
            tag,
        )->0[4] == tag[4],
{
    reveal_strlit("zh-Hans");
    reveal_strlit("zh-Hant");
    reveal_strlit("zh-HK");
    reveal_strlit("en");
    reveal_strlit("en-US");
    reveal_strlit("en-GB");
    reveal_strlit("ja");
    reveal_strlit("ja-JP");
    reveal_strlit("ko");
    reveal_strlit("ko-KR");
    reveal_strlit("fr");
    reveal_strlit("fr-FR");
    reveal_strlit("de");
    reveal_strlit("de-DE");
    reveal_strlit("es");
    reveal_strlit("es-ES");
    reveal_strlit("pt");
    reveal_strlit("pt-BR");
    reveal_strlit("it");
    reveal_strlit("it-IT");
    reveal_strlit("ru");
    reveal_strlit("ru-RU");
    reveal_strlit("vi");
    reveal_strlit("vi-VN");
    reveal_strlit("th");
    reveal_strlit("th-TH");
    reveal_strlit("tr");
    reveal_strlit("tr-TR");
    reveal_strlit("ar");
    reveal_strlit("ar-AE");
    reveal_strlit("hi");
    reveal_strlit("hi-IN");
    reveal_strlit("id");
    reveal_strlit("id-ID");
    reveal_strlit("uk");
    reveal_strlit("uk-UA");
    reveal_strlit("pl");
    reveal_strlit("pl-PL");
    reveal_strlit("nl");
    reveal_strlit("nl-NL");
    reveal_strlit("zh_CN");
    reveal_strlit("zh_TW");
    reveal_strlit("zh_HK");
    reveal_strlit("en_US");
    reveal_strlit("en_GB");
    reveal_strlit("ja_JP");
    reveal_strlit("ko_KR");
    reveal_strlit("fr_FR");
    reveal_strlit("de_DE");
    reveal_strlit("es_ES");
    reveal_strlit("pt_BR");
    reveal_strlit("it_IT");
    reveal_strlit("ru_RU");
    reveal_strlit("vi_VN");
    reveal_strlit("th_TH");
    reveal_strlit("tr_TR");
    reveal_strlit("ar_AE");
    reveal_strlit("hi_IN");
    reveal_strlit("id_ID");
    reveal_strlit("uk_UA");
    reveal_strlit("pl_PL");
    reveal_strlit("nl_NL");
}

} // verus!
