//! The command line that translates one text: its arguments, and what it says
//! of each outcome.
use crate::error::TranslationError;
use crate::request::TranslationResponse;
use crate::text;
use crate::translator;
use vstd::prelude::*;

verus! {

/// What the arguments ask for.
#[derive(Debug, PartialEq, Eq)]
pub enum CliCommand {
    /// Translate a text, or the standard input where none is given, from a
    /// language, detected where none is given, to another.
    Translate { from: Option<String>, to: String, text: Option<String> },
    /// Say how models are installed.
    InstallHelp,
    /// Say how the command is used.
    Usage,
    /// Nothing: the arguments are refused, with this message.
    Refused(String),
}

/// What [`CliCommand`] stands for.
pub enum CommandModel {
    Translate { from: Option<Seq<char>>, to: Seq<char>, text: Option<Seq<char>> },
    InstallHelp,
    Usage,
    Refused(Seq<char>),
}

impl View for CliCommand {
    type V = CommandModel;

    open spec fn view(&self) -> CommandModel {
        match self {
            CliCommand::Translate { from, to, text } => CommandModel::Translate {
                from: text::text_of(*from),
                to: to@,
                text: text::text_of(*text),
            },
            CliCommand::InstallHelp => CommandModel::InstallHelp,
            CliCommand::Usage => CommandModel::Usage,
            CliCommand::Refused(message) => CommandModel::Refused(message@),
        }
    }
}

/// What the arguments read so far ask for.
pub struct Wishes {
    pub from: Option<Seq<char>>,
    pub to: Seq<char>,
    pub text: Option<Seq<char>>,
}

/// What no arguments at all ask for.
pub open spec fn no_wishes() -> Wishes {
    Wishes { from: None, to: "en"@, text: None }
}

/// Whether an argument names the source language that follows it.
pub open spec fn is_from(arg: Seq<char>) -> bool {
    arg == "-f"@ || arg == "--from"@
}

/// Whether an argument names the target language that follows it.
pub open spec fn is_to(arg: Seq<char>) -> bool {
    arg == "-t"@ || arg == "--to"@
}

/// Whether an argument is a flag and not a word of the text.
pub open spec fn is_flag(arg: Seq<char>) -> bool {
    arg.len() > 0 && arg[0] == '-'
}

/// A text with one more word. Words are parted by a blank, but for those
/// behind an empty text.
pub open spec fn with_word(text: Option<Seq<char>>, word: Seq<char>) -> Option<Seq<char>> {
    match text {
        Some(t) => if t.len() > 0 {
            Some(t + " "@ + word)
        } else {
            Some(word)
        },
        None => Some(word),
    }
}

/// What some arguments ask for, behind those that asked for `wishes`.
pub open spec fn command(args: Seq<Seq<char>>, wishes: Wishes) -> CommandModel
    decreases args.len(),
{
    if args.len() == 0 {
        CommandModel::Translate { from: wishes.from, to: wishes.to, text: wishes.text }
    } else if is_from(args[0]) {
        if args.len() == 1 {
            CommandModel::Refused("error: --from requires a language code"@)
        } else {
            command(args.skip(2), Wishes { from: Some(args[1]), ..wishes })
        }
    } else if is_to(args[0]) {
        if args.len() == 1 {
            CommandModel::Refused("error: --to requires a language code"@)
        } else {
            command(args.skip(2), Wishes { to: args[1], ..wishes })
        }
    } else if args[0] == "--install"@ || args[0] == "--download"@ {
        CommandModel::InstallHelp
    } else if args[0] == "-h"@ || args[0] == "--help"@ {
        CommandModel::Usage
    } else if is_flag(args[0]) {
        CommandModel::Refused("error: unknown flag: "@ + args[0])
    } else {
        command(args.skip(1), Wishes { text: with_word(wishes.text, args[0]), ..wishes })
    }
}

/// Adds a word to a text.
fn add_word(text: Option<String>, word: &str) -> (longer: Option<String>)
    ensures
        text::text_of(longer) == with_word(text::text_of(text), word@),
{
    match text {
        Some(mut t) => {
            if !t.as_str().is_empty() {
                t.append(" ");
                t.append(word);
                Some(t)
            } else {
                Some(word.to_owned())
            }
        },
        None => Some(word.to_owned()),
    }
}

/// Reads the arguments, the program's own name not among them.
pub fn parse_args(args: &[String]) -> (parsed: CliCommand)
    ensures
        parsed@ == command(text::texts_of(args@), no_wishes()),
{
    let mut from: Option<String> = None;
    let mut to: String = "en".to_owned();
    let mut text: Option<String> = None;
    let mut i: usize = 0;
    let ghost all = text::texts_of(args@);
    assert(all.skip(0) =~= all);
    while i < args.len()
        invariant
            i <= args@.len(),
            all == text::texts_of(args@),
            command(all, no_wishes()) == command(
                all.skip(i as int),
                Wishes { from: text::text_of(from), to: to@, text: text::text_of(text) },
            ),
        decreases args.len() - i,
    {
        let arg = args[i].as_str();
        let ghost rest = all.skip(i as int);
        assert(rest[0] == arg@);
        assert(rest.skip(1) =~= all.skip(i + 1));
        if text::same_text(arg, "-f") || text::same_text(arg, "--from") {
            if i + 1 >= args.len() {
                return CliCommand::Refused("error: --from requires a language code".to_owned());
            }
            assert(rest[1] == args@[i + 1]@);
            assert(rest.skip(2) =~= all.skip(i + 2));
            from = Some(args[i + 1].clone());
            i += 2;
        } else if text::same_text(arg, "-t") || text::same_text(arg, "--to") {
            if i + 1 >= args.len() {
                return CliCommand::Refused("error: --to requires a language code".to_owned());
            }
            assert(rest[1] == args@[i + 1]@);
            assert(rest.skip(2) =~= all.skip(i + 2));
            to = args[i + 1].clone();
            i += 2;
        } else if text::same_text(arg, "--install") || text::same_text(arg, "--download") {
            return CliCommand::InstallHelp;
        } else if text::same_text(arg, "-h") || text::same_text(arg, "--help") {
            return CliCommand::Usage;
        } else if text::starts_with_char(arg, '-') {
            let mut message = "error: unknown flag: ".to_owned();
            message.append(arg);
            return CliCommand::Refused(message);
        } else {
            text = add_word(text, arg);
            i += 1;
        }
    }
    CliCommand::Translate { from, to, text }
}

/// Words parted by blanks.
pub open spec fn sentence(words: Seq<Seq<char>>) -> Seq<char>
    decreases words.len(),
{
    if words.len() <= 1 {
        if words.len() == 0 {
            Seq::empty()
        } else {
            words[0]
        }
    } else {
        sentence(words.drop_last()) + " "@ + words.last()
    }
}

/// Words behind those that asked for `wishes` add to its text and to nothing
/// else.
proof fn words_add_to_the_text(words: Seq<Seq<char>>, more: Seq<Seq<char>>)
    requires
        words.len() > 0,
        forall|i: int| 0 <= i < words.len() ==> (#[trigger] words[i]).len() > 0,
        forall|i: int|
            0 <= i < more.len() ==> (#[trigger] more[i]).len() > 0 && !is_flag(more[i]),
    ensures
        command(more, Wishes { text: Some(sentence(words)), ..no_wishes() })
            == (CommandModel::Translate {
            from: None,
            to: "en"@,
            text: Some(sentence(words + more)),
        }),
    decreases more.len(),
{
    sentence_is_not_empty(words);
    if more.len() == 0 {
        assert(words + more =~= words);
    } else {
        words_are_no_flags(more[0]);
        let longer = words.push(more[0]);
        assert(longer.drop_last() =~= words);
        assert(sentence(longer) == sentence(words) + " "@ + more[0]);
        assert forall|i: int| 0 <= i < longer.len() implies (#[trigger] longer[i]).len() > 0 by {}
        assert forall|i: int| 0 <= i < more.skip(1).len() implies (#[trigger] more.skip(1)[i]).len()
            > 0 && !is_flag(more.skip(1)[i]) by {
            assert(more.skip(1)[i] == more[i + 1]);
        }
        words_add_to_the_text(longer, more.skip(1));
        assert(longer + more.skip(1) =~= words + more);
    }
}

/// Words that are not empty make a text that is not empty.
proof fn sentence_is_not_empty(words: Seq<Seq<char>>)
    requires
        words.len() > 0,
        words[0].len() > 0,
    ensures
        sentence(words).len() > 0,
    decreases words.len(),
{
    if words.len() > 1 {
        sentence_is_not_empty(words.drop_last());
    }
}

/// An argument that does not begin with a hyphen is none of the options.
proof fn words_are_no_flags(arg: Seq<char>)
    requires
        !is_flag(arg),
    ensures
        !is_from(arg),
        !is_to(arg),
        arg != "--install"@,
        arg != "--download"@,
        arg != "-h"@,
        arg != "--help"@,
{
    reveal_strlit("-f");
    reveal_strlit("--from");
    reveal_strlit("-t");
    reveal_strlit("--to");
    reveal_strlit("--install");
    reveal_strlit("--download");
    reveal_strlit("-h");
    reveal_strlit("--help");
}

/// Words and no options ask for the words, parted by blanks, to be translated
/// into English from a language that is to be detected.
pub proof fn words_are_translated_into_english(words: Seq<Seq<char>>)
    requires
        words.len() > 0,
        forall|i: int|
            0 <= i < words.len() ==> (#[trigger] words[i]).len() > 0 && !is_flag(words[i]),
    ensures
        command(words, no_wishes()) == (CommandModel::Translate {
            from: None,
            to: "en"@,
            text: Some(sentence(words)),
        }),
{
    let first = seq![words[0]];
    words_are_no_flags(words[0]);
    assert(sentence(first) == words[0]);
    assert forall|i: int| 0 <= i < words.skip(1).len() implies (#[trigger] words.skip(1)[i]).len()
        > 0 && !is_flag(words.skip(1)[i]) by {
        assert(words.skip(1)[i] == words[i + 1]);
    }
    words_add_to_the_text(first, words.skip(1));
    assert(first + words.skip(1) =~= words);
}

/// Arguments that ask for a translation can be followed by more, which are
/// read as if what the first asked for had been asked for at the start.
pub proof fn arguments_are_read_in_turn(
    args: Seq<Seq<char>>,
    more: Seq<Seq<char>>,
    wishes: Wishes,
    from: Option<Seq<char>>,
    to: Seq<char>,
    text: Option<Seq<char>>,
)
    requires
        command(args, wishes) == (CommandModel::Translate { from, to, text }),
    ensures
        command(args + more, wishes) == command(more, Wishes { from, to, text }),
    decreases args.len(),
{
    if args.len() == 0 {
        assert(args + more =~= more);
    } else {
        assert((args + more)[0] == args[0]);
        if is_from(args[0]) {
            assert((args + more)[1] == args[1]);
            assert((args + more).skip(2) =~= args.skip(2) + more);
            arguments_are_read_in_turn(
                args.skip(2),
                more,
                Wishes { from: Some(args[1]), ..wishes },
                from,
                to,
                text,
            );
        } else if is_to(args[0]) {
            assert((args + more)[1] == args[1]);
            assert((args + more).skip(2) =~= args.skip(2) + more);
            arguments_are_read_in_turn(
                args.skip(2),
                more,
                Wishes { to: args[1], ..wishes },
                from,
                to,
                text,
            );
        } else {
            assert((args + more).skip(1) =~= args.skip(1) + more);
            arguments_are_read_in_turn(
                args.skip(1),
                more,
                Wishes { text: with_word(wishes.text, args[0]), ..wishes },
                from,
                to,
                text,
            );
        }
    }
}

/// Of several target languages, and of several source languages, the last one
/// is meant.
pub proof fn the_last_language_is_meant(
    args: Seq<Seq<char>>,
    option: Seq<char>,
    language: Seq<char>,
    from: Option<Seq<char>>,
    to: Seq<char>,
    text: Option<Seq<char>>,
)
    requires
        command(args, no_wishes()) == (CommandModel::Translate { from, to, text }),
    ensures
        option == "-t"@ || option == "--to"@ ==> command(args + seq![option, language], no_wishes())
            == (CommandModel::Translate { from, to: language, text }),
        option == "-f"@ || option == "--from"@ ==> command(args + seq![option, language], no_wishes())
            == (CommandModel::Translate { from: Some(language), to, text }),
{
    reveal_with_fuel(command, 2);
    let named = seq![option, language];
    arguments_are_read_in_turn(args, named, no_wishes(), from, to, text);
    assert(named.skip(2) =~= Seq::empty());
    reveal_strlit("--to");
    reveal_strlit("-t");
    reveal_strlit("--from");
    reveal_strlit("-f");
    assert(is_to(option) ==> option[option.len() - 1] != 'm' && option[option.len() - 1] != 'f');
}

/// The text to translate, from what the standard input held; `None` where
/// nothing is left of it without the white space at its end.
pub fn text_from_stdin(stdin_text: &str) -> (text: Option<String>)
    ensures
        text::text_of(text) == (if text::trimmed_end(stdin_text@).len() == 0 {
            None
        } else {
            Some(text::trimmed_end(stdin_text@))
        }),
        match text {
            Some(t) => {
                &&& 0 < t@.len() <= stdin_text@.len()
                &&& forall|i: int| 0 <= i < t@.len() ==> t@[i] == #[trigger] stdin_text@[i]
                &&& forall|i: int|
                    t@.len() <= i < stdin_text@.len() ==> text::white_space(
                        #[trigger] stdin_text@[i],
                    )
                &&& !text::white_space(t@.last())
            },
            None => forall|i: int|
                0 <= i < stdin_text@.len() ==> text::white_space(#[trigger] stdin_text@[i]),
        },
{
    let trimmed = text::trim_end(stdin_text);
    if trimmed.is_empty() {
        None
    } else {
        Some(trimmed.to_owned())
    }
}

/// Why the command gives up: a message, and whether it goes on to say how
/// models are installed.
#[derive(Debug, PartialEq, Eq)]
pub struct CliFailure {
    pub message: String,
    pub install_help: bool,
}

/// Why the command gives up where no translator could be had.
pub fn translator_failure(error: &TranslationError, from: &str, to: &str) -> (failure: CliFailure)
    ensures
        match error {
            TranslationError::LanguageNotInstalled { .. }
            | TranslationError::LanguageUnsupported { .. } => {
                &&& failure.message@ == "error: language pair not available: "@ + from@ + " -> "@
                    + to@
                &&& failure.install_help
            },
            _ => {
                &&& failure.message@ == "error: "@ + error@.message()
                &&& !failure.install_help
            },
        },
{
    match error {
        TranslationError::LanguageNotInstalled { .. }
        | TranslationError::LanguageUnsupported { .. } => {
            let mut message = "error: language pair not available: ".to_owned();
            message.append(from);
            message.append(" -> ");
            message.append(to);
            CliFailure { message, install_help: true }
        },
        _ => {
            let mut message = "error: ".to_owned();
            message.append(error.to_string().as_str());
            CliFailure { message, install_help: false }
        },
    }
}

/// What the command prints for the result of the translation: the translated
/// text, or a message of why there is none.
pub fn printed(result: Result<TranslationResponse, TranslationError>) -> (output: Result<
    String,
    String,
>)
    ensures
        match translator::result_model(result) {
            Ok(response) => output matches Ok(line) && line@ == response.target_text,
            Err(e) => output matches Err(message) && message@ == "error: "@ + e.message(),
        },
{
    match result {
        Ok(response) => Ok(response.target_text),
        Err(e) => {
            let mut message = "error: ".to_owned();
            message.append(e.to_string().as_str());
            Err(message)
        },
    }
}

/// What the command says of the source language that was detected: the
/// language and a note of it, or the lines of why there is none.
pub fn detected_source(reply: Option<String>) -> (source: Result<(String, String), Vec<String>>)
    ensures
        match reply {
            Some(language) => source matches Ok((from, note)) && from == language && note@
                == "[detected source: "@ + language@ + "]"@,
            None => source matches Err(lines) && text::texts_of(lines@) == seq![
                "error: could not auto-detect source language"@,
                "  Hint: specify the source language with --from LANG"@,
            ],
        },
{
    match translator::detect_language(reply) {
        Some(language) => {
            let mut note = "[detected source: ".to_owned();
            note.append(language.as_str());
            note.append("]");
            Ok((language, note))
        },
        None => {
            let mut lines: Vec<String> = Vec::new();
            lines.push("error: could not auto-detect source language".to_owned());
            lines.push("  Hint: specify the source language with --from LANG".to_owned());
            assert(text::texts_of(lines@) =~= seq![
                "error: could not auto-detect source language"@,
                "  Hint: specify the source language with --from LANG"@,
            ]);
            Err(lines)
        },
    }
}

/// No arguments at all ask for the standard input to be translated into English
/// from a language that is to be detected.
pub proof fn no_arguments_ask_for_the_standard_input()
    ensures
        command(Seq::empty(), no_wishes()) == (CommandModel::Translate {
            from: None,
            to: "en"@,
            text: None,
        }),
{
}

/// Whatever came before, languages that were named among it, a word is added to
/// the text behind a blank, or is the text where there is none yet; and it
/// changes neither language.
pub proof fn a_word_is_added_to_the_text(
    args: Seq<Seq<char>>,
    word: Seq<char>,
    from: Option<Seq<char>>,
    to: Seq<char>,
    text: Option<Seq<char>>,
)
    requires
        command(args, no_wishes()) == (CommandModel::Translate { from, to, text }),
        word.len() == 0 || word[0] != '-',
    ensures
        text is Some && text->0.len() > 0 ==> command(args + seq![word], no_wishes())
            == (CommandModel::Translate { from, to, text: Some(text->0 + seq![' '] + word) }),
        text is None || text->0.len() == 0 ==> command(args + seq![word], no_wishes())
            == (CommandModel::Translate { from, to, text: Some(word) }),
{
    reveal_with_fuel(command, 2);
    let one = seq![word];
    arguments_are_read_in_turn(args, one, no_wishes(), from, to, text);
    words_are_no_flags(word);
    assert(one.skip(1) =~= Seq::empty());
    reveal_strlit(" ");
    assert(" "@ =~= seq![' ']);
}

/// Help is given as soon as it is asked for, and an argument that begins with a
/// hyphen and is none of the options is refused, whatever follows; and an option
/// that names a language is refused where none follows.
pub proof fn a_flag_ends_the_reading(
    args: Seq<Seq<char>>,
    flag: Seq<char>,
    more: Seq<Seq<char>>,
    from: Option<Seq<char>>,
    to: Seq<char>,
    text: Option<Seq<char>>,
)
    requires
        command(args, no_wishes()) == (CommandModel::Translate { from, to, text }),
        flag.len() > 0 && flag[0] == '-',
    ensures
        flag == "-h"@ || flag == "--help"@ ==> command(args + (seq![flag] + more), no_wishes())
            == CommandModel::Usage,
        flag == "--install"@ || flag == "--download"@ ==> command(
            args + (seq![flag] + more),
            no_wishes(),
        ) == CommandModel::InstallHelp,
        flag == "-f"@ || flag == "--from"@ ==> command(args + seq![flag], no_wishes())
            == CommandModel::Refused("error: --from requires a language code"@),
        flag == "-t"@ || flag == "--to"@ ==> command(args + seq![flag], no_wishes())
            == CommandModel::Refused("error: --to requires a language code"@),
        flag != "-h"@ && flag != "--help"@ && flag != "--install"@ && flag != "--download"@ && flag
            != "-f"@ && flag != "--from"@ && flag != "-t"@ && flag != "--to"@ ==> command(
            args + (seq![flag] + more),
            no_wishes(),
        ) == CommandModel::Refused("error: unknown flag: "@ + flag),
{
    let rest = seq![flag] + more;
    assert(rest[0] == flag);
    arguments_are_read_in_turn(args, rest, no_wishes(), from, to, text);
    arguments_are_read_in_turn(args, seq![flag], no_wishes(), from, to, text);
    reveal_strlit("-h");
    reveal_strlit("--help");
    reveal_strlit("--install");
    reveal_strlit("--download");
    reveal_strlit("-f");
    reveal_strlit("--from");
    reveal_strlit("-t");
    reveal_strlit("--to");
    if flag == "-h"@ || flag == "--help"@ {
        assert(flag[flag.len() - 1] == 'h' || flag[flag.len() - 1] == 'p');
    }
    if flag == "--install"@ || flag == "--download"@ {
        assert(flag.len() > 8);
    }
    if flag == "-t"@ || flag == "--to"@ {
        assert(flag[flag.len() - 1] == 't' || flag[flag.len() - 1] == 'o');
    }
}

/// The words among some arguments: all of them but the options and the
/// languages behind those.
pub open spec fn words_among(args: Seq<Seq<char>>) -> Seq<Seq<char>>
    decreases args.len(),
{
    if args.len() == 0 {
        Seq::empty()
    } else if args[0] == "-f"@ || args[0] == "--from"@ || args[0] == "-t"@ || args[0] == "--to"@ {
        if args.len() == 1 {
            Seq::empty()
        } else {
            words_among(args.skip(2))
        }
    } else {
        seq![args[0]] + words_among(args.skip(1))
    }
}

/// The words among arguments that stand one behind the other are those among
/// the first and those among the rest; a word is one, and a language that is
/// named is none.
pub proof fn the_words_among_arguments(words: Seq<Seq<char>>, args: Seq<Seq<char>>, language: Seq<char>)
    requires
        forall|i: int|
            0 <= i < words.len() ==> (#[trigger] words[i]).len() == 0 || words[i][0] != '-',
    ensures
        words_among(words + args) == words + words_among(args),
        words_among(seq!["--to"@, language] + args) == words_among(args),
        words_among(seq!["-t"@, language] + args) == words_among(args),
        words_among(seq!["--from"@, language] + args) == words_among(args),
        words_among(seq!["-f"@, language] + args) == words_among(args),
    decreases words.len(),
{
    assert((seq!["--to"@, language] + args).skip(2) =~= args);
    assert((seq!["-t"@, language] + args).skip(2) =~= args);
    assert((seq!["--from"@, language] + args).skip(2) =~= args);
    assert((seq!["-f"@, language] + args).skip(2) =~= args);
    if words.len() == 0 {
        assert(words + args =~= args);
        assert(words + words_among(args) =~= words_among(args));
    } else {
        words_are_no_flags(words[0]);
        assert((words + args)[0] == words[0]);
        assert((words + args).skip(1) =~= words.skip(1) + args);
        assert forall|i: int| 0 <= i < words.skip(1).len() implies (#[trigger] words.skip(1)[i]).len()
            == 0 || words.skip(1)[i][0] != '-' by {
            assert(words.skip(1)[i] == words[i + 1]);
        }
        the_words_among_arguments(words.skip(1), args, language);
        assert(words_among(words + args) =~= words + words_among(args));
    }
}

/// One word is a sentence, and a sentence with a blank and a word is one.
pub proof fn a_sentence_grows_by_a_word(words: Seq<Seq<char>>, word: Seq<char>)
    ensures
        sentence(seq![word]) == word,
        words.len() > 0 ==> sentence(words + seq![word]) == sentence(words) + seq![' '] + word,
{
    reveal_strlit(" ");
    assert(" "@ =~= seq![' ']);
    let longer = words + seq![word];
    assert(longer.drop_last() =~= words);
    assert(longer.last() == word);
}

/// Words among arguments are added to the words before them.
proof fn words_are_added_in_turn(
    args: Seq<Seq<char>>,
    wishes: Wishes,
    before: Seq<Seq<char>>,
    from: Option<Seq<char>>,
    to: Seq<char>,
    text: Option<Seq<char>>,
)
    requires
        command(args, wishes) == (CommandModel::Translate { from, to, text }),
        wishes.text == (if before.len() == 0 {
            None
        } else {
            Some(sentence(before))
        }),
        forall|i: int| 0 <= i < before.len() ==> (#[trigger] before[i]).len() > 0,
        forall|i: int|
            0 <= i < words_among(args).len() ==> (#[trigger] words_among(args)[i]).len() > 0,
    ensures
        text == (if before.len() + words_among(args).len() == 0 {
            None
        } else {
            Some(sentence(before + words_among(args)))
        }),
    decreases args.len(),
{
    let words = words_among(args);
    if args.len() == 0 {
        assert(before + words =~= before);
    } else if is_from(args[0]) {
        words_are_added_in_turn(
            args.skip(2),
            Wishes { from: Some(args[1]), ..wishes },
            before,
            from,
            to,
            text,
        );
    } else if is_to(args[0]) {
        words_are_added_in_turn(
            args.skip(2),
            Wishes { to: args[1], ..wishes },
            before,
            from,
            to,
            text,
        );
    } else {
        let word = args[0];
        let later = words_among(args.skip(1));
        assert(words[0] == word);
        assert(word.len() > 0);
        let longer = before + seq![word];
        a_sentence_grows_by_a_word(before, word);
        reveal_strlit(" ");
        assert(" "@ =~= seq![' ']);
        if before.len() == 0 {
            assert(longer =~= seq![word]);
        } else {
            sentence_is_not_empty(before);
        }
        assert forall|i: int| 0 <= i < longer.len() implies (#[trigger] longer[i]).len() > 0 by {
            if i < before.len() {
                assert(before[i].len() > 0);
            }
        }
        assert forall|i: int| 0 <= i < later.len() implies (#[trigger] later[i]).len() > 0 by {
            assert(words[i + 1] == later[i]);
        }
        words_are_added_in_turn(
            args.skip(1),
            Wishes { text: with_word(wishes.text, word), ..wishes },
            longer,
            from,
            to,
            text,
        );
        assert(longer + later =~= before + words);
    }
}

/// The text that arguments ask for is all the words among them, in order and
/// parted by blanks, whatever languages are named before, between and behind
/// the words. Without a word there is no text.
pub proof fn the_text_is_all_the_words(
    args: Seq<Seq<char>>,
    from: Option<Seq<char>>,
    to: Seq<char>,
    text: Option<Seq<char>>,
)
    requires
        command(args, no_wishes()) == (CommandModel::Translate { from, to, text }),
        forall|i: int|
            0 <= i < words_among(args).len() ==> (#[trigger] words_among(args)[i]).len() > 0,
    ensures
        words_among(args).len() == 0 ==> text is None,
        words_among(args).len() > 0 ==> text == Some(sentence(words_among(args))),
{
    words_are_added_in_turn(args, no_wishes(), Seq::empty(), from, to, text);
    assert(Seq::<Seq<char>>::empty() + words_among(args) =~= words_among(args));
}

/// A command stands for what it holds.
pub proof fn a_command_asks_for_what_it_holds(parsed: CliCommand)
    ensures
        match parsed {
            CliCommand::Translate { from, to, text } => {
                &&& parsed@ is Translate
                &&& parsed@->to == to@
                &&& parsed@->from is Some <==> from is Some
                &&& from is Some ==> parsed@->from->0 == from->0@
                &&& parsed@->text is Some <==> text is Some
                &&& text is Some ==> parsed@->text->0 == text->0@
            },
            CliCommand::InstallHelp => parsed@ is InstallHelp,
            CliCommand::Usage => parsed@ is Usage,
            CliCommand::Refused(message) => parsed@ == CommandModel::Refused(message@),
        },
{
}

} // verus!
