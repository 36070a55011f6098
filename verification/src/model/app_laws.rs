//! What holds of every command line, every desktop entry and every choice of
//! an application.
use crate::model::apps::{
    AppItem, AppItemView, AppsView, DesktopEntryView, DesktopFile, MimeAppsView, args_of,
    command_lines, config_chain, data_chain, default_app, desktop_entry, dir_files, entry_id,
    entry_with, first_installed, group_map, group_value, in_group, is_menu, is_offered, is_true,
    is_vetoed, lightly_escaped, list_items, listed_ids, merged_lists, merged_upto, mime_file,
    name_keys, named_items, names, nested_files, offered, offered_upto, sides, spawns_of,
    terminal_of, unescaped_word, uri_of, with_ids, word_args, words_from, words_of,
};
use crate::order::{bytes_less, is_order, ordered, ordered_lists_ascend};
use crate::path::{file_name_of, joined, name_extension};
use crate::text::{
    cuts_are_at_the_first, decoded, find_props, is_space, lines, shown, split, trimmed,
};
use vstd::prelude::*;
use vstd::utf8::*;

verus! {

// ---------------------------------------------------------------------------
// The fields of a command
// ---------------------------------------------------------------------------

/// Whether a word is a field that takes files.
pub open spec fn takes_files(word: Seq<char>) -> bool {
    word == "%f"@ || word == "%F"@ || word == "%u"@ || word == "%U"@
}

/// Whether a word is a field that stands for nothing here.
pub open spec fn takes_nothing(word: Seq<char>) -> bool {
    ||| word == "%i"@
    ||| word == "%c"@
    ||| word == "%k"@
    ||| word == "%d"@
    ||| word == "%D"@
    ||| word == "%n"@
    ||| word == "%N"@
    ||| word == "%v"@
    ||| word == "%m"@
}

/// Whether none of a list of words is a field.
pub open spec fn without_fields(words: Seq<Seq<char>>) -> bool {
    forall|i: int|
        0 <= i < words.len() ==> !takes_files(#[trigger] words[i]) && !takes_nothing(words[i])
}

/// Words as arguments.
pub open spec fn plain_args(words: Seq<Seq<char>>) -> Seq<Seq<u8>> {
    Seq::new(words.len(), |i: int| encode_utf8(unescaped_word(words[i])))
}

/// The URIs of files, as arguments.
pub open spec fn uri_args(targets: Seq<Seq<u8>>) -> Seq<Seq<u8>> {
    Seq::new(targets.len(), |i: int| encode_utf8(uri_of(targets[i])))
}

proof fn fields_differ()
    ensures
        "%f"@ != "%F"@ && "%f"@ != "%u"@ && "%f"@ != "%U"@,
        "%F"@ != "%u"@ && "%F"@ != "%U"@ && "%u"@ != "%U"@,
        forall|w: Seq<char>| #[trigger] takes_nothing(w) ==> !takes_files(w),
{
    reveal_strlit("%f");
    reveal_strlit("%F");
    reveal_strlit("%u");
    reveal_strlit("%U");
    reveal_strlit("%i");
    reveal_strlit("%c");
    reveal_strlit("%k");
    reveal_strlit("%d");
    reveal_strlit("%D");
    reveal_strlit("%n");
    reveal_strlit("%N");
    reveal_strlit("%v");
    reveal_strlit("%m");
    assert("%f"@[1] == 'f' && "%F"@[1] == 'F' && "%u"@[1] == 'u' && "%U"@[1] == 'U');
    assert forall|w: Seq<char>| #[trigger] takes_nothing(w) implies !takes_files(w) by {
        assert(w[1] != 'f' && w[1] != 'F' && w[1] != 'u' && w[1] != 'U');
    }
}

proof fn args_of_plain(words: Seq<Seq<char>>, targets: Seq<Seq<u8>>)
    requires
        without_fields(words),
    ensures
        args_of(words, targets) == plain_args(words),
    decreases words.len(),
{
    if words.len() > 0 {
        let front = words.drop_last();
        assert forall|i: int| 0 <= i < front.len() implies !takes_files(#[trigger] front[i])
            && !takes_nothing(front[i]) by {
            assert(front[i] == words[i]);
        }
        args_of_plain(front, targets);
        let last = words[words.len() - 1];
        assert(!takes_files(last) && !takes_nothing(last));
        assert(word_args(last, targets) =~= seq![encode_utf8(unescaped_word(last))]);
        assert(plain_args(front) + seq![encode_utf8(unescaped_word(last))] =~= plain_args(words));
    } else {
        assert(plain_args(words) =~= Seq::empty());
    }
}

/// The arguments of two parts of a command follow each other.
pub proof fn args_of_parts(a: Seq<Seq<char>>, b: Seq<Seq<char>>, targets: Seq<Seq<u8>>)
    ensures
        args_of(a + b, targets) == args_of(a, targets) + args_of(b, targets),
    decreases b.len(),
{
    if b.len() == 0 {
        assert(a + b =~= a);
        assert(args_of(a, targets) + Seq::empty() =~= args_of(a, targets));
    } else {
        args_of_parts(a, b.drop_last(), targets);
        assert((a + b).drop_last() =~= a + b.drop_last());
        assert((a + b).last() == b.last());
        assert(args_of(a, targets) + args_of(b.drop_last(), targets) + word_args(b.last(), targets)
            =~= args_of(a, targets) + args_of(b, targets));
    }
}

proof fn args_around(
    p: Seq<Seq<char>>,
    word: Seq<char>,
    q: Seq<Seq<char>>,
    targets: Seq<Seq<u8>>,
)
    requires
        without_fields(p),
        without_fields(q),
    ensures
        args_of(p + seq![word] + q, targets) == plain_args(p) + word_args(word, targets)
            + plain_args(q),
        forall|w: Seq<char>|
            takes_files(w) ==> ((#[trigger] (p + seq![word] + q).contains(w)) <==> w == word),
{
    args_of_plain(p, targets);
    args_of_plain(q, targets);
    args_of_parts(p + seq![word], q, targets);
    assert((p + seq![word]).drop_last() =~= p);
    let words = p + seq![word] + q;
    assert forall|w: Seq<char>| takes_files(w) implies ((#[trigger] words.contains(w)) <==> w
        == word) by {
        if words.contains(w) {
            let k = choose|k: int| 0 <= k < words.len() && words[k] == w;
            if k < p.len() {
                assert(words[k] == p[k]);
            } else if k > p.len() {
                assert(words[k] == q[k - p.len() - 1]);
            }
        }
        assert(words[p.len() as int] == word);
    }
}

/// What the fields of a command stand for. `%F` is replaced by the paths of
/// all files and `%U` by their URIs, in one command line. `%f` and `%u` give
/// one command line for each file, with its path or its URI in their place.
pub proof fn fields_stand_for_the_files(
    command: Seq<char>,
    p: Seq<Seq<char>>,
    field: Seq<char>,
    q: Seq<Seq<char>>,
    targets: Seq<Seq<u8>>,
)
    requires
        words_of(command) == p + seq![field] + q,
        without_fields(p),
        without_fields(q),
    ensures
        field == "%F"@ ==> command_lines(command, targets) == seq![
            plain_args(p) + targets + plain_args(q),
        ],
        field == "%U"@ ==> command_lines(command, targets) == seq![
            plain_args(p) + uri_args(targets) + plain_args(q),
        ],
        field == "%f"@ && targets.len() > 0 ==> {
            &&& command_lines(command, targets).len() == targets.len()
            &&& forall|i: int|
                0 <= i < targets.len() ==> #[trigger] command_lines(command, targets)[i]
                    == plain_args(p) + seq![targets[i]] + plain_args(q)
        },
        field == "%u"@ && targets.len() > 0 ==> {
            &&& command_lines(command, targets).len() == targets.len()
            &&& forall|i: int|
                0 <= i < targets.len() ==> #[trigger] command_lines(command, targets)[i]
                    == plain_args(p) + seq![encode_utf8(uri_of(targets[i]))] + plain_args(q)
        },
        takes_nothing(field) || (takes_files(field) && targets.len() == 0)
            ==> command_lines(command, targets) == seq![plain_args(p) + plain_args(q)],
{
    fields_differ();
    let words = p + seq![field] + q;
    assert(words.len() > 0);
    assert(takes_files("%f"@) && takes_files("%F"@) && takes_files("%u"@) && takes_files("%U"@));
    args_around(p, field, q, targets);
    args_around(p, field, q, Seq::empty());
    assert(words.contains("%F"@) <==> field == "%F"@);
    assert(words.contains("%U"@) <==> field == "%U"@);
    assert(words.contains("%f"@) <==> field == "%f"@);
    assert(words.contains("%u"@) <==> field == "%u"@);
    assert(word_args(field, Seq::empty()).len() == 0 || !(takes_files(field) || takes_nothing(
        field,
    )));
    assert(plain_args(p) + Seq::<Seq<u8>>::empty() + plain_args(q) =~= plain_args(p) + plain_args(
        q,
    ));
    if field == "%U"@ {
        assert(word_args(field, targets) =~= uri_args(targets));
    }
    if targets.len() == 0 {
        assert(targets =~= Seq::empty());
        assert(word_args(field, targets) =~= Seq::empty() || !(takes_files(field)
            || takes_nothing(field)));
    }
    if takes_nothing(field) {
        assert(word_args(field, Seq::empty()) =~= Seq::empty());
    }
    if (field == "%f"@ || field == "%u"@) && targets.len() > 0 {
        assert forall|i: int| 0 <= i < targets.len() implies #[trigger] command_lines(
            command,
            targets,
        )[i] == plain_args(p) + word_args(field, seq![targets[i]]) + plain_args(q) by {
            args_around(p, field, q, seq![targets[i]]);
        }
        assert forall|i: int| 0 <= i < targets.len() implies word_args(
            "%u"@,
            seq![#[trigger] targets[i]],
        ) == seq![encode_utf8(uri_of(targets[i]))] by {
            assert(word_args("%u"@, seq![targets[i]]) =~= seq![encode_utf8(uri_of(targets[i]))]);
        }
    }
}

/// A command without fields is run once, as it stands; one without words is
/// not run.
pub proof fn commands_without_fields_run_once(command: Seq<char>, targets: Seq<Seq<u8>>)
    requires
        without_fields(words_of(command)),
    ensures
        words_of(command).len() == 0 ==> command_lines(command, targets).len() == 0,
        words_of(command).len() > 0 ==> command_lines(command, targets) == seq![
            plain_args(words_of(command)),
        ],
{
    let words = words_of(command);
    args_of_plain(words, Seq::empty());
    assert(!words.contains("%F"@) && !words.contains("%U"@) && !words.contains("%f"@)
        && !words.contains("%u"@)) by {
        assert forall|w: Seq<char>| words.contains(w) implies !takes_files(w) by {
            let k = choose|k: int| 0 <= k < words.len() && words[k] == w;
            assert(!takes_files(words[k]));
        }
        assert(takes_files("%f"@) && takes_files("%F"@) && takes_files("%u"@) && takes_files(
            "%U"@,
        ));
    }
}

proof fn args_hold_the_files(words: Seq<Seq<char>>, k: int, targets: Seq<Seq<u8>>, i: int)
    requires
        0 <= k < words.len(),
        takes_files(words[k]),
        0 <= i < targets.len(),
    ensures
        words[k] == "%f"@ || words[k] == "%F"@ ==> args_of(words, targets).contains(targets[i]),
        words[k] == "%u"@ || words[k] == "%U"@ ==> args_of(words, targets).contains(
            encode_utf8(uri_of(targets[i])),
        ),
    decreases words.len(),
{
    fields_differ();
    let front = args_of(words.drop_last(), targets);
    let tail = word_args(words.last(), targets);
    if k == words.len() - 1 {
        assert((front + tail)[front.len() + i] == tail[i]);
    } else {
        args_hold_the_files(words.drop_last(), k, targets, i);
        let x = if words[k] == "%f"@ || words[k] == "%F"@ {
            targets[i]
        } else {
            encode_utf8(uri_of(targets[i]))
        };
        assert(front.contains(x));
        let j = choose|j: int| 0 <= j < front.len() && front[j] == x;
        assert((front + tail)[j] == x);
    }
}

/// Every file is handed over: whatever else a command says, with a field that
/// takes files each of them occurs in a command line, by its path or by its
/// URI.
pub proof fn every_file_is_handed_over(
    command: Seq<char>,
    field: Seq<char>,
    targets: Seq<Seq<u8>>,
    i: int,
)
    requires
        words_of(command).contains(field),
        takes_files(field),
        0 <= i < targets.len(),
    ensures
        exists|j: int|
            0 <= j < command_lines(command, targets).len() && {
                let line = #[trigger] command_lines(command, targets)[j];
                if field == "%f"@ || field == "%F"@ {
                    line.contains(targets[i])
                } else {
                    line.contains(encode_utf8(uri_of(targets[i])))
                }
            },
{
    fields_differ();
    let words = words_of(command);
    let lines = command_lines(command, targets);
    let k = choose|k: int| 0 <= k < words.len() && words[k] == field;
    args_hold_the_files(words, k, targets, i);
    let one = seq![targets[i]];
    args_hold_the_files(words, k, one, 0);
    if words.contains("%F"@) || words.contains("%U"@) {
        assert(lines[0] == args_of(words, targets));
    } else {
        assert(lines[i] == args_of(words, one));
    }
}

/// Text without a percent sign stands for itself in a command, and a doubled
/// one for one.
pub proof fn percent_signs_are_doubled(a: Seq<char>, b: Seq<char>)
    requires
        !a.contains('%'),
    ensures
        unescaped_word(a + b) == a + unescaped_word(b),
        unescaped_word(a) == a,
        unescaped_word(seq!['%', '%'] + b) == seq!['%'] + unescaped_word(b),
        b.len() > 0 && b[0] != '%' ==> unescaped_word(seq!['%'] + b) == seq!['%'] + unescaped_word(
            b,
        ),
        unescaped_word(seq!['%']) == seq!['%'],
    decreases a.len(),
{
    reveal_with_fuel(unescaped_word, 2);
    assert((seq!['%', '%'] + b).skip(2) =~= b);
    assert((seq!['%'] + b).skip(1) =~= b);
    assert(seq!['%'].skip(1) =~= Seq::<char>::empty());
    assert(seq!['%'] + Seq::<char>::empty() =~= seq!['%']);
    if a.len() == 0 {
        assert(a + b =~= b);
        assert(a + unescaped_word(b) =~= unescaped_word(b));
        assert(a =~= Seq::empty());
    } else {
        assert(a[0] != '%');
        let rest = a.skip(1);
        assert forall|i: int| 0 <= i < rest.len() implies rest[i] != '%' by {
            assert(rest[i] == a[i + 1]);
        }
        percent_signs_are_doubled(rest, b);
        assert((a + b).skip(1) =~= rest + b);
        assert(seq![a[0]] + (rest + unescaped_word(b)) =~= a + unescaped_word(b));
        assert(seq![a[0]] + rest =~= a);
    }
}

/// The URI of a file is `file://` and its path, with each space written as
/// `%20` and each percent sign as `%25`; everything else stays.
pub proof fn uris_escape_spaces_and_percent_signs(a: Seq<char>, c: char, path: Seq<u8>)
    ensures
        uri_of(path) == "file://"@ + lightly_escaped(shown(path)),
        lightly_escaped(Seq::empty()) == Seq::<char>::empty(),
        lightly_escaped(a.push(c)) == lightly_escaped(a) + (if c == ' ' {
            seq!['%', '2', '0']
        } else if c == '%' {
            seq!['%', '2', '5']
        } else {
            seq![c]
        }),
{
    reveal_strlit("%20");
    reveal_strlit("%25");
    assert("%20"@ =~= seq!['%', '2', '0']);
    assert("%25"@ =~= seq!['%', '2', '5']);
    assert(a.push(c).drop_last() =~= a);
}

// ---------------------------------------------------------------------------
// The words of a command
// ---------------------------------------------------------------------------

proof fn letters_join_the_word(a: Seq<char>, rest: Seq<char>, word: Seq<char>, open: bool)
    requires
        forall|i: int| 0 <= i < a.len() ==> !is_space(#[trigger] a[i]) && a[i] != '"',
    ensures
        words_from(a + rest, word, open, false) == words_from(
            rest,
            word + a,
            open || a.len() > 0,
            false,
        ),
    decreases a.len(),
{
    if a.len() == 0 {
        assert(a + rest =~= rest);
        assert(word + a =~= word);
    } else {
        let b = a.skip(1);
        assert(!is_space(a[0]) && a[0] != '"');
        assert forall|i: int| 0 <= i < b.len() implies !is_space(#[trigger] b[i]) && b[i]
            != '"' by {
            assert(b[i] == a[i + 1]);
        }
        letters_join_the_word(b, rest, word.push(a[0]), true);
        assert((a + rest).skip(1) =~= b + rest);
        assert(word.push(a[0]) + b =~= word + a);
    }
}

/// White space outside quotes separates the words of a command, however much
/// of it there is; a word without quotes is taken letter by letter.
pub proof fn white_space_separates_words(a: Seq<char>, c: char, rest: Seq<char>)
    requires
        a.len() > 0,
        forall|i: int| 0 <= i < a.len() ==> !is_space(#[trigger] a[i]) && a[i] != '"',
        is_space(c),
        c != '"',
        c != '\\',
    ensures
        words_of(Seq::empty()).len() == 0,
        words_of(a) == seq![a],
        words_of(a + seq![c] + rest) == seq![a] + words_of(rest),
        words_of(seq![c] + rest) == words_of(rest),
{
    let none = Seq::<char>::empty();
    letters_join_the_word(a, none, none, false);
    assert(a + none =~= a);
    assert(none + a =~= a);
    letters_join_the_word(a, seq![c] + rest, none, false);
    assert(a + (seq![c] + rest) =~= a + seq![c] + rest);
    assert((seq![c] + rest).skip(1) =~= rest);
}

// ---------------------------------------------------------------------------
// Terminals and processes
// ---------------------------------------------------------------------------

/// The configured terminal wins over the one of the environment, and that one
/// over the built-in one; an empty value counts as none.
pub proof fn the_configured_terminal_wins(config: Seq<char>, env: Seq<u8>)
    requires
        config.len() > 0,
        env.len() > 0,
    ensures
        forall|e: Option<Seq<u8>>| #[trigger] terminal_of(Some(config), e) == encode_utf8(config),
        terminal_of(None, Some(env)) == env,
        terminal_of(Some(Seq::empty()), Some(env)) == env,
        terminal_of(None, None) == encode_utf8("alacritty"@),
        terminal_of(None, Some(Seq::empty())) == encode_utf8("alacritty"@),
        terminal_of(Some(Seq::empty()), None) == encode_utf8("alacritty"@),
        terminal_of(Some(Seq::empty()), Some(Seq::empty())) == encode_utf8("alacritty"@),
{
}

/// The first word of a command line is the program and the others are its
/// arguments; in a terminal the whole line follows `-e`.
pub proof fn command_lines_are_started(
    lines: Seq<Seq<Seq<u8>>>,
    line: Seq<Seq<u8>>,
    terminal: Seq<u8>,
)
    requires
        line.len() > 0,
    ensures
        ({
            let plain = spawns_of(lines.push(line), false, terminal);
            &&& plain.len() == spawns_of(lines, false, terminal).len() + 1
            &&& plain.drop_last() == spawns_of(lines, false, terminal)
            &&& seq![plain.last().program] + plain.last().args == line
            &&& plain.last().dir is None
        }),
        ({
            let inside = spawns_of(lines.push(line), true, terminal);
            &&& inside.drop_last() == spawns_of(lines, true, terminal)
            &&& inside.last().program == terminal
            &&& inside.last().args == seq![encode_utf8("-e"@)] + line
            &&& inside.last().dir is None
        }),
        forall|in_terminal: bool| #[trigger]
            spawns_of(lines.push(Seq::empty()), in_terminal, terminal) == spawns_of(
                lines,
                in_terminal,
                terminal,
            ),
        forall|in_terminal: bool| #[trigger]
            spawns_of(Seq::empty(), in_terminal, terminal).len() == 0,
{
    assert(lines.push(line).drop_last() =~= lines);
    assert(lines.push(Seq::empty()).drop_last() =~= lines);
    assert(seq![line[0]] + line.skip(1) =~= line);
    assert(spawns_of(lines.push(line), false, terminal).drop_last() =~= spawns_of(
        lines,
        false,
        terminal,
    ));
    assert(spawns_of(lines.push(line), true, terminal).drop_last() =~= spawns_of(
        lines,
        true,
        terminal,
    ));
}

// ---------------------------------------------------------------------------
// Desktop entries
// ---------------------------------------------------------------------------

/// A desktop entry describes an application exactly if it names a command.
/// Each field is what its key of the main group says.
pub proof fn entries_say_what_their_keys_say(id: Seq<char>, contents: Seq<char>)
    ensures
        ({
            let file = lines(contents);
            let main = "[Desktop Entry]"@;
            let command = group_value(file, main, "Exec"@);
            let name = group_value(file, main, "Name"@);
            let types = group_value(file, main, "MimeType"@);
            &&& desktop_entry(id, contents) is Some <==> command is Some && command->0.len() > 0
            &&& desktop_entry(id, contents) matches Some(e) ==> {
                &&& e.id == id
                &&& Some(e.command) == command
                &&& name is Some && name->0.len() > 0 ==> Some(e.name) == name
                &&& name is None || name->0.len() == 0 ==> e.name == id
                &&& e.terminal <==> (group_value(file, main, "Terminal"@) matches Some(v)
                    && is_true(v))
                &&& e.no_display <==> (group_value(file, main, "NoDisplay"@) matches Some(v)
                    && is_true(v))
                &&& e.hidden <==> (group_value(file, main, "Hidden"@) matches Some(v) && is_true(
                    v,
                ))
                &&& types matches Some(v) ==> e.mime_types == list_items(v)
            }
        }),
{
}

/// What says yes: `true` in any mixture of cases, and nothing else.
pub proof fn only_true_says_yes(value: Seq<char>)
    ensures
        is_true(value) <==> {
            &&& value.len() == 4
            &&& value[0] == 't' || value[0] == 'T'
            &&& value[1] == 'r' || value[1] == 'R'
            &&& value[2] == 'u' || value[2] == 'U'
            &&& value[3] == 'e' || value[3] == 'E'
        },
{
}

/// Only files that end in `.desktop` and whose names are text have an
/// identifier: the name itself, behind the name of the directory it is nested
/// in and a hyphen.
pub proof fn identifiers_are_file_names(path: Seq<u8>, prefix: Seq<char>)
    ensures
        entry_id(path, None) matches Some(id) ==> {
            &&& file_name_of(path) matches Some(name) && decoded(name) == Some(id)
                && name_extension(name) == Some(encode_utf8("desktop"@))
            &&& entry_id(path, Some(prefix)) == Some(prefix + "-"@ + id)
        },
        entry_id(path, None) is None ==> entry_id(path, Some(prefix)) is None,
        file_name_of(path) matches Some(name) ==> decoded(name) is Some && name_extension(name)
            == Some(encode_utf8("desktop"@)) ==> entry_id(path, None) is Some,
{
}

/// The last line of a group that gives a key a value decides; lines of other
/// groups and other keys do not matter.
pub proof fn the_last_value_counts(
    file: Seq<Seq<char>>,
    line: Seq<char>,
    header: Seq<char>,
    key: Seq<char>,
)
    ensures
        ({
            let after = group_value(file.push(line), header, key);
            let text = trimmed(line);
            &&& text.len() == 0 || text[0] == '#' || text[0] == '[' || !text.contains('=')
                ==> after == group_value(file, header, key)
            &&& !in_group(file, header) ==> after == group_value(file, header, key)
            &&& in_group(file, header) && text.len() > 0 && text[0] != '#' && text[0] != '['
                ==> forall|a: Seq<char>, b: Seq<char>|
                !a.contains('=') && text == #[trigger] (a + seq!['='] + b) ==> after == if trimmed(
                    a,
                ) == key {
                    Some(trimmed(b))
                } else {
                    group_value(file, header, key)
                }
            &&& text.len() > 0 && text[0] == '[' ==> (in_group(file.push(line), header) <==> text
                == header)
            &&& text.len() == 0 || text[0] != '[' ==> in_group(file.push(line), header)
                == in_group(file, header)
        }),
{
    let text = trimmed(line);
    assert(file.push(line).drop_last() =~= file);
    find_props(text, '=');
    if in_group(file, header) && text.len() > 0 && text[0] != '#' && text[0] != '[' {
        assert forall|a: Seq<char>, b: Seq<char>|
            !a.contains('=') && text == #[trigger] (a + seq!['='] + b) implies group_value(
            file.push(line),
            header,
            key,
        ) == if trimmed(a) == key {
            Some(trimmed(b))
        } else {
            group_value(file, header, key)
        } by {
            cuts_are_at_the_first(a, '=', b);
        }
    }
}

/// The items of a list stand between semicolons; white space around them and
/// empty ones do not count.
pub proof fn lists_are_separated_by_semicolons(pieces: Seq<Seq<char>>, value: Seq<char>)
    ensures
        list_items(value) == named_items(split(value, ';')),
        named_items(pieces) == pieces.map_values(|p: Seq<char>| trimmed(p)).filter(
            |p: Seq<char>| p.len() > 0,
        ),
    decreases pieces.len(),
{
    let short = |p: Seq<char>| trimmed(p);
    let named = |p: Seq<char>| p.len() > 0;
    reveal(Seq::filter);
    if pieces.len() > 0 {
        lists_are_separated_by_semicolons(pieces.drop_last(), value);
        assert(pieces.map_values(short).drop_last() =~= pieces.drop_last().map_values(short));
        assert(pieces.map_values(short).last() == trimmed(pieces.last()));
    } else {
        assert(pieces.map_values(short) =~= Seq::empty());
    }
}

/// The three groups of an association list.
pub proof fn association_lists_have_three_groups(contents: Seq<char>)
    ensures
        mime_file(contents).default_applications == group_map(
            lines(contents),
            "[Default Applications]"@,
        ),
        mime_file(contents).added_associations == group_map(
            lines(contents),
            "[Added Associations]"@,
        ),
        mime_file(contents).removed_associations == group_map(
            lines(contents),
            "[Removed Associations]"@,
        ),
{
}

/// A line of a group of an association list adds its identifiers behind those
/// that the group names for the type already, and changes no other type.
pub proof fn association_lines_add_up(
    file: Seq<Seq<char>>,
    line: Seq<char>,
    header: Seq<char>,
    key: Seq<char>,
)
    ensures
        ({
            let before = group_map(file, header);
            let after = group_map(file.push(line), header);
            match sides(line) {
                Some((k, v)) if in_group(file, header) => {
                    &&& trimmed(k) == key ==> listed_ids(after, key) == listed_ids(before, key)
                        + list_items(v)
                    &&& trimmed(k) != key ==> listed_ids(after, key) == listed_ids(before, key)
                },
                _ => listed_ids(after, key) == listed_ids(before, key),
            }
        }),
{
    assert(file.push(line).drop_last() =~= file);
    let before = group_map(file, header);
    assert(listed_ids(before, key) + Seq::<Seq<char>>::empty() =~= listed_ids(before, key));
    if let Some((k, v)) = sides(line) {
        if list_items(v).len() == 0 {
            assert(list_items(v) =~= Seq::empty());
        }
    }
}

// ---------------------------------------------------------------------------
// Choosing an application
// ---------------------------------------------------------------------------

/// The default application for a type is the first that the lists name for it
/// and that is installed; there is none exactly if no such application is
/// installed.
pub proof fn the_first_installed_is_the_default(
    entries: Seq<DesktopEntryView>,
    ids: Seq<Seq<char>>,
    k: int,
)
    requires
        0 <= k <= ids.len(),
        forall|i: int| 0 <= i < k ==> entry_with(entries, #[trigger] ids[i]) is None,
        k < ids.len() ==> entry_with(entries, ids[k]) is Some,
    ensures
        k < ids.len() ==> first_installed(entries, ids) == entry_with(entries, ids[k]),
        k == ids.len() ==> first_installed(entries, ids) is None,
    decreases ids.len(),
{
    if k > 0 {
        assert(entry_with(entries, ids[0]) is None);
        let rest = ids.skip(1);
        assert forall|i: int| 0 <= i < k - 1 implies entry_with(
            entries,
            #[trigger] rest[i],
        ) is None by {
            assert(rest[i] == ids[i + 1]);
        }
        the_first_installed_is_the_default(entries, rest, k - 1);
    }
}

/// An application is found by its identifier, the first one that has it.
pub proof fn entries_are_found_by_identifier(
    entries: Seq<DesktopEntryView>,
    id: Seq<char>,
    k: int,
)
    requires
        0 <= k <= entries.len(),
        forall|i: int| 0 <= i < k ==> (#[trigger] entries[i]).id != id,
        k < entries.len() ==> entries[k].id == id,
    ensures
        k < entries.len() ==> entry_with(entries, id) == Some(entries[k]),
        k == entries.len() ==> entry_with(entries, id) is None,
    decreases entries.len(),
{
    if k > 0 {
        assert(entries[0].id != id);
        let rest = entries.skip(1);
        assert forall|i: int| 0 <= i < k - 1 implies (#[trigger] rest[i]).id != id by {
            assert(rest[i] == entries[i + 1]);
        }
        entries_are_found_by_identifier(rest, id, k - 1);
    }
}

proof fn offered_among(db: AppsView, mimetype: Seq<char>, n: int, e: DesktopEntryView)
    requires
        0 <= n <= db.entries.len(),
    ensures
        offered_upto(db, mimetype, n).contains(e) <==> db.entries.take(n).contains(e)
            && is_offered(db, mimetype, e),
    decreases n,
{
    if n == 0 {
        assert(!db.entries.take(0).contains(e));
    } else {
        offered_among(db, mimetype, n - 1, e);
        let rest = offered_upto(db, mimetype, n - 1);
        let (short, long) = (db.entries.take(n - 1), db.entries.take(n));
        assert(long =~= short.push(db.entries[n - 1]));
        assert(long.contains(e) <==> short.contains(e) || e == db.entries[n - 1]) by {
            if short.contains(e) {
                let j = choose|j: int| 0 <= j < short.len() && short[j] == e;
                assert(long[j] == e);
            }
            assert(long[n - 1] == db.entries[n - 1]);
            if long.contains(e) {
                let j = choose|j: int| 0 <= j < long.len() && long[j] == e;
                assert(j < n - 1 ==> short[j] == e);
            }
        }
        let last = db.entries[n - 1];
        let grown = rest.push(last);
        assert(grown.contains(e) <==> rest.contains(e) || e == last) by {
            if rest.contains(e) {
                let j = choose|j: int| 0 <= j < rest.len() && rest[j] == e;
                assert(grown[j] == e);
            }
            assert(grown[rest.len() as int] == last);
            if grown.contains(e) {
                let j = choose|j: int| 0 <= j < grown.len() && grown[j] == e;
                assert(j < rest.len() ==> rest[j] == e);
            }
        }
    }
}

/// Besides the default one, the applications offered for a type are those
/// installed that name the type themselves and are not hidden in any way.
pub proof fn offered_applications_name_the_type(
    db: AppsView,
    mimetype: Seq<char>,
    e: DesktopEntryView,
)
    ensures
        offered(db, mimetype).contains(e) <==> {
            &&& db.entries.contains(e)
            &&& !e.no_display
            &&& !e.hidden
            &&& e.mime_types.contains(mimetype)
            &&& first_installed(db.entries, listed_ids(db.associations, mimetype)) matches Some(d)
                ==> d.id != e.id
        },
{
    offered_among(db, mimetype, db.entries.len() as int, e);
    assert(db.entries.take(db.entries.len() as int) =~= db.entries);
}

// ---------------------------------------------------------------------------
// Directories
// ---------------------------------------------------------------------------

/// A set variable names the user's directory; without it the directory is
/// below home, and without a home there is none. The system's directories
/// follow, by default `/etc/xdg`, and `/usr/local/share` before `/usr/share`.
pub proof fn directories_have_defaults(
    set: Seq<u8>,
    dirs: Seq<u8>,
    home: Seq<u8>,
    other: Option<Seq<u8>>,
)
    requires
        set.len() > 0,
        dirs.len() > 0,
        home.len() > 0,
    ensures
        config_chain(Some(set), Some(dirs), other) == seq![set] + split(dirs, 0x3A),
        data_chain(Some(set), Some(dirs), other) == seq![set] + split(dirs, 0x3A),
        config_chain(None, Some(dirs), Some(home)) == seq![
            joined(home, encode_utf8(".config"@)),
        ] + split(dirs, 0x3A),
        data_chain(None, Some(dirs), Some(home)) == seq![
            joined(home, encode_utf8(".local/share"@)),
        ] + split(dirs, 0x3A),
        config_chain(None, Some(dirs), None) == split(dirs, 0x3A),
        data_chain(None, Some(dirs), None) == split(dirs, 0x3A),
        config_chain(Some(set), None, other) == seq![set, encode_utf8("/etc/xdg"@)],
        data_chain(Some(set), None, other) == seq![
            set,
            encode_utf8("/usr/local/share"@),
            encode_utf8("/usr/share"@),
        ],
        config_chain(Some(Seq::empty()), Some(Seq::empty()), Some(home)) == config_chain(
            None,
            None,
            Some(home),
        ),
        data_chain(Some(Seq::empty()), Some(Seq::empty()), Some(home)) == data_chain(
            None,
            None,
            Some(home),
        ),
        config_chain(None, None, Some(Seq::empty())) == config_chain(None, None, None),
{
    assert(Seq::<Seq<u8>>::empty() + split(dirs, 0x3A) =~= split(dirs, 0x3A));
    assert(config_chain(Some(set), None, other) =~= seq![set, encode_utf8("/etc/xdg"@)]);
    assert(data_chain(Some(set), None, other) =~= seq![
        set,
        encode_utf8("/usr/local/share"@),
        encode_utf8("/usr/share"@),
    ]);
}

/// The menu of a type begins with its default application, if there is one;
/// the others follow by name, and each of them is one that is offered.
pub proof fn menus_are_sorted_by_name(
    db: AppsView,
    mimetype: Seq<char>,
    menu: Seq<DesktopEntryView>,
    i: int,
    j: int,
)
    requires
        is_menu(db, mimetype, menu),
    ensures
        ({
            let default = first_installed(db.entries, listed_ids(db.associations, mimetype));
            let first = if default is Some {
                1int
            } else {
                0
            };
            &&& default matches Some(d) ==> menu.len() > 0 && menu[0] == d
            &&& menu.len() == first + offered(db, mimetype).len()
            &&& first <= i < j < menu.len() ==> !bytes_less(
                encode_utf8(menu[j].name),
                encode_utf8(menu[i].name),
            )
            &&& first <= i < menu.len() ==> offered(db, mimetype).contains(menu[i])
        }),
{
    let others = offered(db, mimetype);
    let keys = name_keys(others);
    let head = match default_app(db, mimetype) {
        Some(d) => seq![d],
        None => Seq::empty(),
    };
    let order = choose|order: Seq<usize>| #[trigger]
        is_order(keys, order) && menu == head + ordered(others, order);
    let first = head.len() as int;
    if first <= i < menu.len() {
        assert(order[i - first] < others.len());
        assert(menu[i] == others[order[i - first] as int]);
    }
    if first <= i < j < menu.len() {
        ordered_lists_ascend(keys, order, i - first, j - first);
        assert(order[j - first] < others.len());
        assert(menu[j] == others[order[j - first] as int]);
    }
}

/// Within quotes a backslash before a quote, a backslash, a backquote or a
/// dollar sign stands for that character; before any other it stands for
/// itself.
pub proof fn four_characters_are_escaped_in_quotes(c: char)
    ensures
        c == '"' || c == '\\' || c == '`' || c == '$' ==> words_of(seq!['"', '\\', c, '"'])
            == seq![seq![c]],
        c != '"' && c != '\\' && c != '`' && c != '$' ==> words_of(seq!['"', '\\', c, '"'])
            == seq![seq!['\\', c]],
{
    let none = Seq::<char>::empty();
    let s = seq!['"', '\\', c, '"'];
    let a = seq!['\\', c, '"'];
    let b = seq![c, '"'];
    let q = seq!['"'];
    assert(s.skip(1) =~= a);
    assert(a.skip(1) =~= b);
    assert(a.skip(2) =~= q);
    assert(b.skip(1) =~= q);
    assert(q.skip(1) =~= none);
    assert(none.push(c) =~= seq![c]);
    assert(none.push('\\').push(c) =~= seq!['\\', c]);
    assert(words_from(s, none, false, false) == words_from(a, none, true, true));
    assert(words_from(q, none.push(c), true, true) == words_from(none, none.push(c), true, false));
    assert(words_from(b, none.push('\\'), true, true) == words_from(
        q,
        none.push('\\').push(c),
        true,
        true,
    ) || c == '"' || c == '\\');
    assert(words_from(q, none.push('\\').push(c), true, true) == words_from(
        none,
        none.push('\\').push(c),
        true,
        false,
    ));
}

/// An application that any list removes for a type is not among those for it,
/// whichever list names it.
pub proof fn removed_applications_stay_out(
    files: Seq<MimeAppsView>,
    key: Seq<char>,
    i: int,
    id: Seq<char>,
)
    requires
        0 <= i < files.len(),
        files[i].removed_associations.dom().contains(key),
        files[i].removed_associations[key].contains(id),
    ensures
        !merged_upto(files, key, files.len() as int).contains(id),
{
    merged_lists(files, key, files.len() as int);
    let r = merged_upto(files, key, files.len() as int);
    if r.contains(id) {
        let k = choose|k: int| 0 <= k < r.len() && r[k] == id;
        assert(!is_vetoed(files, key, r[k]));
        assert(listed_ids(files[i].removed_associations, key).contains(id));
    }
}

/// An application that a list names for a type, and that none removes for it,
/// is among those for the type.
pub proof fn named_applications_are_kept(
    files: Seq<MimeAppsView>,
    key: Seq<char>,
    j: int,
    id: Seq<char>,
)
    requires
        0 <= j < files.len(),
        forall|i: int|
            0 <= i < files.len() && (#[trigger] files[i]).removed_associations.dom().contains(key)
                ==> !files[i].removed_associations[key].contains(id),
        (files[j].default_applications.dom().contains(key)
            && files[j].default_applications[key].contains(id)) || (
        files[j].added_associations.dom().contains(key)
            && files[j].added_associations[key].contains(id)),
    ensures
        merged_upto(files, key, files.len() as int).contains(id),
{
    assert(!is_vetoed(files, key, id)) by {
        if is_vetoed(files, key, id) {
            let i = choose|i: int|
                0 <= i < files.len() && listed_ids(
                    (#[trigger] files[i]).removed_associations,
                    key,
                ).contains(id);
            assert(files[i].removed_associations.dom().contains(key));
        }
    }
    merged_lists(files, key, files.len() as int);
    assert(names(files, j, key, id));
}

proof fn distinct_ids_are_added(
    files: Seq<MimeAppsView>,
    key: Seq<char>,
    before: Seq<Seq<char>>,
    ids: Seq<Seq<char>>,
)
    requires
        (before + ids).no_duplicates(),
        forall|k: int| 0 <= k < ids.len() ==> !is_vetoed(files, key, #[trigger] ids[k]),
    ensures
        with_ids(files, key, before, ids) == before + ids,
    decreases ids.len(),
{
    if ids.len() == 0 {
        assert(before + ids =~= before);
    } else {
        let front = ids.drop_last();
        let (long, short) = (before + ids, before + front);
        assert(short =~= long.drop_last());
        assert forall|k: int| 0 <= k < front.len() implies !is_vetoed(
            files,
            key,
            #[trigger] front[k],
        ) by {
            assert(front[k] == ids[k]);
        }
        distinct_ids_are_added(files, key, before, front);
        assert(!short.contains(ids.last())) by {
            if short.contains(ids.last()) {
                let k = choose|k: int| 0 <= k < short.len() && short[k] == ids.last();
                assert(long[k] == long[long.len() - 1]);
            }
        }
        assert(!is_vetoed(files, key, ids[ids.len() - 1]));
        assert(short.push(ids.last()) =~= long);
    }
}

/// In each list the defaults come before the additions, both in order, behind
/// what the lists that count more say.
pub proof fn defaults_come_before_additions(
    files: Seq<MimeAppsView>,
    key: Seq<char>,
    n: int,
    defaults: Seq<Seq<char>>,
    added: Seq<Seq<char>>,
)
    requires
        0 < n <= files.len(),
        files[n - 1].default_applications.dom().contains(key),
        files[n - 1].default_applications[key] == defaults,
        files[n - 1].added_associations.dom().contains(key),
        files[n - 1].added_associations[key] == added,
        (merged_upto(files, key, n - 1) + defaults + added).no_duplicates(),
        forall|k: int| 0 <= k < defaults.len() ==> !is_vetoed(files, key, #[trigger] defaults[k]),
        forall|k: int| 0 <= k < added.len() ==> !is_vetoed(files, key, #[trigger] added[k]),
    ensures
        merged_upto(files, key, n) == merged_upto(files, key, n - 1) + defaults + added,
        merged_upto(files, key, 0).len() == 0,
{
    let before = merged_upto(files, key, n - 1);
    let all = before + defaults + added;
    let most = before + defaults;
    assert(most.no_duplicates()) by {
        assert forall|a: int, b: int| 0 <= a < most.len() && 0 <= b < most.len() && a != b implies
            most[a] != most[b] by {
            assert(all[a] == most[a] && all[b] == most[b]);
        }
    }
    distinct_ids_are_added(files, key, before, defaults);
    distinct_ids_are_added(files, key, most, added);
}

/// Every desktop file of a directory is taken up, in order, and so is every
/// one in a directory below it, under that directory's name; what cannot be
/// read is passed over.
pub proof fn desktop_files_are_taken_up(
    items: Seq<AppItemView>,
    nested: Seq<(Seq<u8>, Option<Seq<char>>)>,
    path: Seq<u8>,
    contents: Seq<char>,
    id: Seq<char>,
    prefix: Seq<char>,
    dir: Seq<u8>,
    name: Seq<u8>,
)
    requires
        entry_id(path, None) == Some(id),
        file_name_of(dir) == Some(name),
        decoded(name) == Some(prefix),
    ensures
        dir_files(items.push(AppItem::File { path, contents: Some(contents) })) == dir_files(
            items,
        ).push(DesktopFile { id, contents }),
        dir_files(items.push(AppItem::File { path, contents: None })) == dir_files(items),
        dir_files(items.push(AppItem::Dir { path: dir, items: nested })) == dir_files(items)
            + nested_files(nested, prefix),
        nested_files(nested.push((path, Some(contents))), prefix) == nested_files(
            nested,
            prefix,
        ).push(DesktopFile { id: prefix + "-"@ + id, contents }),
        nested_files(nested.push((path, None)), prefix) == nested_files(nested, prefix),
        nested_files(Seq::empty(), prefix).len() == 0,
        dir_files(Seq::empty()).len() == 0,
{
    let (a, b, c) = (
        AppItemView::File { path, contents: Some(contents) },
        AppItemView::File { path, contents: None },
        AppItemView::Dir { path: dir, items: nested },
    );
    assert(items.push(a).drop_last() =~= items);
    assert(items.push(b).drop_last() =~= items);
    assert(items.push(c).drop_last() =~= items);
    assert(nested.push((path, Some(contents))).drop_last() =~= nested);
    assert(nested.push((path, None)).drop_last() =~= nested);
    assert(dir_files(items) + seq![DesktopFile { id, contents }] =~= dir_files(items).push(
        DesktopFile { id, contents },
    ));
    assert(dir_files(items) + Seq::<DesktopFile<Seq<char>>>::empty() =~= dir_files(items));
    let more = nested_files(nested, prefix);
    let long = DesktopFile { id: prefix + "-"@ + id, contents };
    assert(more + seq![long] =~= more.push(long));
    assert(more + Seq::<DesktopFile<Seq<char>>>::empty() =~= more);
}

} // verus!
